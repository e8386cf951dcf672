use vstd::arithmetic::div_mod::{lemma_div_denominator, lemma_fundamental_div_mod};
use vstd::prelude::*;

verus! {

/// Outcome code carried by a key-value reply.
#[derive(Clone, Copy, PartialEq, Eq, Structural, Debug)]
pub enum ReplyStatus {
    Success,
    InternalError,
}

/// The four big-endian bytes of a 32-bit length.
pub open spec fn be_bytes(n: u32) -> Seq<u8> {
    seq![
        (n / 0x1000000) as u8,
        ((n / 0x10000) % 0x100) as u8,
        ((n / 0x100) % 0x100) as u8,
        (n % 0x100) as u8,
    ]
}

/// The 32-bit length held by four big-endian bytes.
pub open spec fn be_value(b: Seq<u8>) -> int
    recommends
        b.len() == 4,
{
    (b[0] as int) * 0x1000000 + (b[1] as int) * 0x10000 + (b[2] as int) * 0x100 + (b[3] as int)
}

proof fn lemma_be_round_trip(n: u32)
    ensures
        be_value(be_bytes(n)) == n,
{
    let x = n as int;
    lemma_fundamental_div_mod(x, 0x100);
    lemma_fundamental_div_mod(x / 0x100, 0x100);
    lemma_fundamental_div_mod(x / 0x10000, 0x100);
    lemma_div_denominator(x, 0x100, 0x100);
    lemma_div_denominator(x, 0x10000, 0x100);
    assert(x / 0x1000000 < 0x100) by {
        lemma_div_denominator(x, 0x1000000, 0x100);
    }
}

/// A stored record: the big-endian length of the key, the key bytes, the
/// big-endian length of the value, the value bytes.
pub open spec fn spec_encode(k: Seq<u8>, v: Seq<u8>) -> Seq<u8>
    recommends
        k.len() <= u32::MAX,
        v.len() <= u32::MAX,
{
    be_bytes(k.len() as u32) + k + be_bytes(v.len() as u32) + v
}

/// The record held by stored bytes, when they carry exactly one: both length
/// prefixes in range and nothing left over.
pub open spec fn spec_decode(b: Seq<u8>) -> Option<(Seq<u8>, Seq<u8>)> {
    if b.len() < 4 {
        None
    } else {
        let kl = be_value(b.subrange(0, 4));
        if b.len() < kl + 8 {
            None
        } else {
            let k = b.subrange(4, 4 + kl);
            let vl = be_value(b.subrange(4 + kl, 8 + kl));
            if b.len() == kl + vl + 8 {
                Some((k, b.subrange(8 + kl, 8 + kl + vl)))
            } else {
                None
            }
        }
    }
}

/// Decoding inverts encoding: a record's bytes decode back to exactly the
/// record that was written, byte-exact on both key and value.
pub proof fn lemma_codec_round_trip(k: Seq<u8>, v: Seq<u8>)
    requires
        k.len() <= u32::MAX,
        v.len() <= u32::MAX,
    ensures
        spec_decode(spec_encode(k, v)) == Some((k, v)),
{
    let b = spec_encode(k, v);
    lemma_be_round_trip(k.len() as u32);
    lemma_be_round_trip(v.len() as u32);
    assert(b.subrange(0, 4) =~= be_bytes(k.len() as u32));
    let kl = k.len() as int;
    let vl = v.len() as int;
    assert(b.subrange(4, 4 + kl) =~= k);
    assert(b.subrange(4 + kl, 8 + kl) =~= be_bytes(v.len() as u32));
    assert(b.subrange(8 + kl, 8 + kl + vl) =~= v);
}

/// Appends four big-endian bytes holding `n`.
fn push_be32(out: &mut Vec<u8>, n: u32)
    ensures
        final(out)@ == old(out)@ + be_bytes(n),
{
    out.push((n / 0x1000000) as u8);
    out.push(((n / 0x10000) % 0x100) as u8);
    out.push(((n / 0x100) % 0x100) as u8);
    out.push((n % 0x100) as u8);
    proof {
        assert(out@ =~= old(out)@ + be_bytes(n));
    }
}

/// Appends a copy of `src`.
pub(crate) fn append_bytes(out: &mut Vec<u8>, src: &Vec<u8>)
    ensures
        final(out)@ == old(out)@ + src@,
{
    let n: usize = src.len();
    let mut i: usize = 0;
    while i < n
        invariant
            n == src@.len(),
            i <= n,
            out@ =~= old(out)@ + src@.take(i as int),
        decreases n - i,
    {
        out.push(src[i]);
        i = i + 1;
    }
    proof {
        assert(out@ =~= old(out)@ + src@);
    }
}

/// Reads the 32-bit big-endian length at `off`.
fn read_be32(b: &Vec<u8>, off: usize) -> (n: u32)
    requires
        off + 4 <= b@.len(),
    ensures
        n as int == be_value(b@.subrange(off as int, off as int + 4)),
{
    let len: usize = b.len();
    let n0 = b[off] as u32;
    let n1 = b[off + 1] as u32;
    let n2 = b[off + 2] as u32;
    let n3 = b[off + 3] as u32;
    n0 * 0x1000000 + n1 * 0x10000 + n2 * 0x100 + n3
}

/// Copies `src[start..end]`.
fn copy_range(src: &Vec<u8>, start: usize, end: usize) -> (out: Vec<u8>)
    requires
        start <= end <= src@.len(),
    ensures
        out@ == src@.subrange(start as int, end as int),
{
    let mut out: Vec<u8> = Vec::new();
    let mut i: usize = start;
    while i < end
        invariant
            start <= i <= end <= src@.len(),
            out@ =~= src@.subrange(start as int, i as int),
        decreases end - i,
    {
        out.push(src[i]);
        i = i + 1;
    }
    out
}

/// Encodes one record for the backing store.
pub fn encode_record(key: &Vec<u8>, value: &Vec<u8>) -> (out: Vec<u8>)
    requires
        key@.len() <= u32::MAX,
        value@.len() <= u32::MAX,
    ensures
        out@ == spec_encode(key@, value@),
{
    let mut out: Vec<u8> = Vec::new();
    push_be32(&mut out, key.len() as u32);
    append_bytes(&mut out, key);
    push_be32(&mut out, value.len() as u32);
    append_bytes(&mut out, value);
    proof {
        assert(out@ =~= spec_encode(key@, value@));
    }
    out
}

/// Decodes stored bytes back into a record, or reports that they do not carry
/// one.
pub fn decode_record(b: &Vec<u8>) -> (r: Option<(Vec<u8>, Vec<u8>)>)
    ensures
        match r {
            Some(kv) => spec_decode(b@) == Some((kv.0@, kv.1@)),
            None => spec_decode(b@) is None,
        },
{
    let n: usize = b.len();
    if n < 4 {
        return None;
    }
    let kl32 = read_be32(b, 0);
    proof {
        assert(b@.subrange(0, 4) =~= b@.take(4).subrange(0, 4));
    }
    let kl = kl32 as usize;
    if n - 4 < kl || n - 4 - kl < 4 {
        return None;
    }
    let key = copy_range(b, 4, 4 + kl);
    let vl32 = read_be32(b, 4 + kl);
    let vl = vl32 as usize;
    if n - 8 - kl != vl {
        return None;
    }
    let value = copy_range(b, 8 + kl, 8 + kl + vl);
    Some((key, value))
}

/// An item of a read reply: the requested key, and the value stored under it
/// or the absent marker.
pub struct ReadItem {
    pub key: Vec<u8>,
    pub value: Option<Vec<u8>>,
}

/// The shaped reply to a batched key-value read.
pub struct ReadReply {
    pub items: Vec<ReadItem>,
    pub status: ReplyStatus,
}

/// One item of a batched key-value write.
pub struct WriteItem {
    pub key: Vec<u8>,
    pub value: Vec<u8>,
}

/// The byte strings of an optional payload.
pub open spec fn opt_view(o: Option<Vec<u8>>) -> Option<Seq<u8>> {
    match o {
        Some(b) => Some(b@),
        None => None,
    }
}

/// What the backing store hands back for a key: the stored bytes, or nothing.
pub open spec fn spec_fetch(store: Map<Seq<u8>, Seq<u8>>, key: Seq<u8>) -> Option<Seq<u8>> {
    if store.contains_key(key) {
        Some(store[key])
    } else {
        None
    }
}

/// The value a read owes for one key, against the bytes fetched for it:
/// absent when nothing is stored, absent when the stored bytes do not decode
/// (a bad record spoils only its own key, never the rest of the batch), else
/// the decoded record's value.
pub open spec fn spec_read_value(fetched: Option<Seq<u8>>) -> Option<Seq<u8>> {
    match fetched {
        Some(b) => match spec_decode(b) {
            Some(kv) => Some(kv.1),
            None => None,
        },
        None => None,
    }
}

/// Shapes the reply to a batched read in the structured deployment mode:
/// one item per requested key, in request order, each carrying the decoded
/// value of the bytes fetched for that key or the absent marker.
pub fn read_reply(keys: &Vec<Vec<u8>>, fetched: Vec<Option<Vec<u8>>>) -> (r: ReadReply)
    requires
        keys@.len() == fetched@.len(),
    ensures
        r.status == ReplyStatus::Success,
        r.items@.len() == keys@.len(),
        forall|i: int|
            0 <= i < keys@.len() ==> r.items@[i].key@ == keys@[i]@ && opt_view(r.items@[i].value)
                == spec_read_value(opt_view(fetched@[i])),
{
    let n: usize = keys.len();
    let mut items: Vec<ReadItem> = Vec::new();
    let mut i: usize = 0;
    while i < n
        invariant
            n == keys@.len() == fetched@.len(),
            i <= n,
            items@.len() == i,
            forall|j: int|
                0 <= j < i ==> items@[j].key@ == keys@[j]@ && opt_view(items@[j].value)
                    == spec_read_value(opt_view(fetched@[j])),
        decreases n - i,
    {
        let key = crate::relay::clone_bytes(&keys[i]);
        let value: Option<Vec<u8>> = match &fetched[i] {
            Some(stored) => match decode_record(stored) {
                Some(kv) => Some(kv.1),
                None => None,
            },
            None => None,
        };
        items.push(ReadItem { key, value });
        i = i + 1;
    }
    ReadReply { items, status: ReplyStatus::Success }
}

/// Shapes the reply to a batched read in the raw deployment mode, where the
/// stored bytes are the value itself.
pub fn read_reply_raw(keys: &Vec<Vec<u8>>, fetched: Vec<Option<Vec<u8>>>) -> (r: ReadReply)
    requires
        keys@.len() == fetched@.len(),
    ensures
        r.status == ReplyStatus::Success,
        r.items@.len() == keys@.len(),
        forall|i: int|
            0 <= i < keys@.len() ==> r.items@[i].key@ == keys@[i]@ && opt_view(r.items@[i].value)
                == opt_view(fetched@[i]),
{
    let n: usize = keys.len();
    let mut items: Vec<ReadItem> = Vec::new();
    let mut fetched = fetched;
    let ghost fetched0 = fetched@;
    let mut i: usize = 0;
    while i < n
        invariant
            n == keys@.len() == fetched0.len(),
            fetched@.len() == n - i,
            i <= n,
            items@.len() == i,
            forall|j: int|
                0 <= j < i ==> items@[j].key@ == keys@[j]@ && opt_view(items@[j].value)
                    == opt_view(fetched0[j]),
            forall|j: int| i <= j < n ==> fetched@[j - i] == fetched0[j],
        decreases n - i,
    {
        let key = crate::relay::clone_bytes(&keys[i]);
        let value = fetched.remove(0);
        items.push(ReadItem { key, value });
        i = i + 1;
    }
    ReadReply { items, status: ReplyStatus::Success }
}

/// The reply owed when exclusive access to the backing-store connection could
/// not be taken: a request-scoped internal error, not a process failure.
pub fn internal_error_reply() -> (r: ReadReply)
    ensures
        r.status == ReplyStatus::InternalError,
        r.items@.len() == 0,
{
    ReadReply { items: Vec::new(), status: ReplyStatus::InternalError }
}

/// Turns a batched write into the store commands it owes: one per item, in
/// request order, keyed by the item's key and carrying the encoded record.
pub fn write_commands(items: &Vec<WriteItem>) -> (cmds: Vec<(Vec<u8>, Vec<u8>)>)
    requires
        forall|i: int|
            0 <= i < items@.len() ==> items@[i].key@.len() <= u32::MAX && items@[i].value@.len()
                <= u32::MAX,
    ensures
        cmds@.len() == items@.len(),
        forall|i: int|
            0 <= i < items@.len() ==> cmds@[i].0@ == items@[i].key@ && cmds@[i].1@ == spec_encode(
                items@[i].key@,
                items@[i].value@,
            ),
{
    let n: usize = items.len();
    let mut cmds: Vec<(Vec<u8>, Vec<u8>)> = Vec::new();
    let mut i: usize = 0;
    while i < n
        invariant
            n == items@.len(),
            i <= n,
            cmds@.len() == i,
            forall|j: int|
                0 <= j < items@.len() ==> items@[j].key@.len() <= u32::MAX
                    && items@[j].value@.len() <= u32::MAX,
            forall|j: int|
                0 <= j < i ==> cmds@[j].0@ == items@[j].key@ && cmds@[j].1@ == spec_encode(
                    items@[j].key@,
                    items@[j].value@,
                ),
        decreases n - i,
    {
        let key = crate::relay::clone_bytes(&items[i].key);
        let record = encode_record(&items[i].key, &items[i].value);
        cmds.push((key, record));
        i = i + 1;
    }
    cmds
}

/// Round trip write/read: after a write of value `v` under key `k` reaches a
/// store that returns for each key the bytes most recently set under it, a
/// read of `k` is owed exactly `v`, and a read of a key never written is owed
/// the absent marker.
pub proof fn lemma_write_read_round_trip(
    store: Map<Seq<u8>, Seq<u8>>,
    k: Seq<u8>,
    v: Seq<u8>,
    missing: Seq<u8>,
)
    requires
        k.len() <= u32::MAX,
        v.len() <= u32::MAX,
        missing != k,
        !store.contains_key(missing),
    ensures
        spec_read_value(spec_fetch(store.insert(k, spec_encode(k, v)), k)) == Some(v),
        spec_read_value(spec_fetch(store.insert(k, spec_encode(k, v)), missing)) is None,
{
    lemma_codec_round_trip(k, v);
}

} // verus!
