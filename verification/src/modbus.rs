use vstd::prelude::*;

use crate::kv::WriteItem;

verus! {

/// The ASCII decimal digits of `n`, most significant first, no leading zero.
pub open spec fn dec_digits(n: int) -> Seq<u8>
    recommends
        n >= 0,
    decreases n,
{
    if n < 10 {
        seq![(48 + n) as u8]
    } else {
        dec_digits(n / 10).push((48 + n % 10) as u8)
    }
}

/// Appends the decimal digits of `n`.
fn push_decimal(out: &mut Vec<u8>, n: u64)
    ensures
        final(out)@ == old(out)@ + dec_digits(n as int),
    decreases n,
{
    if n >= 10 {
        push_decimal(out, n / 10);
    }
    out.push(48 + (n % 10) as u8);
    proof {
        assert(out@ =~= old(out)@ + dec_digits(n as int));
    }
}

/// The key prefix naming the polled device: `modbus/device=` then the device
/// id then `/register=`.
pub open spec fn spec_device_prefix(device: Seq<u8>) -> Seq<u8> {
    // the bytes of "modbus/device=" then the id then the bytes of "/register="
    seq![109u8, 111u8, 100u8, 98u8, 117u8, 115u8, 47u8, 100u8, 101u8, 118u8, 105u8, 99u8, 101u8, 61u8]
        + device + seq![47u8, 114u8, 101u8, 103u8, 105u8, 115u8, 116u8, 101u8, 114u8, 61u8]
}

/// The key under which one polled register is written:
/// `modbus/device=<id>/register=<index>`.
pub open spec fn spec_modbus_key(device: Seq<u8>, register: int) -> Seq<u8> {
    spec_device_prefix(device) + dec_digits(register)
}

/// Formats the key for one polled register.
pub fn modbus_key(device: &Vec<u8>, register: u64) -> (key: Vec<u8>)
    ensures
        key@ == spec_modbus_key(device@, register as int),
{
    let mut key: Vec<u8> = Vec::new();
    key.push(109u8);
    key.push(111u8);
    key.push(100u8);
    key.push(98u8);
    key.push(117u8);
    key.push(115u8);
    key.push(47u8);
    key.push(100u8);
    key.push(101u8);
    key.push(118u8);
    key.push(105u8);
    key.push(99u8);
    key.push(101u8);
    key.push(61u8);
    crate::kv::append_bytes(&mut key, device);
    key.push(47u8);
    key.push(114u8);
    key.push(101u8);
    key.push(103u8);
    key.push(105u8);
    key.push(115u8);
    key.push(116u8);
    key.push(101u8);
    key.push(114u8);
    key.push(61u8);
    proof {
        assert(key@ =~= spec_device_prefix(device@));
    }
    push_decimal(&mut key, register);
    key
}

/// Turns one poll cycle's register block into the batched write it owes: one
/// item per register, in block order, keyed by the device id and the
/// register's index within the block, carrying the register's value in
/// decimal.
pub fn build_modbus_write(device: &Vec<u8>, values: &Vec<u16>) -> (items: Vec<WriteItem>)
    ensures
        items@.len() == values@.len(),
        forall|i: int|
            0 <= i < values@.len() ==> items@[i].key@ == spec_modbus_key(device@, i)
                && items@[i].value@ == dec_digits(values@[i] as int),
{
    let n: usize = values.len();
    let mut items: Vec<WriteItem> = Vec::new();
    let mut i: usize = 0;
    while i < n
        invariant
            n == values@.len(),
            i <= n,
            items@.len() == i,
            forall|j: int|
                0 <= j < i ==> items@[j].key@ == spec_modbus_key(device@, j) && items@[j].value@
                    == dec_digits(values@[j] as int),
        decreases n - i,
    {
        let key = modbus_key(device, i as u64);
        let mut value: Vec<u8> = Vec::new();
        push_decimal(&mut value, values[i] as u64);
        proof {
            assert(value@ =~= dec_digits(values@[i as int] as int));
        }
        items.push(WriteItem { key, value });
        i = i + 1;
    }
    items
}

} // verus!
