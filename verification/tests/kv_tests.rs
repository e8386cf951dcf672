use relay_core::{
    ByteMap, ReplyStatus, WriteItem, decode_record, encode_record, internal_error_reply,
    read_reply, read_reply_raw, write_commands,
};

#[test]
fn encode_exact_bytes() {
    let out = encode_record(&b"k".to_vec(), &b"v".to_vec());
    assert_eq!(out, vec![0u8, 0, 0, 1, 107, 0, 0, 0, 1, 118]);
}

#[test]
fn codec_round_trip() {
    let encoded = encode_record(&b"alpha".to_vec(), &b"beta-value".to_vec());
    let (k, v) = decode_record(&encoded).expect("an encoded record decodes");
    assert_eq!(k, b"alpha".to_vec());
    assert_eq!(v, b"beta-value".to_vec());
}

#[test]
fn decode_rejects_bad_bytes() {
    assert!(decode_record(&Vec::new()).is_none());
    assert!(decode_record(&vec![0u8, 0, 0]).is_none());
    // key length prefix larger than what follows
    assert!(decode_record(&vec![0u8, 0, 0, 9, 107]).is_none());
    // trailing garbage after a well-formed record
    let mut encoded = encode_record(&b"k".to_vec(), &b"v".to_vec());
    encoded.push(0);
    assert!(decode_record(&encoded).is_none());
}

#[test]
fn write_then_read_round_trips_through_a_store() {
    let mut store = ByteMap::new();
    let items = vec![WriteItem { key: b"k".to_vec(), value: b"v".to_vec() }];
    for (key, record) in write_commands(&items) {
        store.insert(key, record);
    }
    let keys = vec![b"k".to_vec(), b"missing".to_vec()];
    let fetched: Vec<Option<Vec<u8>>> = keys.iter().map(|k| store.get(k).cloned()).collect();
    let reply = read_reply(&keys, fetched);
    assert_eq!(reply.status, ReplyStatus::Success);
    assert_eq!(reply.items.len(), 2);
    assert_eq!(reply.items[0].key, b"k".to_vec());
    assert_eq!(reply.items[0].value, Some(b"v".to_vec()));
    assert_eq!(reply.items[1].key, b"missing".to_vec());
    assert_eq!(reply.items[1].value, None);
}

#[test]
fn undecodable_stored_bytes_spoil_only_their_own_key() {
    let mut store = ByteMap::new();
    store.insert(b"bad".to_vec(), b"not-a-record".to_vec());
    for (key, record) in
        write_commands(&vec![WriteItem { key: b"good".to_vec(), value: b"fine".to_vec() }])
    {
        store.insert(key, record);
    }
    let keys = vec![b"bad".to_vec(), b"good".to_vec()];
    let fetched: Vec<Option<Vec<u8>>> = keys.iter().map(|k| store.get(k).cloned()).collect();
    let reply = read_reply(&keys, fetched);
    assert_eq!(reply.status, ReplyStatus::Success);
    assert_eq!(reply.items[0].value, None);
    assert_eq!(reply.items[1].value, Some(b"fine".to_vec()));
}

#[test]
fn raw_mode_returns_stored_bytes_as_values() {
    let keys = vec![b"a".to_vec(), b"b".to_vec()];
    let fetched = vec![Some(b"1.5".to_vec()), None];
    let reply = read_reply_raw(&keys, fetched);
    assert_eq!(reply.status, ReplyStatus::Success);
    assert_eq!(reply.items[0].value, Some(b"1.5".to_vec()));
    assert_eq!(reply.items[1].value, None);
}

#[test]
fn lock_failure_reply_is_request_scoped_internal_error() {
    let reply = internal_error_reply();
    assert_eq!(reply.status, ReplyStatus::InternalError);
    assert!(reply.items.is_empty());
}

#[test]
fn byte_map_overwrites_wholesale() {
    let mut m = ByteMap::new();
    assert!(m.get(&b"t".to_vec()).is_none());
    m.insert(b"t".to_vec(), b"p1".to_vec());
    m.insert(b"t".to_vec(), b"p2".to_vec());
    assert_eq!(m.get(&b"t".to_vec()), Some(&b"p2".to_vec()));
    assert!(!m.contains_key(&b"other".to_vec()));
}
