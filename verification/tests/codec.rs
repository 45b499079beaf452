use kvs::codec::{as_text, as_u64, decode, decode_at, encode, find_field, read_frame_len, same_fields, Field, Value};
use kvs::records::{KvHeader, KvsEntries, KvsIndexEntries};

fn field(name: &str, value: Value) -> Field {
    Field { name: name.to_owned(), value }
}

#[test]
fn a_delete_record_is_one_string_element() {
    let bytes = KvsEntries::DELETE("k".to_owned()).encode().unwrap();
    let expected: Vec<u8> = vec![
        0x13, 0, 0, 0, // nineteen bytes
        0x02, b'D', b'E', b'L', b'E', b'T', b'E', 0, // a string named DELETE
        2, 0, 0, 0, b'k', 0, // "k"
        0,
    ];
    assert_eq!(bytes, expected);
}

#[test]
fn a_set_record_is_an_array_of_key_and_value() {
    let bytes = KvsEntries::SET("k".to_owned(), "v".to_owned()).encode().unwrap();
    let expected: Vec<u8> = vec![
        0x21, 0, 0, 0, // thirty-three bytes
        0x04, b'S', b'E', b'T', 0, // an array named SET
        0x17, 0, 0, 0, // twenty-three bytes
        0x02, b'0', 0, 2, 0, 0, 0, b'k', 0, // "k" at 0
        0x02, b'1', 0, 2, 0, 0, 0, b'v', 0, // "v" at 1
        0, 0,
    ];
    assert_eq!(bytes, expected);
}

#[test]
fn a_header_is_four_numbers() {
    let header = KvHeader { build_number: 1200, last_open: 7, next_compaction_size: 32768, flags: 1 };
    let bytes = header.encode().unwrap();
    let mut expected: Vec<u8> = vec![0x5b, 0, 0, 0];
    expected.push(0x12);
    expected.extend_from_slice(b"build_number\0");
    expected.extend_from_slice(&1200i64.to_le_bytes());
    expected.push(0x12);
    expected.extend_from_slice(b"last_open\0");
    expected.extend_from_slice(&7i64.to_le_bytes());
    expected.push(0x12);
    expected.extend_from_slice(b"next_compaction_size\0");
    expected.extend_from_slice(&32768i64.to_le_bytes());
    expected.push(0x12);
    expected.extend_from_slice(b"flags\0");
    expected.extend_from_slice(&1i64.to_le_bytes());
    expected.push(0);
    assert_eq!(expected.len(), 0x5b);
    assert_eq!(bytes, expected);
    assert_eq!(KvHeader::decode(&bytes), Some((header, 0x5b)));
}

#[test]
fn a_header_with_a_number_too_large_is_not_written() {
    let header = KvHeader { build_number: 1200, last_open: 1 << 63, next_compaction_size: 32768, flags: 1 };
    assert!(!header.fits());
    assert!(header.encode().is_none());
}

#[test]
fn an_index_record_is_key_and_offset() {
    let entry = KvsIndexEntries { key: "k".to_owned(), offset: 91 };
    let bytes = entry.encode().unwrap();
    let mut expected: Vec<u8> = vec![0x20, 0, 0, 0];
    expected.push(0x02);
    expected.extend_from_slice(b"key\0");
    expected.extend_from_slice(&[2, 0, 0, 0, b'k', 0]);
    expected.push(0x12);
    expected.extend_from_slice(b"offset\0");
    expected.extend_from_slice(&91i64.to_le_bytes());
    expected.push(0);
    assert_eq!(bytes, expected);
    let (back, len) = KvsIndexEntries::decode_at(&bytes, 0).unwrap();
    assert_eq!(back.key, "k");
    assert_eq!(back.offset, 91);
    assert_eq!(len, 0x20);
}

#[test]
fn records_are_read_back() {
    let set = KvsEntries::SET("key".to_owned(), "värde".to_owned());
    let delete = KvsEntries::DELETE("key".to_owned());
    let mut log = set.encode().unwrap();
    let first = log.len();
    log.extend_from_slice(&delete.encode().unwrap());
    match KvsEntries::decode_at(&log, 0) {
        Some((KvsEntries::SET(k, v), n)) => {
            assert_eq!(k, "key");
            assert_eq!(v, "värde");
            assert_eq!(n, first);
        }
        other => panic!("expected a SET, got {:?}", other),
    }
    match KvsEntries::decode_at(&log, first) {
        Some((KvsEntries::DELETE(k), n)) => {
            assert_eq!(k, "key");
            assert_eq!(first + n, log.len());
        }
        other => panic!("expected a DELETE, got {:?}", other),
    }
    assert!(KvsEntries::decode_at(&log, 1).is_none());
    assert!(KvsEntries::decode_at(&log, log.len()).is_none());
}

#[test]
fn a_document_of_another_shape_is_no_record() {
    let fields = vec![field("SET", Value::Texts(vec!["only".to_owned()]))];
    assert!(KvsEntries::from_fields(&fields).is_none());
    let fields = vec![field("SET", Value::Text("k".to_owned()))];
    assert!(KvsEntries::from_fields(&fields).is_none());
    let fields = vec![field("DELETE", Value::Int64(3))];
    assert!(KvsEntries::from_fields(&fields).is_none());
    let fields = vec![field("PUT", Value::Text("k".to_owned()))];
    assert!(KvsEntries::from_fields(&fields).is_none());
    let fields = vec![field("DELETE", Value::Text("k".to_owned())), field("more", Value::Null)];
    assert!(KvsEntries::from_fields(&fields).is_none());
    assert!(KvsEntries::from_fields(&Vec::new()).is_none());
}

#[test]
fn the_frame_length_is_read_from_the_prefix() {
    let bytes: Vec<u8> = vec![9, 9, 5, 0, 0, 0, 0, 7];
    assert_eq!(read_frame_len(&bytes, 2), Some(5));
    assert_eq!(read_frame_len(&bytes, 3), None);
    assert_eq!(read_frame_len(&bytes, 4), None);
    assert_eq!(read_frame_len(&bytes, 5), None);
    assert_eq!(read_frame_len(&bytes, 100), None);
    assert_eq!(read_frame_len(&[4, 0, 0, 0, 0], 0), None);
    assert_eq!(read_frame_len(&[6, 0, 0, 0, 0], 0), None);
    assert_eq!(read_frame_len(&[5, 0, 0, 0x80, 0], 0), None);
    let mut long = vec![0u8; 0x0102_03];
    long[0] = 0x03;
    long[1] = 0x02;
    long[2] = 0x01;
    assert_eq!(read_frame_len(&long, 0), Some(0x0102_03));
}

#[test]
fn documents_are_read_back_element_by_element() {
    let fields = vec![
        field("text", Value::Text("a\0b".to_owned())),
        field("small", Value::Int32(-5)),
        field("large", Value::Int64(i64::MAX)),
        field("nothing", Value::Null),
        field("list", Value::Texts(vec!["x".to_owned(), String::new(), "z".to_owned()])),
        field("empty", Value::Texts(Vec::new())),
    ];
    let bytes = encode(&fields).unwrap();
    let back = decode(&bytes).unwrap();
    assert!(same_fields(&fields, &back));
    assert_eq!(read_frame_len(&bytes, 0), Some(bytes.len()));
    let mut padded = vec![1u8, 2, 3];
    padded.extend_from_slice(&bytes);
    padded.push(0);
    let (at, n) = decode_at(&padded, 3).unwrap();
    assert!(same_fields(&fields, &at));
    assert_eq!(n, bytes.len());
    assert!(decode(&padded).is_none());
    assert_eq!(as_u64(find_field(&back, "large").unwrap()), Some(i64::MAX as u64));
    assert_eq!(as_u64(find_field(&back, "small").unwrap()), None);
    assert_eq!(as_text(find_field(&back, "text").unwrap()), Some(&"a\0b".to_owned()));
    assert!(find_field(&back, "missing").is_none());
}

#[test]
fn a_name_with_a_zero_byte_is_not_written() {
    let fields = vec![field("a\0b", Value::Null)];
    assert!(encode(&fields).is_none());
}

#[test]
fn an_element_of_another_kind_is_not_read() {
    // {"d": 1.5}
    let mut bytes: Vec<u8> = vec![0x10, 0, 0, 0, 0x01, b'd', 0];
    bytes.extend_from_slice(&1.5f64.to_le_bytes());
    bytes.push(0);
    assert_eq!(read_frame_len(&bytes, 0), Some(bytes.len()));
    assert!(decode(&bytes).is_none());
    // {"a": [1]}: an array that holds a number
    let inner: Vec<u8> = vec![0x0c, 0, 0, 0, 0x10, b'0', 0, 1, 0, 0, 0, 0];
    let mut outer: Vec<u8> = vec![0x14, 0, 0, 0, 0x04, b'a', 0];
    outer.extend_from_slice(&inner);
    outer.push(0);
    assert_eq!(read_frame_len(&outer, 0), Some(outer.len()));
    assert!(decode(&outer).is_none());
    // the empty document
    assert_eq!(decode(&[5, 0, 0, 0, 0]).map(|f| f.len()), Some(0));
    // no closing zero
    assert!(decode(&[5, 0, 0, 0, 1]).is_none());
}

#[test]
fn a_header_is_found_by_the_names_of_its_numbers() {
    let fields = vec![
        field("flags", Value::Int32(1)),
        field("extra", Value::Text("passed over".to_owned())),
        field("next_compaction_size", Value::Int64(9)),
        field("last_open", Value::Int64(8)),
        field("build_number", Value::Int64(7)),
    ];
    assert_eq!(
        KvHeader::from_fields(&fields),
        Some(KvHeader { build_number: 7, last_open: 8, next_compaction_size: 9, flags: 1 })
    );
    let fields = vec![
        field("flags", Value::Int64(-1)),
        field("next_compaction_size", Value::Int64(9)),
        field("last_open", Value::Int64(8)),
        field("build_number", Value::Int64(7)),
    ];
    assert_eq!(KvHeader::from_fields(&fields), None);
    let fields = vec![field("flags", Value::Int64(1))];
    assert_eq!(KvHeader::from_fields(&fields), None);
}
