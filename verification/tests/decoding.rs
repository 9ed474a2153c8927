use nbtscan::decode::{decode, decode_prefix, decode_with_limit, MAX_DEPTH};
use nbtscan::encode::{encode, is_well_formed};
use nbtscan::error::DecodeError;
use nbtscan::tag::{Tag, TagKind};

fn named(kind: u8, name: &str) -> Vec<u8> {
    let mut out = vec![kind];
    out.extend_from_slice(&(name.len() as u16).to_be_bytes());
    out.extend_from_slice(name.as_bytes());
    out
}

fn root_of(entries: &[u8]) -> Vec<u8> {
    let mut out = named(10, "");
    out.extend_from_slice(entries);
    out.push(0);
    out
}

fn entry(kind: u8, name: &str, payload: &[u8]) -> Vec<u8> {
    let mut out = named(kind, name);
    out.extend_from_slice(payload);
    out
}

fn sample_tree() -> Tag {
    Tag::Compound(vec![
        ("b".to_string(), Tag::Byte(-1)),
        ("s".to_string(), Tag::Short(-2)),
        ("i".to_string(), Tag::Int(i32::MIN)),
        ("l".to_string(), Tag::Long(i64::MIN)),
        ("f".to_string(), Tag::Float(1.5f32.to_bits())),
        ("d".to_string(), Tag::Double((-0.0f64).to_bits())),
        ("ba".to_string(), Tag::ByteArray(vec![-128, 0, 127])),
        ("st".to_string(), Tag::String("h\u{e9}llo \u{1F600}".to_string())),
        (
            "li".to_string(),
            Tag::List(TagKind::Int, vec![Tag::Int(1), Tag::Int(-1), Tag::Int(i32::MAX)]),
        ),
        ("empty".to_string(), Tag::List(TagKind::End, vec![])),
        (
            "nested".to_string(),
            Tag::Compound(vec![
                (
                    "inner".to_string(),
                    Tag::List(
                        TagKind::Compound,
                        vec![
                            Tag::Compound(vec![]),
                            Tag::Compound(vec![("x".to_string(), Tag::Byte(7))]),
                        ],
                    ),
                ),
                ("".to_string(), Tag::String(String::new())),
            ]),
        ),
        ("ia".to_string(), Tag::IntArray(vec![0, -1, 0x01020304])),
        ("la".to_string(), Tag::LongArray(vec![i64::MAX, -2, 0x0102030405060708])),
    ])
}

#[test]
fn every_kind_decodes_to_its_exact_value() {
    let mut entries = Vec::new();
    entries.extend(entry(1, "b", &[0xFF]));
    entries.extend(entry(2, "s", &[0xFF, 0xFE]));
    entries.extend(entry(3, "i", &[0x80, 0x00, 0x00, 0x00]));
    entries.extend(entry(4, "l", &[0x80, 0, 0, 0, 0, 0, 0, 0]));
    entries.extend(entry(5, "f", &[0x3F, 0xC0, 0x00, 0x00]));
    entries.extend(entry(6, "d", &[0x40, 0x50, 0, 0, 0, 0, 0, 0]));
    entries.extend(entry(7, "ba", &[0, 0, 0, 3, 0x80, 0x00, 0x7F]));
    entries.extend(entry(8, "st", &[0, 2, b'o', b'k']));
    entries.extend(entry(9, "li", &[2, 0, 0, 0, 2, 0x00, 0x01, 0xFF, 0xFF]));
    entries.extend(entry(11, "ia", &[0, 0, 0, 2, 0, 0, 0, 1, 0xFF, 0xFF, 0xFF, 0xFE]));
    entries.extend(entry(12, "la", &[0, 0, 0, 1, 0x01, 0x02, 0x03, 0x04, 0x05, 0x06, 0x07, 0x08]));
    let root = decode(&root_of(&entries)).unwrap();
    assert_eq!(
        root,
        Tag::Compound(vec![
            ("b".to_string(), Tag::Byte(-1)),
            ("s".to_string(), Tag::Short(-2)),
            ("i".to_string(), Tag::Int(i32::MIN)),
            ("l".to_string(), Tag::Long(i64::MIN)),
            ("f".to_string(), Tag::Float(1.5f32.to_bits())),
            ("d".to_string(), Tag::Double(64.0f64.to_bits())),
            ("ba".to_string(), Tag::ByteArray(vec![-128, 0, 127])),
            ("st".to_string(), Tag::String("ok".to_string())),
            ("li".to_string(), Tag::List(TagKind::Short, vec![Tag::Short(1), Tag::Short(-1)])),
            ("ia".to_string(), Tag::IntArray(vec![1, -2])),
            ("la".to_string(), Tag::LongArray(vec![0x0102030405060708])),
        ])
    );
}

#[test]
fn encoding_then_decoding_gives_the_tree_back() {
    let tree = sample_tree();
    let bytes = encode(&tree).unwrap();
    assert_eq!(decode(&bytes), Ok(sample_tree()));
}

#[test]
fn decoding_then_encoding_gives_the_bytes_back() {
    let bytes = encode(&sample_tree()).unwrap();
    let tree = decode(&bytes).unwrap();
    assert_eq!(encode(&tree), Some(bytes));
}

#[test]
fn encoding_is_byte_exact() {
    let tree = Tag::Compound(vec![
        ("a".to_string(), Tag::Short(258)),
        ("l".to_string(), Tag::List(TagKind::Byte, vec![Tag::Byte(-2)])),
    ]);
    assert_eq!(
        encode(&tree),
        Some(vec![10, 0, 0, 2, 0, 1, b'a', 1, 2, 9, 0, 1, b'l', 1, 0, 0, 0, 1, 0xFE, 0])
    );
}

#[test]
fn decoding_twice_gives_equal_trees() {
    let bytes = encode(&sample_tree()).unwrap();
    assert_eq!(decode(&bytes), decode(&bytes));
}

#[test]
fn every_proper_prefix_of_a_record_is_truncated() {
    let bytes = encode(&sample_tree()).unwrap();
    for k in 0..bytes.len() {
        assert_eq!(decode(&bytes[..k]), Err(DecodeError::Truncated), "cut at {}", k);
    }
    assert!(decode(&bytes).is_ok());
}

#[test]
fn bytes_after_the_root_are_ignored() {
    let mut bytes = encode(&sample_tree()).unwrap();
    let record_len = bytes.len();
    bytes.extend_from_slice(&[0xFF, 0x0D, 0x00, 0x99]);
    assert_eq!(decode(&bytes), Ok(sample_tree()));
    assert_eq!(decode_prefix(&bytes, MAX_DEPTH), Ok((sample_tree(), record_len)));
}

#[test]
fn the_name_of_the_root_is_read_and_dropped() {
    let mut bytes = named(10, "Level");
    bytes.extend(entry(1, "x", &[5]));
    bytes.push(0);
    assert_eq!(decode(&bytes), Ok(Tag::Compound(vec![("x".to_string(), Tag::Byte(5))])));
}

#[test]
fn a_name_that_occurs_again_replaces_the_value_in_place() {
    let mut entries = Vec::new();
    entries.extend(entry(1, "a", &[1]));
    entries.extend(entry(1, "b", &[2]));
    entries.extend(entry(3, "a", &[0, 0, 0, 9]));
    let root = decode(&root_of(&entries)).unwrap();
    assert_eq!(
        root,
        Tag::Compound(vec![("a".to_string(), Tag::Int(9)), ("b".to_string(), Tag::Byte(2))])
    );
    assert!(is_well_formed(&root));
}

#[test]
fn an_empty_list_keeps_its_declared_kind() {
    let root = decode(&root_of(&entry(9, "l", &[6, 0, 0, 0, 0]))).unwrap();
    assert_eq!(root, Tag::Compound(vec![("l".to_string(), Tag::List(TagKind::Double, vec![]))]));
    let root = decode(&root_of(&entry(9, "l", &[0, 0, 0, 0, 0]))).unwrap();
    assert_eq!(root, Tag::Compound(vec![("l".to_string(), Tag::List(TagKind::End, vec![]))]));
}

#[test]
fn truncated_at_each_kind_of_field() {
    assert_eq!(decode(&[]), Err(DecodeError::Truncated));
    assert_eq!(decode(&[10]), Err(DecodeError::Truncated));
    assert_eq!(decode(&[10, 0, 3, b'a']), Err(DecodeError::Truncated));
    assert_eq!(decode(&[10, 0, 0]), Err(DecodeError::Truncated));
    assert_eq!(decode(&[10, 0, 0, 3, 0, 1, b'x', 0, 0, 0]), Err(DecodeError::Truncated));
    assert_eq!(decode(&[10, 0, 0, 7, 0, 1, b'x', 0, 0, 0, 2, 1]), Err(DecodeError::Truncated));
    assert_eq!(decode(&[10, 0, 0, 11, 0, 1, b'x', 0, 0, 0, 1, 1, 2, 3]), Err(DecodeError::Truncated));
    assert_eq!(decode(&[10, 0, 0, 9, 0, 1, b'x', 1, 0, 0]), Err(DecodeError::Truncated));
    assert_eq!(decode(&[10, 0, 0, 1, 0, 1, b'x', 1]), Err(DecodeError::Truncated));
}

#[test]
fn a_huge_declared_count_is_truncated_not_allocated() {
    let bytes = root_of(&entry(12, "x", &[0x7F, 0xFF, 0xFF, 0xFF, 1, 2, 3]));
    assert_eq!(decode(&bytes), Err(DecodeError::Truncated));
    let bytes = root_of(&entry(9, "x", &[1, 0x7F, 0xFF, 0xFF, 0xFF, 1, 2, 3]));
    assert_eq!(decode(&bytes), Err(DecodeError::Truncated));
}

#[test]
fn invalid_type_bytes() {
    assert_eq!(decode(&[13, 0, 0, 0]), Err(DecodeError::InvalidType));
    assert_eq!(decode(&[0xFF]), Err(DecodeError::InvalidType));
    assert_eq!(decode(&[3, 0, 0, 0, 0, 0, 1]), Err(DecodeError::InvalidType));
    assert_eq!(decode(&[0]), Err(DecodeError::InvalidType));
    assert_eq!(decode(&[10, 0, 0, 13, 0, 0]), Err(DecodeError::InvalidType));
    assert_eq!(decode(&root_of(&entry(9, "l", &[13, 0, 0, 0, 0]))), Err(DecodeError::InvalidType));
    assert_eq!(decode(&root_of(&entry(9, "l", &[0, 0, 0, 0, 2]))), Err(DecodeError::InvalidType));
}

#[test]
fn invalid_strings() {
    assert_eq!(decode(&[10, 0, 1, 0xFF, 0]), Err(DecodeError::InvalidString));
    assert_eq!(decode(&[10, 0, 0, 1, 0, 2, 0xC3, 0x28, 5, 0]), Err(DecodeError::InvalidString));
    assert_eq!(
        decode(&root_of(&entry(8, "s", &[0, 3, 0xED, 0xA0, 0x80]))),
        Err(DecodeError::InvalidString)
    );
    assert_eq!(
        decode(&root_of(&entry(8, "s", &[0, 2, 0xC0, 0x80]))),
        Err(DecodeError::InvalidString)
    );
}

#[test]
fn negative_lengths() {
    for kind in [7u8, 11, 12] {
        let bytes = root_of(&entry(kind, "x", &[0xFF, 0xFF, 0xFF, 0xFF]));
        assert_eq!(decode(&bytes), Err(DecodeError::InvalidLength));
    }
    let bytes = root_of(&entry(9, "x", &[1, 0x80, 0, 0, 0]));
    assert_eq!(decode(&bytes), Err(DecodeError::InvalidLength));
}

fn nested_lists(levels: usize) -> Vec<u8> {
    let mut payload: Vec<u8> = Vec::new();
    for _ in 0..levels - 1 {
        payload.extend_from_slice(&[9, 0, 0, 0, 1]);
    }
    payload.extend_from_slice(&[1, 0, 0, 0, 0]);
    root_of(&entry(9, "l", &payload))
}

#[test]
fn nesting_up_to_the_limit_and_past_it() {
    assert!(decode(&nested_lists(MAX_DEPTH - 1)).is_ok());
    assert_eq!(decode(&nested_lists(MAX_DEPTH)), Err(DecodeError::DepthExceeded));
    assert_eq!(decode(&nested_lists(5000)), Err(DecodeError::DepthExceeded));
}

#[test]
fn a_configured_limit_counts_the_root() {
    let flat = root_of(&entry(1, "x", &[1]));
    assert_eq!(decode_with_limit(&flat, 0), Err(DecodeError::DepthExceeded));
    assert!(decode_with_limit(&flat, 1).is_ok());
    let nested = root_of(&entry(10, "c", &[0]));
    assert_eq!(decode_with_limit(&nested, 1), Err(DecodeError::DepthExceeded));
    assert_eq!(
        decode_with_limit(&nested, 2),
        Ok(Tag::Compound(vec![("c".to_string(), Tag::Compound(vec![]))]))
    );
}

#[test]
fn the_first_violation_in_reading_order_is_reported() {
    let mut entries = entry(7, "x", &[0xFF, 0xFF, 0xFF, 0xFF]);
    entries.extend_from_slice(&[13]);
    assert_eq!(decode(&root_of(&entries)), Err(DecodeError::InvalidLength));
    let mut entries = vec![13u8];
    entries.extend(entry(7, "x", &[0xFF, 0xFF, 0xFF, 0xFF]));
    assert_eq!(decode(&root_of(&entries)), Err(DecodeError::InvalidType));
}

#[test]
fn trees_outside_the_data_model_have_no_encoding() {
    assert_eq!(encode(&Tag::Int(1)), None);
    assert_eq!(encode(&Tag::Compound(vec![("e".to_string(), Tag::End)])), None);
    let twice =
        Tag::Compound(vec![("a".to_string(), Tag::Byte(1)), ("a".to_string(), Tag::Byte(2))]);
    assert!(!is_well_formed(&twice));
    assert_eq!(encode(&twice), None);
    let mixed = Tag::Compound(vec![(
        "l".to_string(),
        Tag::List(TagKind::Int, vec![Tag::Int(1), Tag::Long(2)]),
    )]);
    assert_eq!(encode(&mixed), None);
    let long_name = Tag::Compound(vec![("n".repeat(65536), Tag::Byte(1))]);
    assert_eq!(encode(&long_name), None);
    let fitting_name = Tag::Compound(vec![("n".repeat(65535), Tag::Byte(1))]);
    assert!(is_well_formed(&fitting_name));
    assert!(is_well_formed(&sample_tree()));
}

#[test]
fn kinds_and_their_ids() {
    for id in 0u8..=12 {
        assert_eq!(TagKind::from_id(id).unwrap().id(), id);
    }
    assert_eq!(TagKind::from_id(13), None);
    assert_eq!(TagKind::from_id(255), None);
    assert_eq!(TagKind::from_id(0), Some(TagKind::End));
    assert_eq!(TagKind::from_id(10), Some(TagKind::Compound));
    assert_eq!(TagKind::LongArray.id(), 12);
    assert_eq!(Tag::List(TagKind::Byte, vec![]).kind(), TagKind::List);
    assert_eq!(Tag::Double(0).kind(), TagKind::Double);
}

fn next_random(state: &mut u64) -> u64 {
    *state = state.wrapping_mul(6364136223846793005).wrapping_add(1442695040888963407);
    *state >> 33
}

#[test]
fn random_buffers_yield_a_tree_or_a_typed_error() {
    let mut state: u64 = 0x5EED;
    let mut seen_ok = 0;
    let mut seen_err = 0;
    for round in 0..4000 {
        let len = (next_random(&mut state) % 48) as usize;
        let mut buf: Vec<u8> = Vec::new();
        if round % 2 == 0 {
            buf.extend_from_slice(&[10, 0, 0]);
        }
        for _ in 0..len {
            let byte = next_random(&mut state);
            buf.push(if round % 4 < 2 { (byte % 14) as u8 } else { byte as u8 });
        }
        match decode(&buf) {
            Ok(root) => {
                assert!(is_well_formed(&root));
                assert_eq!(root.kind(), TagKind::Compound);
                let again = encode(&root).unwrap();
                assert_eq!(decode(&again), Ok(root));
                seen_ok += 1;
            }
            Err(e) => {
                assert!(matches!(
                    e,
                    DecodeError::Truncated
                        | DecodeError::InvalidType
                        | DecodeError::InvalidString
                        | DecodeError::InvalidLength
                        | DecodeError::DepthExceeded
                ));
                seen_err += 1;
            }
        }
    }
    assert!(seen_ok > 0);
    assert!(seen_err > 0);
}
