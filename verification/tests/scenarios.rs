use nbtscan::decode::decode;
use nbtscan::error::{DecodeError, ExtractionError};
use nbtscan::extract::{level_from_tag, LevelDat};
use nbtscan::tag::{Tag, TagKind};

fn named(kind: u8, name: &str) -> Vec<u8> {
    let mut out = vec![kind];
    out.extend_from_slice(&(name.len() as u16).to_be_bytes());
    out.extend_from_slice(name.as_bytes());
    out
}

#[test]
fn data_version_only_decodes_and_lacks_required_fields() {
    let mut buf: Vec<u8> = vec![0x0A, 0x00, 0x00];
    buf.extend_from_slice(&[0x03, 0x00, 0x0B]);
    buf.extend_from_slice(b"DataVersion");
    buf.extend_from_slice(&[0x00, 0x00, 0x0F, 0x71]);
    buf.push(0x00);
    let root = decode(&buf).unwrap();
    assert_eq!(root, Tag::Compound(vec![("DataVersion".to_string(), Tag::Int(3953))]));
    assert_eq!(level_from_tag(&root), Err(ExtractionError::FieldMissing));
}

#[test]
fn level_with_required_fields_only() {
    let mut buf: Vec<u8> = named(10, "");
    buf.extend(named(4, "DayTime"));
    buf.extend_from_slice(&24000i64.to_be_bytes());
    buf.extend(named(1, "Difficulty"));
    buf.push(2);
    buf.extend(named(4, "LastPlayed"));
    buf.extend_from_slice(&1700000000000i64.to_be_bytes());
    buf.extend(named(4, "Time"));
    buf.extend_from_slice(&100i64.to_be_bytes());
    buf.push(0);
    let root = decode(&buf).unwrap();
    assert_eq!(
        level_from_tag(&root),
        Ok(LevelDat {
            day_time: 24000,
            difficulty: 2,
            data_version: None,
            last_played: 1700000000000,
            random_seed: None,
            time: 100,
        })
    );
}

#[test]
fn position_triplet_keeps_every_bit() {
    let pos = Tag::List(
        TagKind::Double,
        vec![
            Tag::Double(10.5f64.to_bits()),
            Tag::Double(64.0f64.to_bits()),
            Tag::Double((-3.25f64).to_bits()),
        ],
    );
    let (x, y, z) = pos.as_double_triplet().unwrap();
    assert_eq!(f64::from_bits(x), 10.5);
    assert_eq!(f64::from_bits(y), 64.0);
    assert_eq!(f64::from_bits(z), -3.25);
}

#[test]
fn empty_buffer_is_truncated() {
    assert_eq!(decode(&[]), Err(DecodeError::Truncated));
}
