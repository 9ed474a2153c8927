use nbtscan::error::ExtractionError;
use nbtscan::extract::{
    level_from_tag, or_absent, player_from_tag, read_byte, read_double_triplet, read_float,
    read_int, read_long, LevelDat, PlayerDat,
};
use nbtscan::tag::{find_name, put_entry, Tag, TagKind};
use nbtscan::text::{same_text, text_at};

fn level_tree() -> Vec<(String, Tag)> {
    vec![
        ("DayTime".to_string(), Tag::Long(24000)),
        ("Difficulty".to_string(), Tag::Byte(2)),
        ("DataVersion".to_string(), Tag::Int(3953)),
        ("LastPlayed".to_string(), Tag::Long(1700000000000)),
        ("RandomSeed".to_string(), Tag::Long(-42)),
        ("Time".to_string(), Tag::Long(100)),
    ]
}

fn dropped(mut entries: Vec<(String, Tag)>, name: &str) -> Vec<(String, Tag)> {
    entries.retain(|e| e.0 != name);
    entries
}

fn without(entries: Vec<(String, Tag)>, name: &str) -> Tag {
    Tag::Compound(dropped(entries, name))
}

fn with(mut entries: Vec<(String, Tag)>, name: &str, tag: Tag) -> Tag {
    for e in entries.iter_mut() {
        if e.0 == name {
            e.1 = tag;
            return Tag::Compound(entries);
        }
    }
    entries.push((name.to_string(), tag));
    Tag::Compound(entries)
}

fn doubles(values: &[f64]) -> Tag {
    Tag::List(TagKind::Double, values.iter().map(|v| Tag::Double(v.to_bits())).collect())
}

fn player_tree() -> Vec<(String, Tag)> {
    vec![
        ("Health".to_string(), Tag::Float(20.0f32.to_bits())),
        ("foodLevel".to_string(), Tag::Int(17)),
        ("Pos".to_string(), doubles(&[10.5, 64.0, -3.25])),
    ]
}

#[test]
fn level_with_every_field() {
    assert_eq!(
        level_from_tag(&Tag::Compound(level_tree())),
        Ok(LevelDat {
            day_time: 24000,
            difficulty: 2,
            data_version: Some(3953),
            last_played: 1700000000000,
            random_seed: Some(-42),
            time: 100,
        })
    );
}

#[test]
fn absent_optional_fields_are_none() {
    let root = without(level_tree(), "DataVersion");
    assert_eq!(level_from_tag(&root).unwrap().data_version, None);
    let root = without(level_tree(), "RandomSeed");
    assert_eq!(level_from_tag(&root).unwrap().random_seed, None);
}

#[test]
fn each_required_level_field_is_missed() {
    for name in ["DayTime", "Difficulty", "LastPlayed", "Time"] {
        let root = without(level_tree(), name);
        assert_eq!(level_from_tag(&root), Err(ExtractionError::FieldMissing), "{}", name);
    }
    assert_eq!(level_from_tag(&Tag::Compound(vec![])), Err(ExtractionError::FieldMissing));
    assert_eq!(level_from_tag(&Tag::Int(3)), Err(ExtractionError::FieldMissing));
}

#[test]
fn a_level_field_of_another_kind_is_a_mismatch() {
    let root = with(level_tree(), "DayTime", Tag::Int(1));
    assert_eq!(
        level_from_tag(&root),
        Err(ExtractionError::TypeMismatch { expected: TagKind::Long, actual: TagKind::Int })
    );
    let root = with(level_tree(), "Difficulty", Tag::Short(1));
    assert_eq!(
        level_from_tag(&root),
        Err(ExtractionError::TypeMismatch { expected: TagKind::Byte, actual: TagKind::Short })
    );
}

#[test]
fn a_present_optional_field_of_another_kind_is_a_mismatch() {
    let root = with(level_tree(), "DataVersion", Tag::Long(3953));
    assert_eq!(
        level_from_tag(&root),
        Err(ExtractionError::TypeMismatch { expected: TagKind::Int, actual: TagKind::Long })
    );
    let root = with(level_tree(), "RandomSeed", Tag::String("seed".to_string()));
    assert_eq!(
        level_from_tag(&root),
        Err(ExtractionError::TypeMismatch { expected: TagKind::Long, actual: TagKind::String })
    );
}

#[test]
fn the_first_failing_level_field_decides() {
    let root = with(dropped(level_tree(), "Time"), "DayTime", Tag::Byte(0));
    assert_eq!(
        level_from_tag(&root),
        Err(ExtractionError::TypeMismatch { expected: TagKind::Long, actual: TagKind::Byte })
    );
    let root = with(dropped(level_tree(), "Difficulty"), "Time", Tag::Byte(0));
    assert_eq!(level_from_tag(&root), Err(ExtractionError::FieldMissing));
}

#[test]
fn player_with_every_field() {
    let player = player_from_tag(&Tag::Compound(player_tree()), "afe703c4".to_string()).unwrap();
    assert_eq!(player.uuid, "afe703c4");
    assert_eq!(f32::from_bits(player.health), 20.0);
    assert_eq!(player.food_level, 17);
    assert_eq!(f64::from_bits(player.pos.0), 10.5);
    assert_eq!(f64::from_bits(player.pos.1), 64.0);
    assert_eq!(f64::from_bits(player.pos.2), -3.25);
}

#[test]
fn each_required_player_field_is_missed() {
    for name in ["Health", "foodLevel", "Pos"] {
        let root = without(player_tree(), name);
        assert_eq!(
            player_from_tag(&root, String::new()),
            Err(ExtractionError::FieldMissing),
            "{}",
            name
        );
    }
}

#[test]
fn player_fields_of_another_kind_or_shape() {
    let root = with(player_tree(), "Health", Tag::Double(0));
    assert_eq!(
        player_from_tag(&root, String::new()),
        Err(ExtractionError::TypeMismatch { expected: TagKind::Float, actual: TagKind::Double })
    );
    let root = with(player_tree(), "foodLevel", Tag::Byte(3));
    assert_eq!(
        player_from_tag(&root, String::new()),
        Err(ExtractionError::TypeMismatch { expected: TagKind::Int, actual: TagKind::Byte })
    );
    let root = with(player_tree(), "Pos", doubles(&[1.0, 2.0]));
    assert_eq!(player_from_tag(&root, String::new()), Err(ExtractionError::InvalidShape));
    let root = with(player_tree(), "Pos", Tag::IntArray(vec![1, 2, 3]));
    assert_eq!(
        player_from_tag(&root, String::new()),
        Err(ExtractionError::TypeMismatch { expected: TagKind::List, actual: TagKind::IntArray })
    );
}

#[test]
fn only_three_doubles_make_a_triplet() {
    assert_eq!(doubles(&[1.0, 2.0]).as_double_triplet(), Err(ExtractionError::InvalidShape));
    assert_eq!(
        doubles(&[1.0, 2.0, 3.0, 4.0]).as_double_triplet(),
        Err(ExtractionError::InvalidShape)
    );
    assert_eq!(doubles(&[]).as_double_triplet(), Err(ExtractionError::InvalidShape));
    let floats = Tag::List(TagKind::Float, vec![Tag::Float(0), Tag::Float(0), Tag::Float(0)]);
    assert_eq!(floats.as_double_triplet(), Err(ExtractionError::InvalidShape));
    let ints = Tag::List(TagKind::Int, vec![Tag::Int(1), Tag::Int(2), Tag::Int(3)]);
    assert_eq!(ints.as_double_triplet(), Err(ExtractionError::InvalidShape));
    let mixed = Tag::List(TagKind::Double, vec![Tag::Double(0), Tag::Int(2), Tag::Double(0)]);
    assert_eq!(mixed.as_double_triplet(), Err(ExtractionError::InvalidShape));
    assert_eq!(
        Tag::Double(0).as_double_triplet(),
        Err(ExtractionError::TypeMismatch { expected: TagKind::List, actual: TagKind::Double })
    );
    assert_eq!(
        doubles(&[1.0, 2.0, 3.0]).as_double_triplet(),
        Ok((1.0f64.to_bits(), 2.0f64.to_bits(), 3.0f64.to_bits()))
    );
}

#[test]
fn typed_accessors_return_the_value_or_name_both_kinds() {
    assert_eq!(Tag::Byte(-7).as_byte(), Ok(-7));
    assert_eq!(Tag::Int(7).as_int(), Ok(7));
    assert_eq!(Tag::Long(1 << 40).as_long(), Ok(1 << 40));
    assert_eq!(Tag::Float(0x3F80_0000).as_float(), Ok(1.0f32.to_bits()));
    assert_eq!(Tag::Double(0x7FF8_0000_0000_0001).as_double(), Ok(0x7FF8_0000_0000_0001));
    assert_eq!(Tag::String("text".to_string()).as_string(), Ok("text"));
    assert_eq!(
        Tag::Int(7).as_byte(),
        Err(ExtractionError::TypeMismatch { expected: TagKind::Byte, actual: TagKind::Int })
    );
    assert_eq!(
        Tag::Byte(7).as_int(),
        Err(ExtractionError::TypeMismatch { expected: TagKind::Int, actual: TagKind::Byte })
    );
    assert_eq!(
        Tag::Compound(vec![]).as_long(),
        Err(ExtractionError::TypeMismatch { expected: TagKind::Long, actual: TagKind::Compound })
    );
    assert_eq!(
        Tag::End.as_float(),
        Err(ExtractionError::TypeMismatch { expected: TagKind::Float, actual: TagKind::End })
    );
    assert_eq!(
        Tag::LongArray(vec![]).as_double(),
        Err(ExtractionError::TypeMismatch {
            expected: TagKind::Double,
            actual: TagKind::LongArray
        })
    );
    assert_eq!(
        Tag::ByteArray(vec![]).as_string(),
        Err(ExtractionError::TypeMismatch {
            expected: TagKind::String,
            actual: TagKind::ByteArray
        })
    );
}

fn world() -> Tag {
    Tag::Compound(vec![
        (
            "Data".to_string(),
            Tag::Compound(vec![
                ("Version".to_string(), Tag::Compound(vec![("Id".to_string(), Tag::Int(3953))])),
                ("LevelName".to_string(), Tag::String("New World".to_string())),
            ]),
        ),
        ("x".to_string(), Tag::Byte(1)),
    ])
}

#[test]
fn a_path_leads_down_through_compounds() {
    let root = world();
    assert_eq!(root.get(&["Data", "Version", "Id"]), Some(&Tag::Int(3953)));
    assert_eq!(
        root.get(&["Data", "LevelName"]),
        Some(&Tag::String("New World".to_string()))
    );
    assert_eq!(root.get(&["x"]), Some(&Tag::Byte(1)));
    assert_eq!(root.get(&[]), Some(&world()));
    assert_eq!(Tag::Int(5).get(&[]), Some(&Tag::Int(5)));
}

#[test]
fn a_path_with_a_missing_name_leads_nowhere() {
    let root = world();
    assert_eq!(root.get(&["Data", "Missing"]), None);
    assert_eq!(root.get(&["Missing", "Version", "Id"]), None);
    assert_eq!(root.get(&["data"]), None);
    assert_eq!(root.get(&["Data", "Version", "Id", ""]), None);
}

#[test]
fn a_path_through_a_tag_that_is_no_compound_leads_nowhere() {
    let root = world();
    assert_eq!(root.get(&["x", "y"]), None);
    assert_eq!(root.get(&["Data", "LevelName", "z"]), None);
    assert_eq!(Tag::Int(5).get(&["a"]), None);
    assert_eq!(Tag::List(TagKind::Compound, vec![world()]).get(&["Data"]), None);
}

#[test]
fn the_first_entry_of_a_name_is_the_one_found() {
    let root = Tag::Compound(vec![
        ("a".to_string(), Tag::Byte(1)),
        ("b".to_string(), Tag::Byte(2)),
        ("a".to_string(), Tag::Byte(3)),
    ]);
    assert_eq!(root.get(&["a"]), Some(&Tag::Byte(1)));
    assert_eq!(read_byte(&root, "a"), Ok(1));
}

#[test]
fn fields_are_read_by_name_and_kind() {
    let root = Tag::Compound(vec![
        ("b".to_string(), Tag::Byte(-3)),
        ("i".to_string(), Tag::Int(-4)),
        ("l".to_string(), Tag::Long(-5)),
        ("f".to_string(), Tag::Float(2.5f32.to_bits())),
        ("p".to_string(), doubles(&[0.5, 1.5, 2.5])),
    ]);
    assert_eq!(read_byte(&root, "b"), Ok(-3));
    assert_eq!(read_int(&root, "i"), Ok(-4));
    assert_eq!(read_long(&root, "l"), Ok(-5));
    assert_eq!(read_float(&root, "f"), Ok(2.5f32.to_bits()));
    assert_eq!(
        read_double_triplet(&root, "p"),
        Ok((0.5f64.to_bits(), 1.5f64.to_bits(), 2.5f64.to_bits()))
    );
    assert_eq!(read_long(&root, "none"), Err(ExtractionError::FieldMissing));
    assert_eq!(
        read_long(&root, "i"),
        Err(ExtractionError::TypeMismatch { expected: TagKind::Long, actual: TagKind::Int })
    );
}

#[test]
fn absence_alone_becomes_none() {
    assert_eq!(or_absent(Ok(4)), Ok(Some(4)));
    assert_eq!(or_absent::<i32>(Err(ExtractionError::FieldMissing)), Ok(None));
    assert_eq!(or_absent::<i32>(Err(ExtractionError::InvalidShape)), Err(ExtractionError::InvalidShape));
}

#[test]
fn names_are_found_and_entries_put() {
    let mut entries: Vec<(String, Tag)> = Vec::new();
    put_entry(&mut entries, "a".to_string(), Tag::Byte(1));
    put_entry(&mut entries, "b".to_string(), Tag::Byte(2));
    put_entry(&mut entries, "a".to_string(), Tag::Byte(3));
    assert_eq!(entries, vec![("a".to_string(), Tag::Byte(3)), ("b".to_string(), Tag::Byte(2))]);
    assert_eq!(find_name(&entries, "b"), Some(1));
    assert_eq!(find_name(&entries, "a"), Some(0));
    assert_eq!(find_name(&entries, "c"), None);
    assert_eq!(find_name(&entries, ""), None);
}

#[test]
fn texts_are_compared_and_cut_out_of_bytes() {
    assert!(same_text("Pos", "Pos"));
    assert!(!same_text("Pos", "pos"));
    assert!(!same_text("Pos", "Po"));
    assert!(same_text("", ""));
    assert!(same_text("\u{e9}", "\u{e9}"));
    assert!(!same_text("\u{e9}", "e"));
    let bytes = [b'a', 0xC3, 0xA9, b'b', 0xFF];
    assert_eq!(text_at(&bytes, 0, 4), Some("a\u{e9}b".to_string()));
    assert_eq!(text_at(&bytes, 1, 3), Some("\u{e9}".to_string()));
    assert_eq!(text_at(&bytes, 2, 2), Some(String::new()));
    assert_eq!(text_at(&bytes, 0, 2), None);
    assert_eq!(text_at(&bytes, 3, 5), None);
}

#[test]
fn players_compare_by_their_fields() {
    let a = player_from_tag(&Tag::Compound(player_tree()), "id".to_string()).unwrap();
    assert_eq!(
        a,
        PlayerDat {
            uuid: "id".to_string(),
            health: 20.0f32.to_bits(),
            food_level: 17,
            pos: (10.5f64.to_bits(), 64.0f64.to_bits(), (-3.25f64).to_bits()),
        }
    );
}

fn player(health: f32, food_level: i32) -> PlayerDat {
    PlayerDat { uuid: String::new(), health: health.to_bits(), food_level, pos: (0, 0, 0) }
}

#[test]
fn the_domain_of_a_players_values() {
    for health in [0.0f32, -0.0, 0.5, 1.0, 19.999998, 20.0, f32::MIN_POSITIVE, 1e-45] {
        assert!(player(health, 0).is_in_domain(), "{}", health);
        assert!((0.0..=20.0).contains(&health));
    }
    for health in [20.000002f32, 21.0, -1e-45, -1.0, f32::INFINITY, f32::NEG_INFINITY, f32::NAN] {
        assert!(!player(health, 0).is_in_domain(), "{}", health);
        assert!(!(0.0..=20.0).contains(&health));
    }
    assert!(player(20.0, 20).is_in_domain());
    assert!(player(20.0, 0).is_in_domain());
    assert!(!player(20.0, 21).is_in_domain());
    assert!(!player(20.0, -1).is_in_domain());
}

#[test]
fn the_domain_of_a_levels_difficulty() {
    let mut level = level_from_tag(&Tag::Compound(level_tree())).unwrap();
    for difficulty in 0..=3 {
        level.difficulty = difficulty;
        assert!(level.is_in_domain());
    }
    for difficulty in [-1i8, 4, 127, -128] {
        level.difficulty = difficulty;
        assert!(!level.is_in_domain());
    }
}
