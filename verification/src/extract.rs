//! From a decoded root compound to the two records: a world's level data and a
//! player's data.

use vstd::prelude::*;
use crate::error::ExtractionError;
use crate::tag::{
    byte_of, child, float_of, int_of, long_of, names, resolve, triplet_of, Tag, TagValue,
};

verus! {

/// The byte under `name` in the compound `root`.
pub open spec fn byte_field(root: TagValue, name: Seq<char>) -> Result<i8, ExtractionError> {
    match child(root, name) {
        None => Err(ExtractionError::FieldMissing),
        Some(value) => byte_of(value),
    }
}

/// The int under `name` in the compound `root`.
pub open spec fn int_field(root: TagValue, name: Seq<char>) -> Result<i32, ExtractionError> {
    match child(root, name) {
        None => Err(ExtractionError::FieldMissing),
        Some(value) => int_of(value),
    }
}

/// The long under `name` in the compound `root`.
pub open spec fn long_field(root: TagValue, name: Seq<char>) -> Result<i64, ExtractionError> {
    match child(root, name) {
        None => Err(ExtractionError::FieldMissing),
        Some(value) => long_of(value),
    }
}

/// The bits of the float under `name` in the compound `root`.
pub open spec fn float_field(root: TagValue, name: Seq<char>) -> Result<u32, ExtractionError> {
    match child(root, name) {
        None => Err(ExtractionError::FieldMissing),
        Some(value) => float_of(value),
    }
}

/// The bits of the three doubles under `name` in the compound `root`.
pub open spec fn triplet_field(root: TagValue, name: Seq<char>) -> Result<
    (u64, u64, u64),
    ExtractionError,
> {
    match child(root, name) {
        None => Err(ExtractionError::FieldMissing),
        Some(value) => triplet_of(value),
    }
}

/// A field that may be absent: absence is `None`, any other failure stays a failure.
pub open spec fn optional<T>(r: Result<T, ExtractionError>) -> Result<Option<T>, ExtractionError> {
    match r {
        Ok(x) => Ok(Some(x)),
        Err(ExtractionError::FieldMissing) => Ok(None),
        Err(e) => Err(e),
    }
}

/// The tag under `name` in the compound `root`.
pub fn field<'a>(root: &'a Tag, name: &str) -> (r: Option<&'a Tag>)
    ensures
        r matches Some(t) ==> child(root@, name@) == Some(t@),
        r is None ==> child(root@, name@) is None,
{
    let path: [&str; 1] = [name];
    assert(names(path@) =~= seq![name@]);
    assert(resolve(root@, seq![name@]) == child(root@, name@)) by {
        reveal_with_fuel(crate::tag::resolve_from, 3);
    }
    root.get(path.as_slice())
}

/// Reads the byte under `name` in the compound `root`.
pub fn read_byte(root: &Tag, name: &str) -> (r: Result<i8, ExtractionError>)
    ensures
        r == byte_field(root@, name@),
{
    match field(root, name) {
        None => Err(ExtractionError::FieldMissing),
        Some(t) => t.as_byte(),
    }
}

/// Reads the int under `name` in the compound `root`.
pub fn read_int(root: &Tag, name: &str) -> (r: Result<i32, ExtractionError>)
    ensures
        r == int_field(root@, name@),
{
    match field(root, name) {
        None => Err(ExtractionError::FieldMissing),
        Some(t) => t.as_int(),
    }
}

/// Reads the long under `name` in the compound `root`.
pub fn read_long(root: &Tag, name: &str) -> (r: Result<i64, ExtractionError>)
    ensures
        r == long_field(root@, name@),
{
    match field(root, name) {
        None => Err(ExtractionError::FieldMissing),
        Some(t) => t.as_long(),
    }
}

/// Reads the bits of the float under `name` in the compound `root`.
pub fn read_float(root: &Tag, name: &str) -> (r: Result<u32, ExtractionError>)
    ensures
        r == float_field(root@, name@),
{
    match field(root, name) {
        None => Err(ExtractionError::FieldMissing),
        Some(t) => t.as_float(),
    }
}

/// Reads the bits of the three doubles under `name` in the compound `root`.
pub fn read_double_triplet(root: &Tag, name: &str) -> (r: Result<(u64, u64, u64), ExtractionError>)
    ensures
        r == triplet_field(root@, name@),
{
    match field(root, name) {
        None => Err(ExtractionError::FieldMissing),
        Some(t) => t.as_double_triplet(),
    }
}

/// Turns the absence of a field into `None`.
pub fn or_absent<T>(r: Result<T, ExtractionError>) -> (o: Result<Option<T>, ExtractionError>)
    ensures
        o == optional(r),
{
    match r {
        Ok(x) => Ok(Some(x)),
        Err(ExtractionError::FieldMissing) => Ok(None),
        Err(e) => Err(e),
    }
}

/// What a world's level data says of the world.
#[derive(Clone, Copy, Debug, PartialEq, Eq)]
pub struct LevelDat {
    /// Ticks of in-game time; a day has 24000, and the count is not reset.
    pub day_time: i64,
    /// 0 for peaceful, 1 for easy, 2 for normal, 3 for hard.
    pub difficulty: i8,
    /// The version of the data format; `None` before versions were recorded.
    pub data_version: Option<i32>,
    /// When the world was last loaded, in milliseconds since the epoch.
    pub last_played: i64,
    /// The seed that the terrain is generated from.
    pub random_seed: Option<i64>,
    /// Ticks since the world was created.
    pub time: i64,
}

impl LevelDat {
    /// Whether the difficulty is one of the four that the game knows.
    pub open spec fn in_domain(self) -> bool {
        0 <= self.difficulty <= 3
    }

    /// Whether the difficulty is one of the four that the game knows. Extraction
    /// takes a record as it stands and does not ask this.
    pub fn is_in_domain(&self) -> (r: bool)
        ensures
            r == self.in_domain(),
    {
        0 <= self.difficulty && self.difficulty <= 3
    }
}

/// The level data that the compound `root` holds: `DayTime`, `Difficulty`,
/// `LastPlayed` and `Time` are required, `DataVersion` and `RandomSeed` may be
/// absent. The failure is that of the first field, in the order of the record,
/// that is missing though required or is of another kind.
pub open spec fn level_of(root: TagValue) -> Result<LevelDat, ExtractionError> {
    match long_field(root, "DayTime"@) {
        Err(e) => Err(e),
        Ok(day_time) => match byte_field(root, "Difficulty"@) {
            Err(e) => Err(e),
            Ok(difficulty) => match optional(int_field(root, "DataVersion"@)) {
                Err(e) => Err(e),
                Ok(data_version) => match long_field(root, "LastPlayed"@) {
                    Err(e) => Err(e),
                    Ok(last_played) => match optional(long_field(root, "RandomSeed"@)) {
                        Err(e) => Err(e),
                        Ok(random_seed) => match long_field(root, "Time"@) {
                            Err(e) => Err(e),
                            Ok(time) => Ok(
                                LevelDat {
                                    day_time,
                                    difficulty,
                                    data_version,
                                    last_played,
                                    random_seed,
                                    time,
                                },
                            ),
                        },
                    },
                },
            },
        },
    }
}

/// Extracts a world's level data from a decoded root compound.
pub fn level_from_tag(root: &Tag) -> (r: Result<LevelDat, ExtractionError>)
    ensures
        r == level_of(root@),
{
    let day_time = match read_long(root, "DayTime") {
        Ok(v) => v,
        Err(e) => { return Err(e); },
    };
    let difficulty = match read_byte(root, "Difficulty") {
        Ok(v) => v,
        Err(e) => { return Err(e); },
    };
    let data_version = match or_absent(read_int(root, "DataVersion")) {
        Ok(v) => v,
        Err(e) => { return Err(e); },
    };
    let last_played = match read_long(root, "LastPlayed") {
        Ok(v) => v,
        Err(e) => { return Err(e); },
    };
    let random_seed = match or_absent(read_long(root, "RandomSeed")) {
        Ok(v) => v,
        Err(e) => { return Err(e); },
    };
    let time = match read_long(root, "Time") {
        Ok(v) => v,
        Err(e) => { return Err(e); },
    };
    Ok(LevelDat { day_time, difficulty, data_version, last_played, random_seed, time })
}

/// What a player's data says of the player.
#[derive(Debug, PartialEq, Eq)]
pub struct PlayerDat {
    /// The player's identifier, as the caller gave it.
    pub uuid: String,
    /// The bits of the player's health, a float.
    pub health: u32,
    /// The player's food level.
    pub food_level: i32,
    /// The bits of the three doubles of the player's position: x, y and z.
    pub pos: (u64, u64, u64),
}

/// The mathematical value of a [`PlayerDat`].
pub struct PlayerValue {
    pub uuid: Seq<char>,
    pub health: u32,
    pub food_level: i32,
    pub pos: (u64, u64, u64),
}

impl View for PlayerDat {
    type V = PlayerValue;

    open spec fn view(&self) -> PlayerValue {
        PlayerValue {
            uuid: self.uuid@,
            health: self.health,
            food_level: self.food_level,
            pos: self.pos,
        }
    }
}

/// The bits of the float 20, the most that health and food come to.
pub const TWENTY_BITS: u32 = 0x41A0_0000;

/// The bits of the float that is zero with the sign set.
pub const MINUS_ZERO_BITS: u32 = 0x8000_0000;

impl PlayerValue {
    /// Whether health lies from 0 to 20, read off its bits, and the food level
    /// from 0 to 20. A float without sign is ordered as its bits are, so those
    /// from 0 to 20 are the bits up to those of 20; zero with the sign set is
    /// zero too.
    pub open spec fn in_domain(self) -> bool {
        &&& self.health <= TWENTY_BITS || self.health == MINUS_ZERO_BITS
        &&& 0 <= self.food_level <= 20
    }
}

impl PlayerDat {
    /// Whether health and food level lie in the domain that the game gives
    /// them. Extraction takes a record as it stands and does not ask this.
    pub fn is_in_domain(&self) -> (r: bool)
        ensures
            r == self@.in_domain(),
    {
        (self.health <= TWENTY_BITS || self.health == MINUS_ZERO_BITS) && 0 <= self.food_level
            && self.food_level <= 20
    }
}

/// The data of the player `uuid` that the compound `root` holds: `Health`,
/// `foodLevel` and `Pos` are required. The failure is that of the first of
/// them, in this order, that is missing or of another kind or shape.
pub open spec fn player_of(root: TagValue, uuid: Seq<char>) -> Result<PlayerValue, ExtractionError> {
    match float_field(root, "Health"@) {
        Err(e) => Err(e),
        Ok(health) => match int_field(root, "foodLevel"@) {
            Err(e) => Err(e),
            Ok(food_level) => match triplet_field(root, "Pos"@) {
                Err(e) => Err(e),
                Ok(pos) => Ok(PlayerValue { uuid, health, food_level, pos }),
            },
        },
    }
}

/// Extracts a player's data from a decoded root compound; `uuid` is the
/// player's identifier, which the record does not hold.
pub fn player_from_tag(root: &Tag, uuid: String) -> (r: Result<PlayerDat, ExtractionError>)
    ensures
        r matches Ok(p) ==> player_of(root@, uuid@) == Ok::<PlayerValue, ExtractionError>(p@),
        r matches Err(e) ==> player_of(root@, uuid@) == Err::<PlayerValue, ExtractionError>(e),
{
    let health = match read_float(root, "Health") {
        Ok(v) => v,
        Err(e) => { return Err(e); },
    };
    let food_level = match read_int(root, "foodLevel") {
        Ok(v) => v,
        Err(e) => { return Err(e); },
    };
    let pos = match read_double_triplet(root, "Pos") {
        Ok(v) => v,
        Err(e) => { return Err(e); },
    };
    Ok(PlayerDat { uuid, health, food_level, pos })
}

} // verus!
