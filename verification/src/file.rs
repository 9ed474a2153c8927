//! Record files: compressed content in, a decoded record or its fields out.

use vstd::prelude::*;
use crate::decode::{decode, MAX_DEPTH};
use crate::error::{ExtractionError, NBTError};
use crate::extract::{
    byte_field, float_field, int_field, level_from_tag, level_of, long_field, player_from_tag,
    player_of, read_byte, read_double_triplet, read_float, read_int, read_long, triplet_field,
    LevelDat, PlayerDat, PlayerValue,
};
use crate::grammar::decoded;
use crate::tag::{Tag, TagValue};

verus! {

/// The error of a reader, which nothing here looks into.
#[verifier::external_type_specification]
#[verifier::external_body]
pub struct ExIoError(std::io::Error);

/// What `flate2`'s gzip decoder makes of `raw`: the bytes that its first member
/// holds, or `None` where the decoder reports an error.
pub uninterp spec fn gunzipped(raw: Seq<u8>) -> Option<Seq<u8>>;

/// Runs `flate2::read::GzDecoder` over `raw` to its end. The decoder reads the
/// header, inflates one member and checks its checksum and length; what it
/// returns depends on `raw` alone, and is what `gunzipped` names.
#[verifier::external_body]
fn gunzip(raw: &[u8]) -> (r: Result<Vec<u8>, std::io::Error>)
    ensures
        r matches Ok(bytes) ==> gunzipped(raw@) == Some(bytes@),
        r is Err ==> gunzipped(raw@) is None,
{
    let mut out: Vec<u8> = Vec::new();
    let mut decoder = flate2::read::GzDecoder::new(raw);
    match std::io::Read::read_to_end(&mut decoder, &mut out) {
        Ok(_) => Ok(out),
        Err(e) => Err(e),
    }
}

/// A decoded record file.
#[derive(Debug, PartialEq, Eq)]
pub struct NBTFile {
    /// The root compound of the record.
    pub root: Tag,
}

/// The root of the record in a file whose decompressed content is `unzipped`.
pub open spec fn opened(unzipped: Option<Seq<u8>>) -> Result<TagValue, NBTError> {
    match unzipped {
        None => Err(NBTError::Decompression),
        Some(bytes) => match decoded(bytes, MAX_DEPTH as nat) {
            Ok(root) => Ok(root),
            Err(e) => Err(NBTError::Decode(e)),
        },
    }
}

/// A failure of extraction, as a failure of the file.
pub open spec fn of_file<T>(r: Result<T, ExtractionError>) -> Result<T, NBTError> {
    match r {
        Ok(x) => Ok(x),
        Err(e) => Err(NBTError::Extraction(e)),
    }
}

/// The level data in a file whose decompressed content is `unzipped`.
pub open spec fn level_in(unzipped: Option<Seq<u8>>) -> Result<LevelDat, NBTError> {
    match opened(unzipped) {
        Err(e) => Err(e),
        Ok(root) => of_file(level_of(root)),
    }
}

/// The data of the player `uuid` in a file whose decompressed content is `unzipped`.
pub open spec fn player_in(unzipped: Option<Seq<u8>>, uuid: Seq<char>) -> Result<
    PlayerValue,
    NBTError,
> {
    match opened(unzipped) {
        Err(e) => Err(e),
        Ok(root) => of_file(player_of(root, uuid)),
    }
}

/// Turns a failure of extraction into a failure of the file.
pub fn in_file<T>(r: Result<T, ExtractionError>) -> (o: Result<T, NBTError>)
    ensures
        o == of_file(r),
{
    match r {
        Ok(x) => Ok(x),
        Err(e) => Err(NBTError::Extraction(e)),
    }
}

impl NBTFile {
    /// Decodes the record that the decompressed bytes of a file hold.
    pub fn from_bytes(bytes: &[u8]) -> (r: Result<NBTFile, NBTError>)
        ensures
            r matches Ok(file) ==> opened(Some(bytes@)) == Ok::<TagValue, NBTError>(file.root@),
            r matches Err(e) ==> opened(Some(bytes@)) == Err::<TagValue, NBTError>(e),
    {
        match decode(bytes) {
            Ok(root) => Ok(NBTFile { root }),
            Err(e) => Err(NBTError::Decode(e)),
        }
    }

    /// Decompresses the content of a file and decodes the record in it.
    pub fn new(raw: &[u8]) -> (r: Result<NBTFile, NBTError>)
        ensures
            r matches Ok(file) ==> opened(gunzipped(raw@)) == Ok::<TagValue, NBTError>(file.root@),
            r matches Err(e) ==> opened(gunzipped(raw@)) == Err::<TagValue, NBTError>(e),
    {
        match gunzip(raw) {
            Ok(bytes) => NBTFile::from_bytes(bytes.as_slice()),
            Err(_) => Err(NBTError::Decompression),
        }
    }

    /// The byte under `name` in the root.
    pub fn get_byte(&self, name: &str) -> (r: Result<i8, NBTError>)
        ensures
            r == of_file(byte_field(self.root@, name@)),
    {
        in_file(read_byte(&self.root, name))
    }

    /// The int under `name` in the root.
    pub fn get_int(&self, name: &str) -> (r: Result<i32, NBTError>)
        ensures
            r == of_file(int_field(self.root@, name@)),
    {
        in_file(read_int(&self.root, name))
    }

    /// The long under `name` in the root.
    pub fn get_long(&self, name: &str) -> (r: Result<i64, NBTError>)
        ensures
            r == of_file(long_field(self.root@, name@)),
    {
        in_file(read_long(&self.root, name))
    }

    /// The bits of the float under `name` in the root.
    pub fn get_float(&self, name: &str) -> (r: Result<u32, NBTError>)
        ensures
            r == of_file(float_field(self.root@, name@)),
    {
        in_file(read_float(&self.root, name))
    }

    /// The bits of the three doubles under `name` in the root.
    pub fn get_double_triplet(&self, name: &str) -> (r: Result<(u64, u64, u64), NBTError>)
        ensures
            r == of_file(triplet_field(self.root@, name@)),
    {
        in_file(read_double_triplet(&self.root, name))
    }
}

impl LevelDat {
    /// The level data in a decoded file.
    pub fn from_file(file: &NBTFile) -> (r: Result<LevelDat, NBTError>)
        ensures
            r == of_file(level_of(file.root@)),
    {
        in_file(level_from_tag(&file.root))
    }

    /// The level data in the record that the decompressed bytes of a file hold.
    pub fn from_bytes(bytes: &[u8]) -> (r: Result<LevelDat, NBTError>)
        ensures
            r == level_in(Some(bytes@)),
    {
        match NBTFile::from_bytes(bytes) {
            Ok(file) => LevelDat::from_file(&file),
            Err(e) => Err(e),
        }
    }

    /// Decompresses the content of a `level.dat` file, decodes the record in it
    /// and extracts the level data.
    pub fn new(raw: &[u8]) -> (r: Result<LevelDat, NBTError>)
        ensures
            r == level_in(gunzipped(raw@)),
    {
        match NBTFile::new(raw) {
            Ok(file) => LevelDat::from_file(&file),
            Err(e) => Err(e),
        }
    }
}

impl PlayerDat {
    /// The data of the player `uuid` in a decoded file.
    pub fn from_file(file: &NBTFile, uuid: String) -> (r: Result<PlayerDat, NBTError>)
        ensures
            r matches Ok(p) ==> of_file(player_of(file.root@, uuid@)) == Ok::<PlayerValue, NBTError>(
                p@,
            ),
            r matches Err(e) ==> of_file(player_of(file.root@, uuid@)) == Err::<
                PlayerValue,
                NBTError,
            >(e),
    {
        in_file(player_from_tag(&file.root, uuid))
    }

    /// The data of the player `uuid` in the record that the decompressed bytes
    /// of a file hold.
    pub fn from_bytes(bytes: &[u8], uuid: String) -> (r: Result<PlayerDat, NBTError>)
        ensures
            r matches Ok(p) ==> player_in(Some(bytes@), uuid@) == Ok::<PlayerValue, NBTError>(p@),
            r matches Err(e) ==> player_in(Some(bytes@), uuid@) == Err::<PlayerValue, NBTError>(e),
    {
        match NBTFile::from_bytes(bytes) {
            Ok(file) => PlayerDat::from_file(&file, uuid),
            Err(e) => Err(e),
        }
    }

    /// Decompresses the content of a player's file, decodes the record in it and
    /// extracts the data of the player `uuid`.
    pub fn new(raw: &[u8], uuid: String) -> (r: Result<PlayerDat, NBTError>)
        ensures
            r matches Ok(p) ==> player_in(gunzipped(raw@), uuid@) == Ok::<PlayerValue, NBTError>(p@),
            r matches Err(e) ==> player_in(gunzipped(raw@), uuid@) == Err::<PlayerValue, NBTError>(
                e,
            ),
    {
        match NBTFile::new(raw) {
            Ok(file) => PlayerDat::from_file(&file, uuid),
            Err(e) => Err(e),
        }
    }
}

} // verus!
