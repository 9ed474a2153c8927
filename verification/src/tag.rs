//! The tag tree: the data model of a decoded record.

use vstd::prelude::*;
use crate::error::ExtractionError;
use crate::text::same_text;

verus! {

/// The thirteen kinds of tag, in the order of their type ids (0 to 12).
#[derive(Clone, Copy, Debug, PartialEq, Eq, Structural)]
pub enum TagKind {
    End,
    Byte,
    Short,
    Int,
    Long,
    Float,
    Double,
    ByteArray,
    String,
    List,
    Compound,
    IntArray,
    LongArray,
}

/// The type id that stands for a kind in a buffer.
pub open spec fn kind_id(kind: TagKind) -> u8 {
    match kind {
        TagKind::End => 0,
        TagKind::Byte => 1,
        TagKind::Short => 2,
        TagKind::Int => 3,
        TagKind::Long => 4,
        TagKind::Float => 5,
        TagKind::Double => 6,
        TagKind::ByteArray => 7,
        TagKind::String => 8,
        TagKind::List => 9,
        TagKind::Compound => 10,
        TagKind::IntArray => 11,
        TagKind::LongArray => 12,
    }
}

/// The kind that a type id stands for, if it is one of 0 to 12.
pub open spec fn kind_of_id(id: u8) -> Option<TagKind> {
    if id == 0 {
        Some(TagKind::End)
    } else if id == 1 {
        Some(TagKind::Byte)
    } else if id == 2 {
        Some(TagKind::Short)
    } else if id == 3 {
        Some(TagKind::Int)
    } else if id == 4 {
        Some(TagKind::Long)
    } else if id == 5 {
        Some(TagKind::Float)
    } else if id == 6 {
        Some(TagKind::Double)
    } else if id == 7 {
        Some(TagKind::ByteArray)
    } else if id == 8 {
        Some(TagKind::String)
    } else if id == 9 {
        Some(TagKind::List)
    } else if id == 10 {
        Some(TagKind::Compound)
    } else if id == 11 {
        Some(TagKind::IntArray)
    } else if id == 12 {
        Some(TagKind::LongArray)
    } else {
        None
    }
}

impl TagKind {
    /// The type id of this kind.
    pub fn id(self) -> (r: u8)
        ensures
            r == kind_id(self),
    {
        match self {
            TagKind::End => 0,
            TagKind::Byte => 1,
            TagKind::Short => 2,
            TagKind::Int => 3,
            TagKind::Long => 4,
            TagKind::Float => 5,
            TagKind::Double => 6,
            TagKind::ByteArray => 7,
            TagKind::String => 8,
            TagKind::List => 9,
            TagKind::Compound => 10,
            TagKind::IntArray => 11,
            TagKind::LongArray => 12,
        }
    }

    /// The kind with type id `id`; `None` for an id above 12.
    pub fn from_id(id: u8) -> (r: Option<TagKind>)
        ensures
            r == kind_of_id(id),
    {
        match id {
            0 => Some(TagKind::End),
            1 => Some(TagKind::Byte),
            2 => Some(TagKind::Short),
            3 => Some(TagKind::Int),
            4 => Some(TagKind::Long),
            5 => Some(TagKind::Float),
            6 => Some(TagKind::Double),
            7 => Some(TagKind::ByteArray),
            8 => Some(TagKind::String),
            9 => Some(TagKind::List),
            10 => Some(TagKind::Compound),
            11 => Some(TagKind::IntArray),
            12 => Some(TagKind::LongArray),
            _ => None,
        }
    }
}

/// The mathematical value of a tag: what a [`Tag`] is in contracts.
///
/// A float or a double is held as its IEEE-754 bit pattern. The entries of a
/// compound are pairs of a name and a value, in the order of insertion.
pub enum TagValue {
    End,
    Byte(i8),
    Short(i16),
    Int(i32),
    Long(i64),
    Float(u32),
    Double(u64),
    ByteArray(Seq<i8>),
    String(Seq<char>),
    List(TagKind, Seq<TagValue>),
    Compound(Seq<(Seq<char>, TagValue)>),
    IntArray(Seq<i32>),
    LongArray(Seq<i64>),
}

impl TagValue {
    /// The kind of this value.
    pub open spec fn kind(self) -> TagKind {
        match self {
            TagValue::End => TagKind::End,
            TagValue::Byte(_) => TagKind::Byte,
            TagValue::Short(_) => TagKind::Short,
            TagValue::Int(_) => TagKind::Int,
            TagValue::Long(_) => TagKind::Long,
            TagValue::Float(_) => TagKind::Float,
            TagValue::Double(_) => TagKind::Double,
            TagValue::ByteArray(_) => TagKind::ByteArray,
            TagValue::String(_) => TagKind::String,
            TagValue::List(_, _) => TagKind::List,
            TagValue::Compound(_) => TagKind::Compound,
            TagValue::IntArray(_) => TagKind::IntArray,
            TagValue::LongArray(_) => TagKind::LongArray,
        }
    }
}

/// The first position at which `name` stands in `entries`, looking from `from` on.
pub open spec fn position_from(entries: Seq<(Seq<char>, TagValue)>, name: Seq<char>, from: int) -> Option<int>
    decreases entries.len() - from,
{
    if from < 0 || from >= entries.len() {
        None
    } else if entries[from].0 == name {
        Some(from)
    } else {
        position_from(entries, name, from + 1)
    }
}

/// The first position at which `name` stands in `entries`.
pub open spec fn position(entries: Seq<(Seq<char>, TagValue)>, name: Seq<char>) -> Option<int> {
    position_from(entries, name, 0)
}

/// `entries` with `value` under `name`: in the place of the value that `name` had,
/// or at the end where the name is new.
pub open spec fn upsert(entries: Seq<(Seq<char>, TagValue)>, name: Seq<char>, value: TagValue) -> Seq<
    (Seq<char>, TagValue),
> {
    match position(entries, name) {
        Some(i) => entries.update(i, (name, value)),
        None => entries.push((name, value)),
    }
}

/// The value that a compound holds under `name`: that of the first entry of that
/// name. `None` where `value` is no compound or has no such entry.
pub open spec fn child(value: TagValue, name: Seq<char>) -> Option<TagValue> {
    match value {
        TagValue::Compound(entries) => match position(entries, name) {
            Some(i) => Some(entries[i].1),
            None => None,
        },
        _ => None,
    }
}

/// The value reached from `value` by the names of `path` from index `from` on.
pub open spec fn resolve_from(value: TagValue, path: Seq<Seq<char>>, from: int) -> Option<TagValue>
    decreases path.len() - from,
{
    if from < 0 || from >= path.len() {
        Some(value)
    } else {
        match child(value, path[from]) {
            Some(next) => resolve_from(next, path, from + 1),
            None => None,
        }
    }
}

/// The value reached from `value` by following the names of `path` in order.
pub open spec fn resolve(value: TagValue, path: Seq<Seq<char>>) -> Option<TagValue> {
    resolve_from(value, path, 0)
}

/// The names of a path, as character sequences.
pub open spec fn names(path: Seq<&str>) -> Seq<Seq<char>> {
    Seq::new(path.len(), |i: int| path[i]@)
}

/// A mismatch between the kind asked for and the kind of `value`.
pub open spec fn mismatch(expected: TagKind, value: TagValue) -> ExtractionError {
    ExtractionError::TypeMismatch { expected, actual: value.kind() }
}

/// The byte that `value` is, or the mismatch.
pub open spec fn byte_of(value: TagValue) -> Result<i8, ExtractionError> {
    match value {
        TagValue::Byte(v) => Ok(v),
        _ => Err(mismatch(TagKind::Byte, value)),
    }
}

/// The int that `value` is, or the mismatch.
pub open spec fn int_of(value: TagValue) -> Result<i32, ExtractionError> {
    match value {
        TagValue::Int(v) => Ok(v),
        _ => Err(mismatch(TagKind::Int, value)),
    }
}

/// The long that `value` is, or the mismatch.
pub open spec fn long_of(value: TagValue) -> Result<i64, ExtractionError> {
    match value {
        TagValue::Long(v) => Ok(v),
        _ => Err(mismatch(TagKind::Long, value)),
    }
}

/// The bits of the float that `value` is, or the mismatch.
pub open spec fn float_of(value: TagValue) -> Result<u32, ExtractionError> {
    match value {
        TagValue::Float(v) => Ok(v),
        _ => Err(mismatch(TagKind::Float, value)),
    }
}

/// The bits of the double that `value` is, or the mismatch.
pub open spec fn double_of(value: TagValue) -> Result<u64, ExtractionError> {
    match value {
        TagValue::Double(v) => Ok(v),
        _ => Err(mismatch(TagKind::Double, value)),
    }
}

/// The text that `value` is, or the mismatch.
pub open spec fn string_of(value: TagValue) -> Result<Seq<char>, ExtractionError> {
    match value {
        TagValue::String(v) => Ok(v),
        _ => Err(mismatch(TagKind::String, value)),
    }
}

/// Whether `value` is a list declared of doubles that holds exactly three doubles.
pub open spec fn is_double_triplet(value: TagValue) -> bool {
    value matches TagValue::List(kind, items) && kind == TagKind::Double && items.len() == 3
        && items[0] is Double && items[1] is Double && items[2] is Double
}

/// The bits of the three doubles that `value` is a list of; the mismatch where
/// it is no list; `InvalidShape` for any other list.
pub open spec fn triplet_of(value: TagValue) -> Result<(u64, u64, u64), ExtractionError> {
    match value {
        TagValue::List(kind, items) => if is_double_triplet(value) {
            Ok((items[0]->Double_0, items[1]->Double_0, items[2]->Double_0))
        } else {
            Err(ExtractionError::InvalidShape)
        },
        _ => Err(mismatch(TagKind::List, value)),
    }
}

/// A decoded tag. A float or a double is held as its IEEE-754 bit pattern.
#[derive(Debug, PartialEq, Eq)]
pub enum Tag {
    End,
    Byte(i8),
    Short(i16),
    Int(i32),
    Long(i64),
    Float(u32),
    Double(u64),
    ByteArray(Vec<i8>),
    String(String),
    List(TagKind, Vec<Tag>),
    Compound(Vec<(String, Tag)>),
    IntArray(Vec<i32>),
    LongArray(Vec<i64>),
}

/// The values of a sequence of tags.
pub open spec fn tag_views(items: Seq<Tag>) -> Seq<TagValue>
    decreases items,
{
    Seq::new(
        items.len(),
        |i: int|
            if 0 <= i < items.len() {
                items[i]@
            } else {
                TagValue::End
            },
    )
}

/// The names and values of a sequence of named tags.
pub open spec fn entry_views(entries: Seq<(String, Tag)>) -> Seq<(Seq<char>, TagValue)>
    decreases entries,
{
    Seq::new(
        entries.len(),
        |i: int|
            if 0 <= i < entries.len() {
                (entries[i].0@, entries[i].1@)
            } else {
                (Seq::empty(), TagValue::End)
            },
    )
}

impl View for Tag {
    type V = TagValue;

    open spec fn view(&self) -> TagValue
        decreases self,
    {
        match self {
            Tag::End => TagValue::End,
            Tag::Byte(v) => TagValue::Byte(*v),
            Tag::Short(v) => TagValue::Short(*v),
            Tag::Int(v) => TagValue::Int(*v),
            Tag::Long(v) => TagValue::Long(*v),
            Tag::Float(v) => TagValue::Float(*v),
            Tag::Double(v) => TagValue::Double(*v),
            Tag::ByteArray(v) => TagValue::ByteArray(v@),
            Tag::String(s) => TagValue::String(s@),
            Tag::List(k, items) => TagValue::List(*k, tag_views(items@)),
            Tag::Compound(entries) => TagValue::Compound(entry_views(entries@)),
            Tag::IntArray(v) => TagValue::IntArray(v@),
            Tag::LongArray(v) => TagValue::LongArray(v@),
        }
    }
}

impl Tag {
    /// The kind of this tag.
    pub fn kind(&self) -> (r: TagKind)
        ensures
            r == self@.kind(),
    {
        match self {
            Tag::End => TagKind::End,
            Tag::Byte(_) => TagKind::Byte,
            Tag::Short(_) => TagKind::Short,
            Tag::Int(_) => TagKind::Int,
            Tag::Long(_) => TagKind::Long,
            Tag::Float(_) => TagKind::Float,
            Tag::Double(_) => TagKind::Double,
            Tag::ByteArray(_) => TagKind::ByteArray,
            Tag::String(_) => TagKind::String,
            Tag::List(_, _) => TagKind::List,
            Tag::Compound(_) => TagKind::Compound,
            Tag::IntArray(_) => TagKind::IntArray,
            Tag::LongArray(_) => TagKind::LongArray,
        }
    }

    /// Follows `path` down through nested compounds, name by name. `None` as soon
    /// as a name is missing or the tag reached is no compound; with an empty
    /// path, the tag itself.
    pub fn get(&self, path: &[&str]) -> (r: Option<&Tag>)
        ensures
            r matches Some(t) ==> resolve(self@, names(path@)) == Some(t@),
            r is None ==> resolve(self@, names(path@)) is None,
    {
        let mut cur: &Tag = self;
        let mut i: usize = 0;
        while i < path.len()
            invariant
                i <= path@.len(),
                resolve(self@, names(path@)) == resolve_from(cur@, names(path@), i as int),
            decreases path@.len() - i,
        {
            match cur {
                Tag::Compound(entries) => match find_name(entries, path[i]) {
                    Some(j) => {
                        cur = &entries[j].1;
                    },
                    None => {
                        return None;
                    },
                },
                _ => {
                    return None;
                },
            }
            i += 1;
        }
        Some(cur)
    }

    /// The byte that this tag is.
    pub fn as_byte(&self) -> (r: Result<i8, ExtractionError>)
        ensures
            r == byte_of(self@),
    {
        match self {
            Tag::Byte(v) => Ok(*v),
            _ => Err(ExtractionError::TypeMismatch { expected: TagKind::Byte, actual: self.kind() }),
        }
    }

    /// The int that this tag is.
    pub fn as_int(&self) -> (r: Result<i32, ExtractionError>)
        ensures
            r == int_of(self@),
    {
        match self {
            Tag::Int(v) => Ok(*v),
            _ => Err(ExtractionError::TypeMismatch { expected: TagKind::Int, actual: self.kind() }),
        }
    }

    /// The long that this tag is.
    pub fn as_long(&self) -> (r: Result<i64, ExtractionError>)
        ensures
            r == long_of(self@),
    {
        match self {
            Tag::Long(v) => Ok(*v),
            _ => Err(ExtractionError::TypeMismatch { expected: TagKind::Long, actual: self.kind() }),
        }
    }

    /// The bits of the float that this tag is.
    pub fn as_float(&self) -> (r: Result<u32, ExtractionError>)
        ensures
            r == float_of(self@),
    {
        match self {
            Tag::Float(v) => Ok(*v),
            _ => Err(ExtractionError::TypeMismatch { expected: TagKind::Float, actual: self.kind() }),
        }
    }

    /// The bits of the double that this tag is.
    pub fn as_double(&self) -> (r: Result<u64, ExtractionError>)
        ensures
            r == double_of(self@),
    {
        match self {
            Tag::Double(v) => Ok(*v),
            _ => Err(
                ExtractionError::TypeMismatch { expected: TagKind::Double, actual: self.kind() },
            ),
        }
    }

    /// The text that this tag is.
    pub fn as_string(&self) -> (r: Result<&str, ExtractionError>)
        ensures
            r matches Ok(s) ==> string_of(self@) == Ok::<Seq<char>, ExtractionError>(s@),
            r matches Err(e) ==> string_of(self@) == Err::<Seq<char>, ExtractionError>(e),
    {
        match self {
            Tag::String(s) => Ok(s.as_str()),
            _ => Err(
                ExtractionError::TypeMismatch { expected: TagKind::String, actual: self.kind() },
            ),
        }
    }

    /// The bits of the three doubles that this tag is a list of. A tag that is no
    /// list is a mismatch; a list of another declared kind, of another length, or
    /// with an item that is no double is of invalid shape.
    pub fn as_double_triplet(&self) -> (r: Result<(u64, u64, u64), ExtractionError>)
        ensures
            r == triplet_of(self@),
    {
        match self {
            Tag::List(kind, items) => {
                if *kind == TagKind::Double && items.len() == 3 {
                    assert(tag_views(items@)[0] == items@[0]@);
                    assert(tag_views(items@)[1] == items@[1]@);
                    assert(tag_views(items@)[2] == items@[2]@);
                    match &items[0] {
                        Tag::Double(x) => match &items[1] {
                            Tag::Double(y) => match &items[2] {
                                Tag::Double(z) => {
                                    assert(self@ == TagValue::List(*kind, tag_views(items@)));
                                    Ok((*x, *y, *z))
                                },
                                _ => Err(ExtractionError::InvalidShape),
                            },
                            _ => Err(ExtractionError::InvalidShape),
                        },
                        _ => Err(ExtractionError::InvalidShape),
                    }
                } else {
                    Err(ExtractionError::InvalidShape)
                }
            },
            _ => Err(ExtractionError::TypeMismatch { expected: TagKind::List, actual: self.kind() }),
        }
    }
}

/// The first position in `entries` at which `name` stands.
pub fn find_name(entries: &Vec<(String, Tag)>, name: &str) -> (r: Option<usize>)
    ensures
        r matches Some(i) ==> position(entry_views(entries@), name@) == Some(i as int) && i
            < entries@.len(),
        r is None ==> position(entry_views(entries@), name@) is None,
{
    let mut i: usize = 0;
    while i < entries.len()
        invariant
            i <= entries@.len(),
            position(entry_views(entries@), name@) == position_from(
                entry_views(entries@),
                name@,
                i as int,
            ),
        decreases entries@.len() - i,
    {
        if same_text(entries[i].0.as_str(), name) {
            return Some(i);
        }
        i += 1;
    }
    None
}

/// Puts `tag` under `name`: in the place of the value that the name had, or at the end.
pub fn put_entry(entries: &mut Vec<(String, Tag)>, name: String, tag: Tag)
    ensures
        entry_views(final(entries)@) == upsert(entry_views(old(entries)@), name@, tag@),
{
    match find_name(entries, name.as_str()) {
        Some(i) => {
            entries.set(i, (name, tag));
            assert(entry_views(entries@) =~= entry_views(old(entries)@).update(
                i as int,
                (name@, tag@),
            ));
        },
        None => {
            entries.push((name, tag));
            assert(entry_views(entries@) =~= entry_views(old(entries)@).push((name@, tag@)));
        },
    }
}

} // verus!
