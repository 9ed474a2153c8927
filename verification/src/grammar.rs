//! The grammar of a record, as a function from a buffer to the tree it holds.
//!
//! Every function here reads forward from a position and says how many bytes it
//! used, or which violation it met first.

use vstd::prelude::*;
use vstd::utf8::{decode_utf8, valid_utf8};
use crate::bytes::{has_bytes, i16_at, i32_at, i64_at, i8_at, u16_at, u32_at, u64_at};
use crate::error::DecodeError;
use crate::tag::{kind_of_id, upsert, TagKind, TagValue};

verus! {

/// A string: a two-byte unsigned length, then that many bytes of UTF-8.
pub open spec fn parse_string(b: Seq<u8>, pos: int) -> Result<(Seq<char>, nat), DecodeError> {
    if !has_bytes(b, pos, 2) {
        Err(DecodeError::Truncated)
    } else {
        let n = u16_at(b, pos);
        if !has_bytes(b, pos + 2, n) {
            Err(DecodeError::Truncated)
        } else if !valid_utf8(b.subrange(pos + 2, pos + 2 + n)) {
            Err(DecodeError::InvalidString)
        } else {
            Ok((decode_utf8(b.subrange(pos + 2, pos + 2 + n)), (2 + n) as nat))
        }
    }
}

/// A count: a four-byte signed integer that is not negative.
pub open spec fn parse_count(b: Seq<u8>, pos: int) -> Result<nat, DecodeError> {
    if !has_bytes(b, pos, 4) {
        Err(DecodeError::Truncated)
    } else if i32_at(b, pos) < 0 {
        Err(DecodeError::InvalidLength)
    } else {
        Ok(i32_at(b, pos) as nat)
    }
}

/// The bytes that are left in `b` from `pos` on.
pub open spec fn remaining(b: Seq<u8>, pos: int) -> nat {
    if 0 <= pos <= b.len() {
        (b.len() - pos) as nat
    } else {
        0
    }
}

/// The payload of a tag of kind `kind` that starts at `pos`, and the bytes it takes.
///
/// `fuel` is the number of levels of lists and compounds that may still be
/// entered: a list or a compound met with none left exceeds the depth. A list
/// states the type of its items and their count even where it is empty. An end
/// tag is no item, so a list declared of end tags with a count above 0 has an
/// invalid type.
pub open spec fn parse_payload(b: Seq<u8>, pos: int, kind: TagKind, fuel: nat) -> Result<
    (TagValue, nat),
    DecodeError,
>
    decreases fuel, 0nat,
{
    match kind {
        TagKind::End => Ok((TagValue::End, 0)),
        TagKind::Byte => if !has_bytes(b, pos, 1) {
            Err(DecodeError::Truncated)
        } else {
            Ok((TagValue::Byte(i8_at(b, pos)), 1))
        },
        TagKind::Short => if !has_bytes(b, pos, 2) {
            Err(DecodeError::Truncated)
        } else {
            Ok((TagValue::Short(i16_at(b, pos)), 2))
        },
        TagKind::Int => if !has_bytes(b, pos, 4) {
            Err(DecodeError::Truncated)
        } else {
            Ok((TagValue::Int(i32_at(b, pos)), 4))
        },
        TagKind::Long => if !has_bytes(b, pos, 8) {
            Err(DecodeError::Truncated)
        } else {
            Ok((TagValue::Long(i64_at(b, pos)), 8))
        },
        TagKind::Float => if !has_bytes(b, pos, 4) {
            Err(DecodeError::Truncated)
        } else {
            Ok((TagValue::Float(u32_at(b, pos) as u32), 4))
        },
        TagKind::Double => if !has_bytes(b, pos, 8) {
            Err(DecodeError::Truncated)
        } else {
            Ok((TagValue::Double(u64_at(b, pos) as u64), 8))
        },
        TagKind::ByteArray => match parse_count(b, pos) {
            Err(e) => Err(e),
            Ok(n) => if !has_bytes(b, pos + 4, n as int) {
                Err(DecodeError::Truncated)
            } else {
                Ok((TagValue::ByteArray(Seq::new(n, |i: int| i8_at(b, pos + 4 + i))), 4 + n))
            },
        },
        TagKind::String => match parse_string(b, pos) {
            Err(e) => Err(e),
            Ok((s, used)) => Ok((TagValue::String(s), used)),
        },
        TagKind::List => if fuel == 0 {
            Err(DecodeError::DepthExceeded)
        } else if !has_bytes(b, pos, 1) {
            Err(DecodeError::Truncated)
        } else {
            match kind_of_id(b[pos]) {
                None => Err(DecodeError::InvalidType),
                Some(item_kind) => match parse_count(b, pos + 1) {
                    Err(e) => Err(e),
                    Ok(n) => if item_kind == TagKind::End && n > 0 {
                        Err(DecodeError::InvalidType)
                    } else {
                        match parse_items(b, pos + 5, item_kind, n, (fuel - 1) as nat, Seq::empty()) {
                            Err(e) => Err(e),
                            Ok((items, used)) => Ok((TagValue::List(item_kind, items), 5 + used)),
                        }
                    },
                },
            }
        },
        TagKind::Compound => if fuel == 0 {
            Err(DecodeError::DepthExceeded)
        } else {
            match parse_entries(b, pos, (fuel - 1) as nat, Seq::empty()) {
                Err(e) => Err(e),
                Ok((entries, used)) => Ok((TagValue::Compound(entries), used)),
            }
        },
        TagKind::IntArray => match parse_count(b, pos) {
            Err(e) => Err(e),
            Ok(n) => if !has_bytes(b, pos + 4, 4 * (n as int)) {
                Err(DecodeError::Truncated)
            } else {
                Ok((TagValue::IntArray(Seq::new(n, |i: int| i32_at(b, pos + 4 + 4 * i))), 4 + 4 * n))
            },
        },
        TagKind::LongArray => match parse_count(b, pos) {
            Err(e) => Err(e),
            Ok(n) => if !has_bytes(b, pos + 4, 8 * (n as int)) {
                Err(DecodeError::Truncated)
            } else {
                Ok((TagValue::LongArray(Seq::new(n, |i: int| i64_at(b, pos + 4 + 8 * i))), 4 + 8 * n))
            },
        },
    }
}

/// The `count` unnamed payloads of kind `kind` that start at `pos`, put behind `done`.
pub open spec fn parse_items(
    b: Seq<u8>,
    pos: int,
    kind: TagKind,
    count: nat,
    fuel: nat,
    done: Seq<TagValue>,
) -> Result<(Seq<TagValue>, nat), DecodeError>
    decreases fuel, count + 1,
{
    if count == 0 {
        Ok((done, 0))
    } else {
        match parse_payload(b, pos, kind, fuel) {
            Err(e) => Err(e),
            Ok((item, used)) => match parse_items(
                b,
                pos + used,
                kind,
                (count - 1) as nat,
                fuel,
                done.push(item),
            ) {
                Err(e) => Err(e),
                Ok((items, more)) => Ok((items, used + more)),
            },
        }
    }
}

/// The named tags that start at `pos`, up to and with the type byte 0 that ends
/// them, put into `done`. A name that occurs again replaces the value it had.
pub open spec fn parse_entries(b: Seq<u8>, pos: int, fuel: nat, done: Seq<(Seq<char>, TagValue)>) -> Result<
    (Seq<(Seq<char>, TagValue)>, nat),
    DecodeError,
>
    decreases fuel, remaining(b, pos) + 1,
{
    if !has_bytes(b, pos, 1) {
        Err(DecodeError::Truncated)
    } else {
        match kind_of_id(b[pos]) {
            None => Err(DecodeError::InvalidType),
            Some(kind) => if kind == TagKind::End {
                Ok((done, 1))
            } else {
                match parse_string(b, pos + 1) {
                    Err(e) => Err(e),
                    Ok((name, name_used)) => match parse_payload(b, pos + 1 + name_used, kind, fuel) {
                        Err(e) => Err(e),
                        Ok((value, used)) => match parse_entries(
                            b,
                            pos + 1 + name_used + used,
                            fuel,
                            upsert(done, name, value),
                        ) {
                            Err(e) => Err(e),
                            Ok((entries, more)) => Ok((entries, 1 + name_used + used + more)),
                        },
                    },
                }
            },
        }
    }
}

/// The root of a record: the type byte of a compound, a name, and the compound's
/// payload. Any other type byte at the start is an invalid type. The name is
/// read and dropped; what follows the root is not looked at.
pub open spec fn parse_root(b: Seq<u8>, max_depth: nat) -> Result<(TagValue, nat), DecodeError> {
    if !has_bytes(b, 0, 1) {
        Err(DecodeError::Truncated)
    } else if kind_of_id(b[0]) != Some(TagKind::Compound) {
        Err(DecodeError::InvalidType)
    } else {
        match parse_string(b, 1) {
            Err(e) => Err(e),
            Ok((name, name_used)) => match parse_payload(
                b,
                1 + name_used as int,
                TagKind::Compound,
                max_depth,
            ) {
                Err(e) => Err(e),
                Ok((root, used)) => Ok((root, 1 + name_used + used)),
            },
        }
    }
}

/// The tree that a buffer holds, or the first violation of the grammar in it.
pub open spec fn decoded(b: Seq<u8>, max_depth: nat) -> Result<TagValue, DecodeError> {
    match parse_root(b, max_depth) {
        Err(e) => Err(e),
        Ok((root, used)) => Ok(root),
    }
}

} // verus!
