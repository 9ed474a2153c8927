//! The failures that decoding and extraction report.

use vstd::prelude::*;
use crate::tag::TagKind;

verus! {

/// Why a buffer is not a record: the first violation of the grammar met while reading it.
#[derive(Clone, Copy, Debug, PartialEq, Eq, Structural)]
pub enum DecodeError {
    /// A type byte, a length, a name or a payload would reach past the end of the buffer.
    Truncated,
    /// A type byte that the grammar does not allow where it stands: one above 12,
    /// one other than a compound's at the root, or that of an end tag as the
    /// type of the items of a list that is not empty.
    InvalidType,
    /// A name or a string payload that is not UTF-8.
    InvalidString,
    /// A declared length that is negative.
    InvalidLength,
    /// Lists and compounds nested deeper than the limit.
    DepthExceeded,
}

/// Why a record cannot be made from a well-formed tag tree.
#[derive(Clone, Copy, Debug, PartialEq, Eq, Structural)]
pub enum ExtractionError {
    /// A field is not in the compound.
    FieldMissing,
    /// A tag is of another kind than the one asked for.
    TypeMismatch { expected: TagKind, actual: TagKind },
    /// A list that is not made of exactly three doubles.
    InvalidShape,
}

/// Why a file's content yields no record.
#[derive(Clone, Copy, Debug, PartialEq, Eq, Structural)]
pub enum NBTError {
    /// The content is not a valid compressed stream.
    Decompression,
    /// The decompressed bytes are not a record.
    Decode(DecodeError),
    /// The record lacks a field, or holds it in another shape.
    Extraction(ExtractionError),
}

} // verus!
