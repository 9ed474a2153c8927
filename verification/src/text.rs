//! Text: from bytes to strings, and the comparison of names.

use vstd::prelude::*;
use vstd::slice::{slice_subrange, slice_to_vec};
use vstd::string::StringSliceAdditionalSpecFns;
use vstd::utf8::{decode_utf8, encode_utf8, encode_utf8_decode_utf8, valid_utf8};

verus! {

/// The error of `String::from_utf8`, which nothing here looks into.
#[verifier::external_type_specification]
#[verifier::external_body]
pub struct ExFromUtf8Error(std::string::FromUtf8Error);

/// `String::from_utf8` succeeds exactly on valid UTF-8, and the string it gives
/// is made of the characters that the bytes encode.
pub assume_specification[ std::string::String::from_utf8 ](vec: std::vec::Vec<u8>) -> (r: Result<
    std::string::String,
    std::string::FromUtf8Error,
>)
    ensures
        r is Ok <==> valid_utf8(vec@),
        r matches Ok(s) ==> s@ == decode_utf8(vec@),
;

/// The text that the bytes of `buf` from `from` up to `to` encode, if they are UTF-8.
pub fn text_at(buf: &[u8], from: usize, to: usize) -> (r: Option<String>)
    requires
        from <= to <= buf@.len(),
    ensures
        r is Some <==> valid_utf8(buf@.subrange(from as int, to as int)),
        r matches Some(s) ==> s@ == decode_utf8(buf@.subrange(from as int, to as int)),
{
    let raw = slice_to_vec(slice_subrange(buf, from, to));
    match String::from_utf8(raw) {
        Ok(s) => Some(s),
        Err(_) => None,
    }
}

/// Whether two strings are made of the same characters.
pub fn same_text(a: &str, b: &str) -> (r: bool)
    ensures
        r == (a@ == b@),
{
    let x = a.as_bytes();
    let y = b.as_bytes();
    proof {
        encode_utf8_decode_utf8(a@);
        encode_utf8_decode_utf8(b@);
    }
    if x.len() != y.len() {
        return false;
    }
    let mut i: usize = 0;
    while i < x.len()
        invariant
            i <= x@.len(),
            x@.len() == y@.len(),
            forall|j: int| 0 <= j < i ==> x@[j] == y@[j],
            a@ != b@ ==> x@ != y@,
            x@ == encode_utf8(a@),
            y@ == encode_utf8(b@),
        decreases x@.len() - i,
    {
        if x[i] != y[i] {
            return false;
        }
        i += 1;
    }
    assert(x@ =~= y@);
    true
}

} // verus!
