//! The decoder: one forward pass over a buffer, following the grammar from a cursor.

use vstd::prelude::*;
use crate::bytes::{
    i32_at, i64_at, i8_at, read_i16, read_i32, read_i64, read_i8, read_u16, read_u32,
    read_u64,
};
use crate::error::DecodeError;
use crate::grammar::{
    decoded, parse_count, parse_entries, parse_items, parse_payload, parse_root, parse_string,
};
use crate::laws::lemma_parsed_root;
use crate::tag::{entry_views, put_entry, tag_views, Tag, TagKind, TagValue};
use crate::text::text_at;

verus! {

/// The depth of nesting that [`decode`] allows.
pub const MAX_DEPTH: usize = 512;

/// A result that counts `by` more bytes.
pub open spec fn shifted<T>(r: Result<(T, nat), DecodeError>, by: nat) -> Result<(T, nat), DecodeError> {
    match r {
        Ok((x, used)) => Ok((x, used + by)),
        Err(e) => Err(e),
    }
}

/// Whether the cursor that a step returns lies between `pos` and the end of the buffer.
pub open spec fn cursor_ok<T>(r: Result<(T, usize), DecodeError>, pos: usize, len: nat) -> bool {
    r matches Ok((x, next)) ==> pos <= next <= len
}

fn decode_string(buf: &[u8], pos: usize) -> (r: Result<(String, usize), DecodeError>)
    requires
        pos <= buf@.len(),
    ensures
        cursor_ok(r, pos, buf@.len()),
        r matches Ok((s, next)) ==> parse_string(buf@, pos as int) == Ok::<(Seq<char>, nat), DecodeError>(
            (s@, (next - pos) as nat),
        ),
        r matches Err(e) ==> parse_string(buf@, pos as int) == Err::<(Seq<char>, nat), DecodeError>(e),
{
    let len = buf.len();
    if len - pos < 2 {
        return Err(DecodeError::Truncated);
    }
    let n: usize = read_u16(buf, pos) as usize;
    if len - pos - 2 < n {
        return Err(DecodeError::Truncated);
    }
    match text_at(buf, pos + 2, pos + 2 + n) {
        Some(s) => Ok((s, pos + 2 + n)),
        None => Err(DecodeError::InvalidString),
    }
}

fn decode_count(buf: &[u8], pos: usize) -> (r: Result<usize, DecodeError>)
    requires
        pos <= buf@.len(),
    ensures
        r matches Ok(n) ==> parse_count(buf@, pos as int) == Ok::<nat, DecodeError>(n as nat) && pos + 4
            <= buf@.len() && n <= i32::MAX,
        r matches Err(e) ==> parse_count(buf@, pos as int) == Err::<nat, DecodeError>(e),
{
    if buf.len() - pos < 4 {
        return Err(DecodeError::Truncated);
    }
    let n: i32 = read_i32(buf, pos);
    if n < 0 {
        return Err(DecodeError::InvalidLength);
    }
    Ok(n as usize)
}

fn decode_byte_array(buf: &[u8], pos: usize) -> (r: Result<(Tag, usize), DecodeError>)
    requires
        pos <= buf@.len(),
    ensures
        cursor_ok(r, pos, buf@.len()),
        r matches Ok((t, next)) ==> parse_payload(buf@, pos as int, TagKind::ByteArray, 0) == Ok::<
            (TagValue, nat),
            DecodeError,
        >((t@, (next - pos) as nat)),
        r matches Err(e) ==> parse_payload(buf@, pos as int, TagKind::ByteArray, 0) == Err::<
            (TagValue, nat),
            DecodeError,
        >(e),
{
    let len: usize = buf.len();
    let n: usize = match decode_count(buf, pos) {
        Ok(n) => n,
        Err(e) => { return Err(e); },
    };
    let start: usize = pos + 4;
    if len - start < n {
        return Err(DecodeError::Truncated);
    }
    let mut out: Vec<i8> = Vec::new();
    let mut i: usize = 0;
    while i < n
        invariant
            i <= n,
            start + n <= len == buf@.len(),
            out@.len() == i,
            forall|j: int| 0 <= j < i ==> out@[j] == i8_at(buf@, start + j),
        decreases n - i,
    {
        out.push(read_i8(buf, start + i));
        i += 1;
    }
    assert(out@ =~= Seq::new(n as nat, |j: int| i8_at(buf@, pos + 4 + j)));
    Ok((Tag::ByteArray(out), start + n))
}

fn decode_int_array(buf: &[u8], pos: usize) -> (r: Result<(Tag, usize), DecodeError>)
    requires
        pos <= buf@.len(),
    ensures
        cursor_ok(r, pos, buf@.len()),
        r matches Ok((t, next)) ==> parse_payload(buf@, pos as int, TagKind::IntArray, 0) == Ok::<
            (TagValue, nat),
            DecodeError,
        >((t@, (next - pos) as nat)),
        r matches Err(e) ==> parse_payload(buf@, pos as int, TagKind::IntArray, 0) == Err::<
            (TagValue, nat),
            DecodeError,
        >(e),
{
    let len: usize = buf.len();
    let n: usize = match decode_count(buf, pos) {
        Ok(n) => n,
        Err(e) => { return Err(e); },
    };
    let start: usize = pos + 4;
    if (len - start) / 4 < n {
        return Err(DecodeError::Truncated);
    }
    let mut out: Vec<i32> = Vec::new();
    let mut i: usize = 0;
    while i < n
        invariant
            i <= n,
            start + 4 * n <= len == buf@.len(),
            out@.len() == i,
            forall|j: int| 0 <= j < i ==> out@[j] == i32_at(buf@, start + 4 * j),
        decreases n - i,
    {
        out.push(read_i32(buf, start + 4 * i));
        i += 1;
    }
    assert(out@ =~= Seq::new(n as nat, |j: int| i32_at(buf@, pos + 4 + 4 * j)));
    Ok((Tag::IntArray(out), start + 4 * n))
}

fn decode_long_array(buf: &[u8], pos: usize) -> (r: Result<(Tag, usize), DecodeError>)
    requires
        pos <= buf@.len(),
    ensures
        cursor_ok(r, pos, buf@.len()),
        r matches Ok((t, next)) ==> parse_payload(buf@, pos as int, TagKind::LongArray, 0) == Ok::<
            (TagValue, nat),
            DecodeError,
        >((t@, (next - pos) as nat)),
        r matches Err(e) ==> parse_payload(buf@, pos as int, TagKind::LongArray, 0) == Err::<
            (TagValue, nat),
            DecodeError,
        >(e),
{
    let len: usize = buf.len();
    let n: usize = match decode_count(buf, pos) {
        Ok(n) => n,
        Err(e) => { return Err(e); },
    };
    let start: usize = pos + 4;
    if (len - start) / 8 < n {
        return Err(DecodeError::Truncated);
    }
    let mut out: Vec<i64> = Vec::new();
    let mut i: usize = 0;
    while i < n
        invariant
            i <= n,
            start + 8 * n <= len == buf@.len(),
            out@.len() == i,
            forall|j: int| 0 <= j < i ==> out@[j] == i64_at(buf@, start + 8 * j),
        decreases n - i,
    {
        out.push(read_i64(buf, start + 8 * i));
        i += 1;
    }
    assert(out@ =~= Seq::new(n as nat, |j: int| i64_at(buf@, pos + 4 + 8 * j)));
    Ok((Tag::LongArray(out), start + 8 * n))
}

fn decode_items(buf: &[u8], pos: usize, kind: TagKind, count: usize, fuel: usize) -> (r: Result<
    (Vec<Tag>, usize),
    DecodeError,
>)
    requires
        pos <= buf@.len(),
    ensures
        cursor_ok(r, pos, buf@.len()),
        r matches Ok((items, next)) ==> parse_items(
            buf@,
            pos as int,
            kind,
            count as nat,
            fuel as nat,
            Seq::empty(),
        ) == Ok::<(Seq<TagValue>, nat), DecodeError>((tag_views(items@), (next - pos) as nat)),
        r matches Err(e) ==> parse_items(
            buf@,
            pos as int,
            kind,
            count as nat,
            fuel as nat,
            Seq::empty(),
        ) == Err::<(Seq<TagValue>, nat), DecodeError>(e),
    decreases fuel, 1nat,
{
    let mut items: Vec<Tag> = Vec::new();
    let mut cur: usize = pos;
    let mut i: usize = 0;
    assert(tag_views(items@) =~= Seq::empty());
    while i < count
        invariant
            i <= count,
            pos <= cur <= buf@.len(),
            shifted(
                parse_items(
                    buf@,
                    cur as int,
                    kind,
                    (count - i) as nat,
                    fuel as nat,
                    tag_views(items@),
                ),
                (cur - pos) as nat,
            ) == parse_items(buf@, pos as int, kind, count as nat, fuel as nat, Seq::empty()),
        decreases count - i,
    {
        match decode_payload(buf, cur, kind, fuel) {
            Err(e) => {
                return Err(e);
            },
            Ok((tag, next)) => {
                assert(tag_views(items@.push(tag)) =~= tag_views(items@).push(tag@));
                items.push(tag);
                cur = next;
                i += 1;
            },
        }
    }
    Ok((items, cur))
}

fn decode_entries(buf: &[u8], pos: usize, fuel: usize) -> (r: Result<
    (Vec<(String, Tag)>, usize),
    DecodeError,
>)
    requires
        pos <= buf@.len(),
    ensures
        cursor_ok(r, pos, buf@.len()),
        r matches Ok((entries, next)) ==> parse_entries(buf@, pos as int, fuel as nat, Seq::empty())
            == Ok::<(Seq<(Seq<char>, TagValue)>, nat), DecodeError>(
            (entry_views(entries@), (next - pos) as nat),
        ),
        r matches Err(e) ==> parse_entries(buf@, pos as int, fuel as nat, Seq::empty()) == Err::<
            (Seq<(Seq<char>, TagValue)>, nat),
            DecodeError,
        >(e),
    decreases fuel, 1nat,
{
    let len: usize = buf.len();
    let mut entries: Vec<(String, Tag)> = Vec::new();
    let mut cur: usize = pos;
    assert(entry_views(entries@) =~= Seq::empty());
    loop
        invariant
            pos <= cur <= len == buf@.len(),
            shifted(
                parse_entries(buf@, cur as int, fuel as nat, entry_views(entries@)),
                (cur - pos) as nat,
            ) == parse_entries(buf@, pos as int, fuel as nat, Seq::empty()),
        decreases len - cur,
    {
        if len - cur < 1 {
            return Err(DecodeError::Truncated);
        }
        let kind = match TagKind::from_id(buf[cur]) {
            None => {
                return Err(DecodeError::InvalidType);
            },
            Some(kind) => kind,
        };
        if kind == TagKind::End {
            return Ok((entries, cur + 1));
        }
        let (name, after_name) = match decode_string(buf, cur + 1) {
            Err(e) => {
                return Err(e);
            },
            Ok(named) => named,
        };
        let (tag, next) = match decode_payload(buf, after_name, kind, fuel) {
            Err(e) => {
                return Err(e);
            },
            Ok(valued) => valued,
        };
        put_entry(&mut entries, name, tag);
        cur = next;
    }
}

fn decode_payload(buf: &[u8], pos: usize, kind: TagKind, fuel: usize) -> (r: Result<
    (Tag, usize),
    DecodeError,
>)
    requires
        pos <= buf@.len(),
    ensures
        cursor_ok(r, pos, buf@.len()),
        r matches Ok((t, next)) ==> parse_payload(buf@, pos as int, kind, fuel as nat) == Ok::<
            (TagValue, nat),
            DecodeError,
        >((t@, (next - pos) as nat)),
        r matches Err(e) ==> parse_payload(buf@, pos as int, kind, fuel as nat) == Err::<
            (TagValue, nat),
            DecodeError,
        >(e),
    decreases fuel, 0nat,
{
    let len: usize = buf.len();
    match kind {
        TagKind::End => Ok((Tag::End, pos)),
        TagKind::Byte => {
            if len - pos < 1 {
                return Err(DecodeError::Truncated);
            }
            Ok((Tag::Byte(read_i8(buf, pos)), pos + 1))
        },
        TagKind::Short => {
            if len - pos < 2 {
                return Err(DecodeError::Truncated);
            }
            Ok((Tag::Short(read_i16(buf, pos)), pos + 2))
        },
        TagKind::Int => {
            if len - pos < 4 {
                return Err(DecodeError::Truncated);
            }
            Ok((Tag::Int(read_i32(buf, pos)), pos + 4))
        },
        TagKind::Long => {
            if len - pos < 8 {
                return Err(DecodeError::Truncated);
            }
            Ok((Tag::Long(read_i64(buf, pos)), pos + 8))
        },
        TagKind::Float => {
            if len - pos < 4 {
                return Err(DecodeError::Truncated);
            }
            Ok((Tag::Float(read_u32(buf, pos)), pos + 4))
        },
        TagKind::Double => {
            if len - pos < 8 {
                return Err(DecodeError::Truncated);
            }
            Ok((Tag::Double(read_u64(buf, pos)), pos + 8))
        },
        TagKind::ByteArray => decode_byte_array(buf, pos),
        TagKind::String => match decode_string(buf, pos) {
            Err(e) => Err(e),
            Ok((s, next)) => Ok((Tag::String(s), next)),
        },
        TagKind::List => {
            if fuel == 0 {
                return Err(DecodeError::DepthExceeded);
            }
            if len - pos < 1 {
                return Err(DecodeError::Truncated);
            }
            let item_kind = match TagKind::from_id(buf[pos]) {
                None => {
                    return Err(DecodeError::InvalidType);
                },
                Some(k) => k,
            };
            let count: usize = match decode_count(buf, pos + 1) {
                Err(e) => {
                    return Err(e);
                },
                Ok(n) => n,
            };
            if item_kind == TagKind::End && count > 0 {
                return Err(DecodeError::InvalidType);
            }
            match decode_items(buf, pos + 5, item_kind, count, fuel - 1) {
                Err(e) => Err(e),
                Ok((items, next)) => Ok((Tag::List(item_kind, items), next)),
            }
        },
        TagKind::Compound => {
            if fuel == 0 {
                return Err(DecodeError::DepthExceeded);
            }
            match decode_entries(buf, pos, fuel - 1) {
                Err(e) => Err(e),
                Ok((entries, next)) => Ok((Tag::Compound(entries), next)),
            }
        },
        TagKind::IntArray => decode_int_array(buf, pos),
        TagKind::LongArray => decode_long_array(buf, pos),
    }
}

/// Decodes the record at the start of `buffer`, entering at most `max_depth`
/// levels of lists and compounds, the root among them. Returns the root
/// compound and the number of bytes that the record takes.
pub fn decode_prefix(buffer: &[u8], max_depth: usize) -> (r: Result<(Tag, usize), DecodeError>)
    ensures
        r matches Ok((root, used)) ==> parse_root(buffer@, max_depth as nat) == Ok::<
            (TagValue, nat),
            DecodeError,
        >((root@, used as nat)) && used <= buffer@.len(),
        r matches Ok((root, used)) ==> root@ is Compound && root@.well_formed()
            && root@.fits_depth(max_depth as nat),
        r matches Err(e) ==> parse_root(buffer@, max_depth as nat) == Err::<
            (TagValue, nat),
            DecodeError,
        >(e),
{
    proof {
        if parse_root(buffer@, max_depth as nat) is Ok {
            lemma_parsed_root(buffer@, max_depth as nat);
        }
    }
    if buffer.len() < 1 {
        return Err(DecodeError::Truncated);
    }
    match TagKind::from_id(buffer[0]) {
        Some(TagKind::Compound) => {},
        _ => {
            return Err(DecodeError::InvalidType);
        },
    }
    let after_name: usize = match decode_string(buffer, 1) {
        Err(e) => {
            return Err(e);
        },
        Ok((_, next)) => next,
    };
    decode_payload(buffer, after_name, TagKind::Compound, max_depth)
}

/// Decodes the record at the start of `buffer`, entering at most `max_depth`
/// levels of lists and compounds, the root among them.
pub fn decode_with_limit(buffer: &[u8], max_depth: usize) -> (r: Result<Tag, DecodeError>)
    ensures
        r matches Ok(root) ==> decoded(buffer@, max_depth as nat) == Ok::<TagValue, DecodeError>(
            root@,
        ),
        r matches Ok(root) ==> root@ is Compound && root@.well_formed() && root@.fits_depth(
            max_depth as nat,
        ),
        r matches Err(e) ==> decoded(buffer@, max_depth as nat) == Err::<TagValue, DecodeError>(e),
{
    match decode_prefix(buffer, max_depth) {
        Ok((root, _)) => Ok(root),
        Err(e) => Err(e),
    }
}

/// Decodes the record at the start of `buffer`, with nesting up to [`MAX_DEPTH`].
pub fn decode(buffer: &[u8]) -> (r: Result<Tag, DecodeError>)
    ensures
        r matches Ok(root) ==> decoded(buffer@, MAX_DEPTH as nat) == Ok::<TagValue, DecodeError>(
            root@,
        ),
        r matches Ok(root) ==> root@ is Compound && root@.well_formed() && root@.fits_depth(
            MAX_DEPTH as nat,
        ),
        r matches Err(e) ==> decoded(buffer@, MAX_DEPTH as nat) == Err::<TagValue, DecodeError>(e),
{
    decode_with_limit(buffer, MAX_DEPTH)
}

} // verus!
