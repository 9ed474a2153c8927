//! Decoding undoes encoding: the record made from a well-formed tree decodes to
//! that tree, whatever follows it in the buffer.

use vstd::prelude::*;
use vstd::utf8::{encode_utf8, encode_utf8_decode_utf8, encode_utf8_valid_utf8};
use crate::bytes::{i32_at, i64_at, i8_at, u16_at, u32_at, u64_at};
use crate::encode::{
    be_bytes2, be_bytes4, be_bytes8, encode_entries, encode_items, encode_payload, encode_root,
    encode_string, text_fits, unique_names, unsigned,
};
use crate::error::DecodeError;
use crate::grammar::{
    decoded, parse_count, parse_entries, parse_items, parse_payload, parse_root, parse_string,
};
use crate::laws::{lemma_position_from, lemma_truncation};
use crate::tag::{kind_id, kind_of_id, position, upsert, TagKind, TagValue};

verus! {

/// Whether the bytes `x` stand in `b` from position `pos` on.
pub open spec fn holds(b: Seq<u8>, pos: int, x: Seq<u8>) -> bool {
    0 <= pos && pos + x.len() <= b.len() && b.subrange(pos, pos + x.len()) == x
}

/// A byte of what stands in the buffer is the byte of the buffer at its place.
pub proof fn lemma_holds_index(b: Seq<u8>, pos: int, x: Seq<u8>, i: int)
    requires
        holds(b, pos, x),
        0 <= i < x.len(),
    ensures
        b[pos + i] == x[i],
{
    assert(b.subrange(pos, pos + x.len())[i] == b[pos + i]);
}

/// Where two runs of bytes stand one behind the other, each stands in its place.
pub proof fn lemma_holds_split(b: Seq<u8>, pos: int, x: Seq<u8>, y: Seq<u8>)
    requires
        holds(b, pos, x + y),
    ensures
        holds(b, pos, x),
        holds(b, pos + x.len(), y),
{
    let whole = b.subrange(pos, pos + (x + y).len());
    assert forall|i: int| 0 <= i < x.len() implies b.subrange(pos, pos + x.len())[i] == x[i] by {
        assert(whole[i] == (x + y)[i]);
    }
    assert(b.subrange(pos, pos + x.len()) =~= x);
    assert forall|i: int| 0 <= i < y.len() implies b.subrange(
        pos + x.len(),
        pos + x.len() + y.len(),
    )[i] == y[i] by {
        assert(whole[x.len() + i] == (x + y)[x.len() + i]);
    }
    assert(b.subrange(pos + x.len(), pos + x.len() + y.len()) =~= y);
}

/// Where one run of bytes stands behind another, the two stand there as one.
pub proof fn lemma_holds_join(b: Seq<u8>, pos: int, x: Seq<u8>, y: Seq<u8>)
    requires
        holds(b, pos, x),
        holds(b, pos + x.len(), y),
    ensures
        holds(b, pos, x + y),
{
    assert forall|i: int| 0 <= i < (x + y).len() implies b.subrange(pos, pos + (x + y).len())[i]
        == (x + y)[i] by {
        if i < x.len() {
            lemma_holds_index(b, pos, x, i);
        } else {
            lemma_holds_index(b, pos + x.len(), y, i - x.len());
        }
    }
    assert(b.subrange(pos, pos + (x + y).len()) =~= x + y);
}

/// The two bytes of an unsigned 16-bit integer read back as that integer.
pub proof fn lemma_u16_value(b: Seq<u8>, pos: int, x: int)
    requires
        0 <= x < 0x1_0000,
        holds(b, pos, be_bytes2(x)),
    ensures
        u16_at(b, pos) == x,
{
    lemma_holds_index(b, pos, be_bytes2(x), 0);
    lemma_holds_index(b, pos, be_bytes2(x), 1);
}

/// The four bytes of an unsigned 32-bit integer read back as that integer.
pub proof fn lemma_u32_value(b: Seq<u8>, pos: int, x: int)
    requires
        0 <= x < 0x1_0000_0000,
        holds(b, pos, be_bytes4(x)),
    ensures
        u32_at(b, pos) == x,
{
    lemma_holds_split(b, pos, be_bytes2(x / 0x1_0000), be_bytes2(x % 0x1_0000));
    lemma_u16_value(b, pos, x / 0x1_0000);
    lemma_u16_value(b, pos + 2, x % 0x1_0000);
}

/// The eight bytes of an unsigned 64-bit integer read back as that integer.
pub proof fn lemma_u64_value(b: Seq<u8>, pos: int, x: int)
    requires
        0 <= x < 0x1_0000_0000_0000_0000,
        holds(b, pos, be_bytes8(x)),
    ensures
        u64_at(b, pos) == x,
{
    lemma_holds_split(b, pos, be_bytes4(x / 0x1_0000_0000), be_bytes4(x % 0x1_0000_0000));
    lemma_u32_value(b, pos, x / 0x1_0000_0000);
    lemma_u32_value(b, pos + 4, x % 0x1_0000_0000);
}

/// An encoded string reads back as its text.
pub proof fn lemma_string_round_trip(b: Seq<u8>, pos: int, text: Seq<char>)
    requires
        text_fits(text),
        holds(b, pos, encode_string(text)),
    ensures
        parse_string(b, pos) == Ok::<(Seq<char>, nat), DecodeError>(
            (text, encode_string(text).len()),
        ),
{
    let raw = encode_utf8(text);
    lemma_holds_split(b, pos, be_bytes2(raw.len() as int), raw);
    lemma_u16_value(b, pos, raw.len() as int);
    encode_utf8_valid_utf8(text);
    encode_utf8_decode_utf8(text);
}

/// An encoded count reads back as the count.
pub proof fn lemma_count_round_trip(b: Seq<u8>, pos: int, n: nat)
    requires
        n <= i32::MAX,
        holds(b, pos, be_bytes4(n as int)),
    ensures
        parse_count(b, pos) == Ok::<nat, DecodeError>(n),
{
    lemma_u32_value(b, pos, n as int);
}

/// The type id of a kind stands for that kind.
pub proof fn lemma_kind_id(kind: TagKind)
    ensures
        kind_of_id(kind_id(kind)) == Some(kind),
{
}

/// An encoded number reads back as that number.
pub proof fn lemma_number_round_trip(b: Seq<u8>, pos: int, value: TagValue, fuel: nat)
    requires
        value is Byte || value is Short || value is Int || value is Long || value is Float
            || value is Double,
        holds(b, pos, encode_payload(value)),
    ensures
        parse_payload(b, pos, value.kind(), fuel) == Ok::<(TagValue, nat), DecodeError>(
            (value, encode_payload(value).len()),
        ),
{
    match value {
        TagValue::Byte(v) => {
            lemma_holds_index(b, pos, encode_payload(value), 0);
        },
        TagValue::Short(v) => {
            lemma_u16_value(b, pos, unsigned(v as int, 0x8000));
        },
        TagValue::Int(v) => {
            lemma_u32_value(b, pos, unsigned(v as int, 0x8000_0000));
        },
        TagValue::Long(v) => {
            lemma_u64_value(b, pos, unsigned(v as int, 0x8000_0000_0000_0000));
        },
        TagValue::Float(bits) => {
            lemma_u32_value(b, pos, bits as int);
        },
        TagValue::Double(bits) => {
            lemma_u64_value(b, pos, bits as int);
        },
        _ => {},
    }
}

/// An encoded array of bytes reads back as that array.
pub proof fn lemma_byte_array_round_trip(b: Seq<u8>, pos: int, bytes: Seq<i8>, fuel: nat)
    requires
        bytes.len() <= i32::MAX,
        holds(b, pos, encode_payload(TagValue::ByteArray(bytes))),
    ensures
        parse_payload(b, pos, TagKind::ByteArray, fuel) == Ok::<(TagValue, nat), DecodeError>(
            (TagValue::ByteArray(bytes), encode_payload(TagValue::ByteArray(bytes)).len()),
        ),
{
    let n = bytes.len();
    let body = Seq::new(n, |i: int| unsigned(bytes[i] as int, 0x80) as u8);
    lemma_holds_split(b, pos, be_bytes4(n as int), body);
    lemma_count_round_trip(b, pos, n);
    assert forall|i: int| 0 <= i < n implies i8_at(b, pos + 4 + i) == bytes[i] by {
        lemma_holds_index(b, pos + 4, body, i);
    }
    assert(Seq::new(n, |i: int| i8_at(b, pos + 4 + i)) =~= bytes);
}

/// An encoded array of ints reads back as that array.
pub proof fn lemma_int_array_round_trip(b: Seq<u8>, pos: int, ints: Seq<i32>, fuel: nat)
    requires
        ints.len() <= i32::MAX,
        holds(b, pos, encode_payload(TagValue::IntArray(ints))),
    ensures
        parse_payload(b, pos, TagKind::IntArray, fuel) == Ok::<(TagValue, nat), DecodeError>(
            (TagValue::IntArray(ints), encode_payload(TagValue::IntArray(ints)).len()),
        ),
{
    let n = ints.len();
    let body = Seq::new(
        4 * n,
        |i: int| be_bytes4(unsigned(ints[i / 4] as int, 0x8000_0000))[i % 4],
    );
    lemma_holds_split(b, pos, be_bytes4(n as int), body);
    lemma_count_round_trip(b, pos, n);
    assert forall|j: int| 0 <= j < n implies i32_at(b, pos + 4 + 4 * j) == ints[j] by {
        let x = be_bytes4(unsigned(ints[j] as int, 0x8000_0000));
        assert forall|t: int| 0 <= t < 4 implies b.subrange(
            pos + 4 + 4 * j,
            pos + 4 + 4 * j + 4,
        )[t] == x[t] by {
            lemma_holds_index(b, pos + 4, body, 4 * j + t);
            assert((4 * j + t) / 4 == j && (4 * j + t) % 4 == t);
        }
        assert(b.subrange(pos + 4 + 4 * j, pos + 4 + 4 * j + 4) =~= x);
        lemma_u32_value(b, pos + 4 + 4 * j, unsigned(ints[j] as int, 0x8000_0000));
    }
    assert(Seq::new(n, |i: int| i32_at(b, pos + 4 + 4 * i)) =~= ints);
}

/// An encoded array of longs reads back as that array.
pub proof fn lemma_long_array_round_trip(b: Seq<u8>, pos: int, longs: Seq<i64>, fuel: nat)
    requires
        longs.len() <= i32::MAX,
        holds(b, pos, encode_payload(TagValue::LongArray(longs))),
    ensures
        parse_payload(b, pos, TagKind::LongArray, fuel) == Ok::<(TagValue, nat), DecodeError>(
            (TagValue::LongArray(longs), encode_payload(TagValue::LongArray(longs)).len()),
        ),
{
    let n = longs.len();
    let body = Seq::new(
        8 * n,
        |i: int| be_bytes8(unsigned(longs[i / 8] as int, 0x8000_0000_0000_0000))[i % 8],
    );
    lemma_holds_split(b, pos, be_bytes4(n as int), body);
    lemma_count_round_trip(b, pos, n);
    assert forall|j: int| 0 <= j < n implies i64_at(b, pos + 4 + 8 * j) == longs[j] by {
        let x = be_bytes8(unsigned(longs[j] as int, 0x8000_0000_0000_0000));
        assert forall|t: int| 0 <= t < 8 implies b.subrange(
            pos + 4 + 8 * j,
            pos + 4 + 8 * j + 8,
        )[t] == x[t] by {
            lemma_holds_index(b, pos + 4, body, 8 * j + t);
            assert((8 * j + t) / 8 == j && (8 * j + t) % 8 == t);
        }
        assert(b.subrange(pos + 4 + 8 * j, pos + 4 + 8 * j + 8) =~= x);
        lemma_u64_value(
            b,
            pos + 4 + 8 * j,
            unsigned(longs[j] as int, 0x8000_0000_0000_0000),
        );
    }
    assert(Seq::new(n, |i: int| i64_at(b, pos + 4 + 8 * i)) =~= longs);
}

/// An encoded payload reads back as its value, and the reading takes exactly
/// the bytes of the encoding.
pub proof fn lemma_payload_round_trip(b: Seq<u8>, pos: int, value: TagValue, fuel: nat)
    requires
        value.well_formed(),
        value.fits_depth(fuel),
        holds(b, pos, encode_payload(value)),
    ensures
        parse_payload(b, pos, value.kind(), fuel) == Ok::<(TagValue, nat), DecodeError>(
            (value, encode_payload(value).len()),
        ),
    decreases value, 0nat,
{
    match value {
        TagValue::End => {},
        TagValue::Byte(_)
        | TagValue::Short(_)
        | TagValue::Int(_)
        | TagValue::Long(_)
        | TagValue::Float(_)
        | TagValue::Double(_) => {
            lemma_number_round_trip(b, pos, value, fuel);
        },
        TagValue::ByteArray(bytes) => {
            lemma_byte_array_round_trip(b, pos, bytes, fuel);
        },
        TagValue::String(text) => {
            lemma_string_round_trip(b, pos, text);
        },
        TagValue::List(kind, items) => {
            let n = items.len();
            let head = seq![kind_id(kind)] + be_bytes4(n as int);
            lemma_holds_split(b, pos, head, encode_items(items, 0));
            lemma_holds_split(b, pos, seq![kind_id(kind)], be_bytes4(n as int));
            lemma_holds_index(b, pos, seq![kind_id(kind)], 0);
            lemma_kind_id(kind);
            lemma_count_round_trip(b, pos + 1, n);
            if kind == TagKind::End && n > 0 {
                assert(items[0].kind() == kind);
                assert(items[0].well_formed());
            }
            lemma_items_round_trip(b, pos + 5, kind, items, 0, (fuel - 1) as nat, Seq::empty());
            assert(Seq::<TagValue>::empty() + items.subrange(0, n as int) =~= items);
        },
        TagValue::Compound(entries) => {
            assert(entries.subrange(0, 0) =~= Seq::empty());
            lemma_entries_round_trip(b, pos, entries, 0, (fuel - 1) as nat);
        },
        TagValue::IntArray(ints) => {
            lemma_int_array_round_trip(b, pos, ints, fuel);
        },
        TagValue::LongArray(longs) => {
            lemma_long_array_round_trip(b, pos, longs, fuel);
        },
    }
}

/// The encoded items of a list from `from` on read back as those items, put
/// behind what was read before.
pub proof fn lemma_items_round_trip(
    b: Seq<u8>,
    pos: int,
    kind: TagKind,
    items: Seq<TagValue>,
    from: int,
    fuel: nat,
    done: Seq<TagValue>,
)
    requires
        0 <= from <= items.len(),
        forall|i: int|
            from <= i < items.len() ==> (#[trigger] items[i]).kind() == kind
                && items[i].well_formed() && items[i].fits_depth(fuel),
        holds(b, pos, encode_items(items, from)),
    ensures
        parse_items(b, pos, kind, (items.len() - from) as nat, fuel, done) == Ok::<
            (Seq<TagValue>, nat),
            DecodeError,
        >((done + items.subrange(from, items.len() as int), encode_items(items, from).len())),
    decreases items, items.len() - from,
{
    if from < items.len() {
        let item = items[from];
        lemma_holds_split(b, pos, encode_payload(item), encode_items(items, from + 1));
        lemma_payload_round_trip(b, pos, item, fuel);
        lemma_items_round_trip(
            b,
            pos + encode_payload(item).len(),
            kind,
            items,
            from + 1,
            fuel,
            done.push(item),
        );
        assert(done.push(item) + items.subrange(from + 1, items.len() as int) =~= done
            + items.subrange(from, items.len() as int));
    } else {
        assert(done + items.subrange(from, items.len() as int) =~= done);
    }
}

/// The encoded entries of a compound from `from` on, with the byte that ends
/// them, read back as the whole compound once the entries before `from` are read.
pub proof fn lemma_entries_round_trip(
    b: Seq<u8>,
    pos: int,
    entries: Seq<(Seq<char>, TagValue)>,
    from: int,
    fuel: nat,
)
    requires
        0 <= from <= entries.len(),
        unique_names(entries),
        forall|i: int|
            0 <= i < entries.len() ==> text_fits((#[trigger] entries[i]).0)
                && entries[i].1.well_formed() && entries[i].1.fits_depth(fuel),
        holds(b, pos, encode_entries(entries, from) + seq![0u8]),
    ensures
        parse_entries(b, pos, fuel, entries.subrange(0, from)) == Ok::<
            (Seq<(Seq<char>, TagValue)>, nat),
            DecodeError,
        >((entries, (encode_entries(entries, from).len() + 1) as nat)),
    decreases entries, entries.len() - from,
{
    let done = entries.subrange(0, from);
    if from < entries.len() {
        let (name, value) = entries[from];
        let id = seq![kind_id(value.kind())];
        let rest = encode_entries(entries, from + 1);
        let front = id + encode_string(name) + encode_payload(value);
        lemma_holds_split(b, pos, front + rest, seq![0u8]);
        lemma_holds_split(b, pos, front, rest);
        lemma_holds_split(b, pos, id + encode_string(name), encode_payload(value));
        lemma_holds_split(b, pos, id, encode_string(name));
        lemma_holds_index(b, pos, id, 0);
        lemma_kind_id(value.kind());
        lemma_string_round_trip(b, pos + 1, name);
        lemma_payload_round_trip(b, pos + 1 + encode_string(name).len(), value, fuel);
        lemma_holds_join(b, pos + front.len(), rest, seq![0u8]);
        lemma_position_from(done, name, 0);
        assert(position(done, name) is None) by {
            if position(done, name) is Some {
                let i = position(done, name)->Some_0;
                assert(done[i] == entries[i]);
            }
        }
        assert(upsert(done, name, value) =~= entries.subrange(0, from + 1));
        lemma_entries_round_trip(b, pos + front.len(), entries, from + 1, fuel);
    } else {
        lemma_holds_index(b, pos, encode_entries(entries, from) + seq![0u8], 0);
        assert(done =~= entries);
    }
}

/// Round trip: the record made from a well-formed compound decodes to that
/// compound, taking exactly the bytes of the record, whatever bytes follow it.
pub proof fn lemma_round_trip(root: TagValue, rest: Seq<u8>, max_depth: nat)
    requires
        root is Compound,
        root.well_formed(),
        root.fits_depth(max_depth),
    ensures
        parse_root(encode_root(root) + rest, max_depth) == Ok::<(TagValue, nat), DecodeError>(
            (root, encode_root(root).len()),
        ),
        decoded(encode_root(root) + rest, max_depth) == Ok::<TagValue, DecodeError>(root),
        decoded(encode_root(root) + rest, max_depth) matches Ok(again) && encode_root(again)
            == encode_root(root),
{
    let b = encode_root(root) + rest;
    let id = seq![kind_id(TagKind::Compound)];
    let name = encode_string(Seq::empty());
    assert(b.subrange(0, encode_root(root).len() as int) =~= encode_root(root));
    lemma_holds_split(b, 0, id + name, encode_payload(root));
    lemma_holds_split(b, 0, id, name);
    lemma_holds_index(b, 0, id, 0);
    assert(encode_utf8(Seq::<char>::empty()) =~= Seq::<u8>::empty()) by {
        reveal_with_fuel(encode_utf8, 1);
    }
    lemma_string_round_trip(b, 1, Seq::empty());
    lemma_payload_round_trip(b, 1 + name.len() as int, root, max_depth);
}

/// Truncation: the record made from a well-formed compound, cut at any offset
/// before its end, decodes to a truncation and to nothing else.
pub proof fn lemma_cut_record(root: TagValue, max_depth: nat, k: int)
    requires
        root is Compound,
        root.well_formed(),
        root.fits_depth(max_depth),
        0 <= k < encode_root(root).len(),
    ensures
        decoded(encode_root(root).subrange(0, k), max_depth) == Err::<TagValue, DecodeError>(
            DecodeError::Truncated,
        ),
{
    lemma_round_trip(root, Seq::empty(), max_depth);
    assert(encode_root(root) + Seq::<u8>::empty() =~= encode_root(root));
    lemma_truncation(encode_root(root), max_depth, k);
}

} // verus!
