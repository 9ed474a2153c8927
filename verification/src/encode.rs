//! The encoding of a tag tree: the bytes that stand for it in a buffer, and
//! which trees have an encoding.

use vstd::prelude::*;
use vstd::utf8::encode_utf8;
use vstd::string::StringSliceAdditionalSpecFns;
use crate::tag::{entry_views, kind_id, tag_views, Tag, TagKind, TagValue};
use crate::text::same_text;

verus! {

/// The unsigned integer whose two's-complement reading below `2 * half` is `v`.
pub open spec fn unsigned(v: int, half: int) -> int {
    if v < 0 {
        v + 2 * half
    } else {
        v
    }
}

/// The two bytes of an unsigned 16-bit integer, high byte first.
pub open spec fn be_bytes2(x: int) -> Seq<u8> {
    seq![(x / 0x100) as u8, (x % 0x100) as u8]
}

/// The four bytes of an unsigned 32-bit integer, high byte first.
pub open spec fn be_bytes4(x: int) -> Seq<u8> {
    be_bytes2(x / 0x1_0000) + be_bytes2(x % 0x1_0000)
}

/// The eight bytes of an unsigned 64-bit integer, high byte first.
pub open spec fn be_bytes8(x: int) -> Seq<u8> {
    be_bytes4(x / 0x1_0000_0000) + be_bytes4(x % 0x1_0000_0000)
}

/// Whether a text is short enough for the two-byte length of a string.
pub open spec fn text_fits(text: Seq<char>) -> bool {
    encode_utf8(text).len() <= 0xFFFF
}

/// A string: its length in bytes, then its UTF-8.
pub open spec fn encode_string(text: Seq<char>) -> Seq<u8> {
    be_bytes2(encode_utf8(text).len() as int) + encode_utf8(text)
}

/// Whether no name stands twice in `entries`.
pub open spec fn unique_names(entries: Seq<(Seq<char>, TagValue)>) -> bool {
    forall|i: int, j: int|
        0 <= i < j < entries.len() ==> (#[trigger] entries[i]).0 != (#[trigger] entries[j]).0
}

impl TagValue {
    /// The invariant of the data model. A list holds only items of its declared
    /// kind; the names of a compound are unique; an end tag stands nowhere in a
    /// tree; every length fits the field that states it.
    pub open spec fn well_formed(self) -> bool
        decreases self,
    {
        match self {
            TagValue::End => false,
            TagValue::ByteArray(bytes) => bytes.len() <= i32::MAX,
            TagValue::String(text) => text_fits(text),
            TagValue::List(kind, items) => {
                &&& items.len() <= i32::MAX
                &&& forall|i: int|
                    0 <= i < items.len() ==> (#[trigger] items[i]).kind() == kind
                        && items[i].well_formed()
            },
            TagValue::Compound(entries) => {
                &&& unique_names(entries)
                &&& forall|i: int|
                    0 <= i < entries.len() ==> text_fits((#[trigger] entries[i]).0)
                        && entries[i].1.well_formed()
            },
            TagValue::IntArray(ints) => ints.len() <= i32::MAX,
            TagValue::LongArray(longs) => longs.len() <= i32::MAX,
            _ => true,
        }
    }

    /// Whether lists and compounds are nested at most `depth` deep in this value.
    pub open spec fn fits_depth(self, depth: nat) -> bool
        decreases self,
    {
        match self {
            TagValue::List(_, items) => {
                &&& depth > 0
                &&& forall|i: int|
                    0 <= i < items.len() ==> (#[trigger] items[i]).fits_depth((depth - 1) as nat)
            },
            TagValue::Compound(entries) => {
                &&& depth > 0
                &&& forall|i: int|
                    0 <= i < entries.len() ==> (#[trigger] entries[i]).1.fits_depth(
                        (depth - 1) as nat,
                    )
            },
            _ => true,
        }
    }
}

/// The payload of a value: what stands for it behind its type byte and name.
pub open spec fn encode_payload(value: TagValue) -> Seq<u8>
    decreases value, 0nat,
{
    match value {
        TagValue::End => Seq::empty(),
        TagValue::Byte(v) => seq![unsigned(v as int, 0x80) as u8],
        TagValue::Short(v) => be_bytes2(unsigned(v as int, 0x8000)),
        TagValue::Int(v) => be_bytes4(unsigned(v as int, 0x8000_0000)),
        TagValue::Long(v) => be_bytes8(unsigned(v as int, 0x8000_0000_0000_0000)),
        TagValue::Float(bits) => be_bytes4(bits as int),
        TagValue::Double(bits) => be_bytes8(bits as int),
        TagValue::ByteArray(bytes) => be_bytes4(bytes.len() as int) + Seq::new(
            bytes.len(),
            |i: int| unsigned(bytes[i] as int, 0x80) as u8,
        ),
        TagValue::String(text) => encode_string(text),
        TagValue::List(kind, items) => seq![kind_id(kind)] + be_bytes4(items.len() as int)
            + encode_items(items, 0),
        TagValue::Compound(entries) => encode_entries(entries, 0) + seq![0u8],
        TagValue::IntArray(ints) => be_bytes4(ints.len() as int) + Seq::new(
            4 * ints.len(),
            |i: int| be_bytes4(unsigned(ints[i / 4] as int, 0x8000_0000))[i % 4],
        ),
        TagValue::LongArray(longs) => be_bytes4(longs.len() as int) + Seq::new(
            8 * longs.len(),
            |i: int| be_bytes8(unsigned(longs[i / 8] as int, 0x8000_0000_0000_0000))[i % 8],
        ),
    }
}

/// The payloads of the items of a list from index `from` on, one after the other.
pub open spec fn encode_items(items: Seq<TagValue>, from: int) -> Seq<u8>
    decreases items, items.len() - from,
{
    if from < 0 || from >= items.len() {
        Seq::empty()
    } else {
        encode_payload(items[from]) + encode_items(items, from + 1)
    }
}

/// The entries of a compound from index `from` on: for each its type byte, its
/// name and its payload.
pub open spec fn encode_entries(entries: Seq<(Seq<char>, TagValue)>, from: int) -> Seq<u8>
    decreases entries, entries.len() - from,
{
    if from < 0 || from >= entries.len() {
        Seq::empty()
    } else {
        seq![kind_id(entries[from].1.kind())] + encode_string(entries[from].0) + encode_payload(
            entries[from].1,
        ) + encode_entries(entries, from + 1)
    }
}

/// A record: the type byte of a compound, an empty name, and the payload of `root`.
pub open spec fn encode_root(root: TagValue) -> Seq<u8> {
    seq![kind_id(TagKind::Compound)] + encode_string(Seq::empty()) + encode_payload(root)
}

fn push_u16(out: &mut Vec<u8>, x: u16)
    ensures
        final(out)@ == old(out)@ + be_bytes2(x as int),
{
    out.push((x / 0x100) as u8);
    out.push((x % 0x100) as u8);
    assert(out@ =~= old(out)@ + be_bytes2(x as int));
}

fn push_u32(out: &mut Vec<u8>, x: u32)
    ensures
        final(out)@ == old(out)@ + be_bytes4(x as int),
{
    push_u16(out, (x / 0x1_0000) as u16);
    push_u16(out, (x % 0x1_0000) as u16);
    assert(out@ =~= old(out)@ + be_bytes4(x as int));
}

fn push_u64(out: &mut Vec<u8>, x: u64)
    ensures
        final(out)@ == old(out)@ + be_bytes8(x as int),
{
    push_u32(out, (x / 0x1_0000_0000) as u32);
    push_u32(out, (x % 0x1_0000_0000) as u32);
    assert(out@ =~= old(out)@ + be_bytes8(x as int));
}

fn byte_of_i8(v: i8) -> (r: u8)
    ensures
        r == unsigned(v as int, 0x80),
{
    if v < 0 {
        (v as i16 + 0x100) as u8
    } else {
        v as u8
    }
}

fn word_of_i32(v: i32) -> (r: u32)
    ensures
        r == unsigned(v as int, 0x8000_0000),
{
    if v < 0 {
        (v as i64 + 0x1_0000_0000) as u32
    } else {
        v as u32
    }
}

fn word_of_i64(v: i64) -> (r: u64)
    ensures
        r == unsigned(v as int, 0x8000_0000_0000_0000),
{
    if v < 0 {
        (v as i128 + 0x1_0000_0000_0000_0000) as u64
    } else {
        v as u64
    }
}

fn push_string(out: &mut Vec<u8>, text: &str)
    requires
        text_fits(text@),
    ensures
        final(out)@ == old(out)@ + encode_string(text@),
{
    let raw = text.as_bytes();
    push_u16(out, raw.len() as u16);
    let mut i: usize = 0;
    while i < raw.len()
        invariant
            i <= raw@.len(),
            raw@ == encode_utf8(text@),
            out@ == old(out)@ + be_bytes2(raw@.len() as int) + raw@.subrange(0, i as int),
        decreases raw@.len() - i,
    {
        out.push(raw[i]);
        assert(raw@.subrange(0, i + 1) =~= raw@.subrange(0, i as int).push(raw@[i as int]));
        i += 1;
    }
    assert(raw@.subrange(0, i as int) =~= raw@);
    assert(out@ =~= old(out)@ + encode_string(text@));
}

/// Whether the tree keeps the invariant of the data model.
pub fn is_well_formed(tag: &Tag) -> (r: bool)
    ensures
        r == tag@.well_formed(),
    decreases tag,
{
    match tag {
        Tag::End => false,
        Tag::ByteArray(bytes) => bytes.len() <= 0x7FFF_FFFF,
        Tag::String(text) => text.as_str().as_bytes().len() <= 0xFFFF,
        Tag::IntArray(ints) => ints.len() <= 0x7FFF_FFFF,
        Tag::LongArray(longs) => longs.len() <= 0x7FFF_FFFF,
        Tag::List(kind, items) => {
            if items.len() > 0x7FFF_FFFF {
                return false;
            }
            let mut i: usize = 0;
            while i < items.len()
                invariant
                    i <= items@.len(),
                    tag@ == TagValue::List(*kind, tag_views(items@)),
                    *tag == Tag::List(*kind, *items),
                    forall|j: int|
                        0 <= j < i ==> (#[trigger] tag_views(items@)[j]).kind() == *kind
                            && tag_views(items@)[j].well_formed(),
                decreases items@.len() - i,
            {
                assert(tag_views(items@)[i as int] == items@[i as int]@);
                if !(items[i].kind() == *kind) || !is_well_formed(&items[i]) {
                    return false;
                }
                i += 1;
            }
            true
        },
        Tag::Compound(entries) => {
            let mut i: usize = 0;
            while i < entries.len()
                invariant
                    i <= entries@.len(),
                    tag@ == TagValue::Compound(entry_views(entries@)),
                    *tag == Tag::Compound(*entries),
                    forall|j: int|
                        0 <= j < i ==> text_fits((#[trigger] entry_views(entries@)[j]).0)
                            && entry_views(entries@)[j].1.well_formed(),
                    forall|j: int, k: int|
                        0 <= j < k < i ==> (#[trigger] entry_views(entries@)[j]).0 != (
                        #[trigger] entry_views(entries@)[k]).0,
                decreases entries@.len() - i,
            {
                assert(entry_views(entries@)[i as int] == (
                    entries@[i as int].0@,
                    entries@[i as int].1@,
                ));
                if entries[i].0.as_str().as_bytes().len() > 0xFFFF || !is_well_formed(
                    &entries[i].1,
                ) {
                    return false;
                }
                let mut j: usize = 0;
                while j < i
                    invariant
                        j <= i < entries@.len(),
                        tag@ == TagValue::Compound(entry_views(entries@)),
                        forall|k: int|
                            0 <= k < j ==> (#[trigger] entry_views(entries@)[k]).0 != entry_views(
                                entries@,
                            )[i as int].0,
                    decreases i - j,
                {
                    if same_text(entries[j].0.as_str(), entries[i].0.as_str()) {
                        assert(entry_views(entries@)[j as int].0 == entry_views(
                            entries@,
                        )[i as int].0);
                        return false;
                    }
                    j += 1;
                }
                i += 1;
            }
            true
        },
        _ => true,
    }
}

fn write_payload(tag: &Tag, out: &mut Vec<u8>)
    requires
        tag@.well_formed(),
    ensures
        final(out)@ == old(out)@ + encode_payload(tag@),
    decreases tag,
{
    match tag {
        Tag::End => {
            assert(out@ =~= old(out)@ + encode_payload(tag@));
        },
        Tag::Byte(v) => {
            out.push(byte_of_i8(*v));
            assert(out@ =~= old(out)@ + encode_payload(tag@));
        },
        Tag::Short(v) => {
            let x: u16 = if *v < 0 {
                (*v as i32 + 0x1_0000) as u16
            } else {
                *v as u16
            };
            push_u16(out, x);
        },
        Tag::Int(v) => {
            push_u32(out, word_of_i32(*v));
        },
        Tag::Long(v) => {
            push_u64(out, word_of_i64(*v));
        },
        Tag::Float(bits) => {
            push_u32(out, *bits);
        },
        Tag::Double(bits) => {
            push_u64(out, *bits);
        },
        Tag::ByteArray(bytes) => {
            push_u32(out, bytes.len() as u32);
            let ghost head = out@;
            let ghost body = Seq::new(bytes@.len(), |i: int| unsigned(bytes@[i] as int, 0x80) as u8);
            let mut i: usize = 0;
            while i < bytes.len()
                invariant
                    i <= bytes@.len(),
                    body == Seq::new(bytes@.len(), |i: int| unsigned(bytes@[i] as int, 0x80) as u8),
                    out@ == head + body.subrange(0, i as int),
                decreases bytes@.len() - i,
            {
                out.push(byte_of_i8(bytes[i]));
                assert(body.subrange(0, i + 1) =~= body.subrange(0, i as int).push(body[i as int]));
                i += 1;
            }
            assert(body.subrange(0, i as int) =~= body);
        },
        Tag::String(text) => {
            push_string(out, text.as_str());
        },
        Tag::List(kind, items) => {
            out.push(kind.id());
            push_u32(out, items.len() as u32);
            let ghost head = out@;
            assert(head =~= old(out)@ + (seq![kind_id(*kind)] + be_bytes4(items@.len() as int)));
            let mut i: usize = 0;
            while i < items.len()
                invariant
                    i <= items@.len(),
                    tag@ == TagValue::List(*kind, tag_views(items@)),
                    *tag == Tag::List(*kind, *items),
                    tag@.well_formed(),
                    out@ + encode_items(tag_views(items@), i as int) == head + encode_items(
                        tag_views(items@),
                        0,
                    ),
                decreases items@.len() - i,
            {
                let ghost before = out@;
                assert(tag_views(items@)[i as int] == items@[i as int]@);
                write_payload(&items[i], out);
                assert(out@ + encode_items(tag_views(items@), i + 1) =~= before + encode_items(
                    tag_views(items@),
                    i as int,
                ));
                i += 1;
            }
            assert(out@ =~= out@ + encode_items(tag_views(items@), i as int));
            assert(out@ =~= old(out)@ + encode_payload(tag@));
        },
        Tag::Compound(entries) => {
            let ghost head = out@;
            let mut i: usize = 0;
            while i < entries.len()
                invariant
                    i <= entries@.len(),
                    tag@ == TagValue::Compound(entry_views(entries@)),
                    *tag == Tag::Compound(*entries),
                    tag@.well_formed(),
                    out@ + encode_entries(entry_views(entries@), i as int) == head
                        + encode_entries(entry_views(entries@), 0),
                decreases entries@.len() - i,
            {
                let ghost before = out@;
                assert(entry_views(entries@)[i as int] == (
                    entries@[i as int].0@,
                    entries@[i as int].1@,
                ));
                out.push(entries[i].1.kind().id());
                push_string(out, entries[i].0.as_str());
                write_payload(&entries[i].1, out);
                assert(out@ + encode_entries(entry_views(entries@), i + 1) =~= before
                    + encode_entries(entry_views(entries@), i as int));
                i += 1;
            }
            assert(out@ =~= out@ + encode_entries(entry_views(entries@), i as int));
            out.push(0);
            assert(out@ =~= old(out)@ + encode_payload(tag@));
        },
        Tag::IntArray(ints) => {
            push_u32(out, ints.len() as u32);
            let ghost head = out@;
            let ghost body = Seq::new(
                4 * ints@.len(),
                |i: int| be_bytes4(unsigned(ints@[i / 4] as int, 0x8000_0000))[i % 4],
            );
            let mut i: usize = 0;
            while i < ints.len()
                invariant
                    i <= ints@.len(),
                    body == Seq::new(
                        4 * ints@.len(),
                        |i: int| be_bytes4(unsigned(ints@[i / 4] as int, 0x8000_0000))[i % 4],
                    ),
                    out@ == head + body.subrange(0, 4 * i),
                decreases ints@.len() - i,
            {
                push_u32(out, word_of_i32(ints[i]));
                assert(body.subrange(0, 4 * (i + 1)) =~= body.subrange(0, 4 * i) + be_bytes4(
                    unsigned(ints@[i as int] as int, 0x8000_0000),
                ));
                i += 1;
            }
            assert(body.subrange(0, 4 * i) =~= body);
        },
        Tag::LongArray(longs) => {
            push_u32(out, longs.len() as u32);
            let ghost head = out@;
            let ghost body = Seq::new(
                8 * longs@.len(),
                |i: int| be_bytes8(unsigned(longs@[i / 8] as int, 0x8000_0000_0000_0000))[i % 8],
            );
            let mut i: usize = 0;
            while i < longs.len()
                invariant
                    i <= longs@.len(),
                    body == Seq::new(
                        8 * longs@.len(),
                        |i: int|
                            be_bytes8(unsigned(longs@[i / 8] as int, 0x8000_0000_0000_0000))[i % 8],
                    ),
                    out@ == head + body.subrange(0, 8 * i),
                decreases longs@.len() - i,
            {
                push_u64(out, word_of_i64(longs[i]));
                assert(body.subrange(0, 8 * (i + 1)) =~= body.subrange(0, 8 * i) + be_bytes8(
                    unsigned(longs@[i as int] as int, 0x8000_0000_0000_0000),
                ));
                i += 1;
            }
            assert(body.subrange(0, 8 * i) =~= body);
        },
    }
}

/// The record of a compound that keeps the invariant of the data model, under
/// an empty name; `None` for any other tree.
pub fn encode(root: &Tag) -> (r: Option<Vec<u8>>)
    ensures
        r is Some <==> root@ is Compound && root@.well_formed(),
        r matches Some(bytes) ==> bytes@ == encode_root(root@),
{
    match root {
        Tag::Compound(_) => {},
        _ => {
            return None;
        },
    }
    if !is_well_formed(root) {
        return None;
    }
    let mut out: Vec<u8> = Vec::new();
    out.push(10);
    assert(encode_utf8(Seq::<char>::empty()) =~= Seq::<u8>::empty()) by {
        reveal_with_fuel(encode_utf8, 1);
    }
    push_u16(&mut out, 0);
    let ghost head = out@;
    assert(head =~= seq![kind_id(TagKind::Compound)] + encode_string(Seq::empty()));
    write_payload(root, &mut out);
    Some(out)
}

} // verus!
