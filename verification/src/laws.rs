//! What holds of the grammar: what it yields is well formed, an encoding decodes
//! to the tree it was made from, and a record cut short is reported as truncated.

use vstd::prelude::*;
use vstd::utf8::{decode_utf8_encode_utf8, encode_utf8};
use crate::encode::{text_fits, unique_names};
use crate::error::DecodeError;
use crate::grammar::{
    decoded, parse_count, parse_entries, parse_items, parse_payload, parse_root, parse_string,
    remaining,
};
use crate::error::ExtractionError;
use crate::tag::{
    child, is_double_triplet, kind_of_id, position, position_from, resolve, resolve_from,
    triplet_of, upsert, TagKind, TagValue,
};

verus! {

/// Where `position_from` finds a name, the name stands there and nowhere
/// between `from` and there; where it finds none, the name stands nowhere from
/// `from` on.
pub proof fn lemma_position_from(entries: Seq<(Seq<char>, TagValue)>, name: Seq<char>, from: int)
    requires
        0 <= from,
    ensures
        match position_from(entries, name, from) {
            Some(i) => from <= i < entries.len() && entries[i].0 == name && forall|j: int|
                from <= j < i ==> (#[trigger] entries[j]).0 != name,
            None => forall|j: int| from <= j < entries.len() ==> (#[trigger] entries[j]).0 != name,
        },
    decreases entries.len() - from,
{
    if from < entries.len() && entries[from].0 != name {
        lemma_position_from(entries, name, from + 1);
    }
}

/// Whether every item is of kind `kind`, well formed and nested at most `depth` deep.
pub open spec fn items_ok(items: Seq<TagValue>, kind: TagKind, depth: nat) -> bool {
    forall|i: int|
        0 <= i < items.len() ==> (#[trigger] items[i]).kind() == kind && items[i].well_formed()
            && items[i].fits_depth(depth)
}

/// Whether the names are unique and fit, and every value is well formed and
/// nested at most `depth` deep.
pub open spec fn entries_ok(entries: Seq<(Seq<char>, TagValue)>, depth: nat) -> bool {
    &&& unique_names(entries)
    &&& forall|i: int|
        0 <= i < entries.len() ==> text_fits((#[trigger] entries[i]).0)
            && entries[i].1.well_formed() && entries[i].1.fits_depth(depth)
}

/// Putting a good entry into good entries leaves them good.
pub proof fn lemma_upsert_ok(
    entries: Seq<(Seq<char>, TagValue)>,
    name: Seq<char>,
    value: TagValue,
    depth: nat,
)
    requires
        entries_ok(entries, depth),
        text_fits(name),
        value.well_formed(),
        value.fits_depth(depth),
    ensures
        entries_ok(upsert(entries, name, value), depth),
{
    lemma_position_from(entries, name, 0);
    let after = upsert(entries, name, value);
    assert forall|i: int, j: int| 0 <= i < j < after.len() implies (#[trigger] after[i]).0 != (
    #[trigger] after[j]).0 by {
        match position(entries, name) {
            Some(p) => {
                assert(after[i].0 == entries[i].0);
                assert(after[j].0 == entries[j].0);
            },
            None => {
                if j < entries.len() {
                    assert(after[i] == entries[i]);
                    assert(after[j] == entries[j]);
                } else {
                    assert(after[i] == entries[i]);
                }
            },
        }
    }
    assert forall|i: int| 0 <= i < after.len() implies text_fits((#[trigger] after[i]).0)
        && after[i].1.well_formed() && after[i].1.fits_depth(depth) by {
        match position(entries, name) {
            Some(p) => {
                if i != p {
                    assert(after[i] == entries[i]);
                }
            },
            None => {
                if i < entries.len() {
                    assert(after[i] == entries[i]);
                }
            },
        }
    }
}

/// A string that the grammar accepts lies within the buffer, and its UTF-8 is
/// the bytes behind its length.
pub proof fn lemma_parsed_string(b: Seq<u8>, pos: int)
    requires
        0 <= pos,
        parse_string(b, pos) is Ok,
    ensures
        ({
            let (text, used) = parse_string(b, pos)->Ok_0;
            &&& 2 <= used <= 2 + 0xFFFF
            &&& pos + used <= b.len()
            &&& encode_utf8(text) == b.subrange(pos + 2, pos + used)
            &&& text_fits(text)
        }),
{
    let (text, used) = parse_string(b, pos)->Ok_0;
    decode_utf8_encode_utf8(b.subrange(pos + 2, pos + used));
}

/// A payload that the grammar accepts is of the kind asked for, well formed,
/// nested within the limit, and lies within the buffer.
pub proof fn lemma_parsed_payload(b: Seq<u8>, pos: int, kind: TagKind, fuel: nat)
    requires
        0 <= pos,
        kind != TagKind::End,
        parse_payload(b, pos, kind, fuel) is Ok,
    ensures
        ({
            let (value, used) = parse_payload(b, pos, kind, fuel)->Ok_0;
            &&& value.kind() == kind
            &&& value.well_formed()
            &&& value.fits_depth(fuel)
            &&& 1 <= used
            &&& pos + used <= b.len()
        }),
    decreases fuel, 0nat,
{
    match kind {
        TagKind::String => {
            lemma_parsed_string(b, pos);
        },
        TagKind::List => {
            let item_kind = kind_of_id(b[pos])->Some_0;
            let n = parse_count(b, pos + 1)->Ok_0;
            lemma_parsed_items(b, pos + 5, item_kind, n, (fuel - 1) as nat, Seq::empty());
        },
        TagKind::Compound => {
            lemma_parsed_entries(b, pos, (fuel - 1) as nat, Seq::empty());
        },
        _ => {},
    }
}

/// The items that the grammar accepts are as many as were announced, each of
/// the declared kind, well formed and nested within the limit.
pub proof fn lemma_parsed_items(
    b: Seq<u8>,
    pos: int,
    kind: TagKind,
    count: nat,
    fuel: nat,
    done: Seq<TagValue>,
)
    requires
        0 <= pos,
        kind != TagKind::End || count == 0,
        items_ok(done, kind, fuel),
        parse_items(b, pos, kind, count, fuel, done) is Ok,
    ensures
        ({
            let (items, used) = parse_items(b, pos, kind, count, fuel, done)->Ok_0;
            &&& items_ok(items, kind, fuel)
            &&& items.len() == done.len() + count
            &&& count <= used
            &&& pos + used <= b.len() || count == 0
        }),
    decreases fuel, count + 1,
{
    if count > 0 {
        lemma_parsed_payload(b, pos, kind, fuel);
        let (item, used) = parse_payload(b, pos, kind, fuel)->Ok_0;
        let next = done.push(item);
        assert forall|i: int| 0 <= i < next.len() implies (#[trigger] next[i]).kind() == kind
            && next[i].well_formed() && next[i].fits_depth(fuel) by {
            if i < done.len() {
                assert(next[i] == done[i]);
            }
        }
        lemma_parsed_items(b, pos + used, kind, (count - 1) as nat, fuel, next);
    }
}

/// The entries that the grammar accepts have unique names that fit, and values
/// that are well formed and nested within the limit.
pub proof fn lemma_parsed_entries(
    b: Seq<u8>,
    pos: int,
    fuel: nat,
    done: Seq<(Seq<char>, TagValue)>,
)
    requires
        0 <= pos,
        entries_ok(done, fuel),
        parse_entries(b, pos, fuel, done) is Ok,
    ensures
        ({
            let (entries, used) = parse_entries(b, pos, fuel, done)->Ok_0;
            &&& entries_ok(entries, fuel)
            &&& 1 <= used
            &&& pos + used <= b.len()
        }),
    decreases fuel, remaining(b, pos) + 1,
{
    let kind = kind_of_id(b[pos])->Some_0;
    if kind != TagKind::End {
        lemma_parsed_string(b, pos + 1);
        let (name, name_used) = parse_string(b, pos + 1)->Ok_0;
        lemma_parsed_payload(b, pos + 1 + name_used, kind, fuel);
        let (value, used) = parse_payload(b, pos + 1 + name_used, kind, fuel)->Ok_0;
        lemma_upsert_ok(done, name, value, fuel);
        lemma_parsed_entries(b, pos + 1 + name_used + used, fuel, upsert(done, name, value));
    }
}

/// What decodes is a compound that keeps the invariant of the data model and
/// is nested within the limit, and its record lies within the buffer.
pub proof fn lemma_parsed_root(b: Seq<u8>, max_depth: nat)
    requires
        parse_root(b, max_depth) is Ok,
    ensures
        ({
            let (root, used) = parse_root(b, max_depth)->Ok_0;
            &&& root is Compound
            &&& root.well_formed()
            &&& root.fits_depth(max_depth)
            &&& used <= b.len()
        }),
{
    lemma_parsed_string(b, 1);
    let (name, name_used) = parse_string(b, 1)->Ok_0;
    lemma_parsed_payload(b, 1 + name_used as int, TagKind::Compound, max_depth);
}

/// What a parse of `b` gives on the first `k` bytes of `b` alone: its result
/// where it used no byte from `k` on, else a truncation.
pub open spec fn cut_result<T>(r: Result<(T, nat), DecodeError>, pos: int, k: int) -> Result<
    (T, nat),
    DecodeError,
> {
    match r {
        Ok((x, used)) => if pos + used <= k {
            r
        } else {
            Err(DecodeError::Truncated)
        },
        Err(e) => r,
    }
}

/// A string read from the first `k` bytes of a buffer is the string read from
/// the whole, or a truncation where the string reaches past them.
pub proof fn lemma_cut_string(b: Seq<u8>, k: int, pos: int)
    requires
        0 <= pos <= k <= b.len(),
        parse_string(b, pos) is Ok,
    ensures
        parse_string(b.subrange(0, k), pos) == cut_result(parse_string(b, pos), pos, k),
{
    let c = b.subrange(0, k);
    if pos + 2 <= k {
        let n = crate::bytes::u16_at(b, pos);
        if pos + 2 + n <= k {
            assert(c.subrange(pos + 2, pos + 2 + n) =~= b.subrange(pos + 2, pos + 2 + n));
        }
    }
}

/// A count read from the first `k` bytes of a buffer is the count read from
/// the whole, or a truncation.
pub proof fn lemma_cut_count(b: Seq<u8>, k: int, pos: int)
    requires
        0 <= pos <= k <= b.len(),
        parse_count(b, pos) is Ok,
    ensures
        parse_count(b.subrange(0, k), pos) == if pos + 4 <= k {
            parse_count(b, pos)
        } else {
            Err(DecodeError::Truncated)
        },
{
}

/// A payload read from the first `k` bytes of a buffer is the payload read
/// from the whole, or a truncation where the payload reaches past them.
pub proof fn lemma_cut_payload(b: Seq<u8>, k: int, pos: int, kind: TagKind, fuel: nat)
    requires
        0 <= pos <= k <= b.len(),
        parse_payload(b, pos, kind, fuel) is Ok,
    ensures
        parse_payload(b.subrange(0, k), pos, kind, fuel) == cut_result(
            parse_payload(b, pos, kind, fuel),
            pos,
            k,
        ),
    decreases fuel, 0nat,
{
    let c = b.subrange(0, k);
    match kind {
        TagKind::ByteArray => {
            lemma_cut_count(b, k, pos);
            let n = parse_count(b, pos)->Ok_0;
            if pos + 4 + n <= k {
                assert(Seq::new(n, |i: int| crate::bytes::i8_at(c, pos + 4 + i)) =~= Seq::new(
                    n,
                    |i: int| crate::bytes::i8_at(b, pos + 4 + i),
                ));
            }
        },
        TagKind::IntArray => {
            lemma_cut_count(b, k, pos);
            let n = parse_count(b, pos)->Ok_0;
            if pos + 4 + 4 * n <= k {
                assert(Seq::new(n, |i: int| crate::bytes::i32_at(c, pos + 4 + 4 * i)) =~= Seq::new(
                    n,
                    |i: int| crate::bytes::i32_at(b, pos + 4 + 4 * i),
                ));
            }
        },
        TagKind::LongArray => {
            lemma_cut_count(b, k, pos);
            let n = parse_count(b, pos)->Ok_0;
            if pos + 4 + 8 * n <= k {
                assert(Seq::new(n, |i: int| crate::bytes::i64_at(c, pos + 4 + 8 * i)) =~= Seq::new(
                    n,
                    |i: int| crate::bytes::i64_at(b, pos + 4 + 8 * i),
                ));
            }
        },
        TagKind::String => {
            lemma_cut_string(b, k, pos);
        },
        TagKind::List => {
            if pos + 1 <= k {
                let item_kind = kind_of_id(b[pos])->Some_0;
                lemma_cut_count(b, k, pos + 1);
                let n = parse_count(b, pos + 1)->Ok_0;
                if pos + 5 <= k {
                    lemma_cut_items(b, k, pos + 5, item_kind, n, (fuel - 1) as nat, Seq::empty());
                }
            }
        },
        TagKind::Compound => {
            lemma_cut_entries(b, k, pos, (fuel - 1) as nat, Seq::empty());
        },
        _ => {},
    }
}

/// The items read from the first `k` bytes of a buffer are the items read from
/// the whole, or a truncation where they reach past them.
pub proof fn lemma_cut_items(
    b: Seq<u8>,
    k: int,
    pos: int,
    kind: TagKind,
    count: nat,
    fuel: nat,
    done: Seq<TagValue>,
)
    requires
        0 <= pos <= k <= b.len(),
        parse_items(b, pos, kind, count, fuel, done) is Ok,
    ensures
        parse_items(b.subrange(0, k), pos, kind, count, fuel, done) == cut_result(
            parse_items(b, pos, kind, count, fuel, done),
            pos,
            k,
        ),
    decreases fuel, count + 1,
{
    if count > 0 {
        lemma_cut_payload(b, k, pos, kind, fuel);
        let (item, used) = parse_payload(b, pos, kind, fuel)->Ok_0;
        if pos + used <= k {
            lemma_cut_items(b, k, pos + used, kind, (count - 1) as nat, fuel, done.push(item));
        }
    }
}

/// The entries read from the first `k` bytes of a buffer are the entries read
/// from the whole, or a truncation where they reach past them.
pub proof fn lemma_cut_entries(
    b: Seq<u8>,
    k: int,
    pos: int,
    fuel: nat,
    done: Seq<(Seq<char>, TagValue)>,
)
    requires
        0 <= pos <= k <= b.len(),
        parse_entries(b, pos, fuel, done) is Ok,
    ensures
        parse_entries(b.subrange(0, k), pos, fuel, done) == cut_result(
            parse_entries(b, pos, fuel, done),
            pos,
            k,
        ),
    decreases fuel, remaining(b, pos) + 1,
{
    if pos + 1 <= k {
        let kind = kind_of_id(b[pos])->Some_0;
        if kind != TagKind::End {
            lemma_cut_string(b, k, pos + 1);
            let (name, name_used) = parse_string(b, pos + 1)->Ok_0;
            if pos + 1 + name_used <= k {
                lemma_cut_payload(b, k, pos + 1 + name_used, kind, fuel);
                let (value, used) = parse_payload(b, pos + 1 + name_used, kind, fuel)->Ok_0;
                if pos + 1 + name_used + used <= k {
                    lemma_cut_entries(
                        b,
                        k,
                        pos + 1 + name_used + used,
                        fuel,
                        upsert(done, name, value),
                    );
                }
            }
        }
    }
}

/// A buffer that is exactly one record, cut at any offset before its end,
/// decodes to a truncation and to nothing else.
pub proof fn lemma_truncation(b: Seq<u8>, max_depth: nat, k: int)
    requires
        parse_root(b, max_depth) is Ok,
        parse_root(b, max_depth)->Ok_0.1 == b.len(),
        0 <= k < b.len(),
    ensures
        decoded(b.subrange(0, k), max_depth) == Err::<TagValue, DecodeError>(DecodeError::Truncated),
{
    if 1 <= k {
        lemma_cut_string(b, k, 1);
        let (name, name_used) = parse_string(b, 1)->Ok_0;
        if 1 + name_used <= k {
            lemma_cut_payload(b, k, 1 + name_used as int, TagKind::Compound, max_depth);
        }
    }
}

/// Decoding is a function of the bytes and the limit: two results that both
/// are what the grammar makes of one buffer are the same failure, or trees of
/// the same value.
pub proof fn lemma_decode_deterministic(
    b: Seq<u8>,
    max_depth: nat,
    first: Result<TagValue, DecodeError>,
    second: Result<TagValue, DecodeError>,
)
    requires
        first == decoded(b, max_depth),
        second == decoded(b, max_depth),
    ensures
        first == second,
{
}

/// Following a path is following its first `k` names and then the rest from
/// where they lead.
pub proof fn lemma_resolve_split(value: TagValue, path: Seq<Seq<char>>, from: int, k: int)
    requires
        0 <= from <= k <= path.len(),
    ensures
        resolve_from(value, path, from) == match resolve_from(value, path.subrange(0, k), from) {
            Some(reached) => resolve_from(reached, path, k),
            None => None,
        },
    decreases k - from,
{
    if from < k {
        assert(path.subrange(0, k)[from] == path[from]);
        match child(value, path[from]) {
            Some(next) => {
                lemma_resolve_split(next, path, from + 1, k);
            },
            None => {},
        }
    }
}

/// Where a prefix of a path leads to nothing, the path leads to nothing.
pub proof fn lemma_resolve_missing_prefix(value: TagValue, path: Seq<Seq<char>>, k: int)
    requires
        0 <= k <= path.len(),
        resolve(value, path.subrange(0, k)) is None,
    ensures
        resolve(value, path) is None,
{
    lemma_resolve_split(value, path, 0, k);
}

/// Where a proper prefix of a path leads to a tag that is no compound, the
/// path leads to nothing.
pub proof fn lemma_resolve_through_non_compound(value: TagValue, path: Seq<Seq<char>>, k: int)
    requires
        0 <= k < path.len(),
        resolve(value, path.subrange(0, k)) matches Some(reached) && !(reached is Compound),
    ensures
        resolve(value, path) is None,
{
    lemma_resolve_split(value, path, 0, k);
}

/// A path leads where its names lead one after the other: one name more is
/// one step down from where the path before it led.
pub proof fn lemma_resolve_step(value: TagValue, path: Seq<Seq<char>>, k: int)
    requires
        0 <= k < path.len(),
    ensures
        resolve(value, path.subrange(0, k + 1)) == match resolve(value, path.subrange(0, k)) {
            Some(reached) => child(reached, path[k]),
            None => None,
        },
{
    let longer = path.subrange(0, k + 1);
    lemma_resolve_split(value, longer, 0, k);
    assert(longer.subrange(0, k) =~= path.subrange(0, k));
    assert(longer[k] == path[k]);
    match resolve(value, path.subrange(0, k)) {
        Some(reached) => {
            match child(reached, path[k]) {
                Some(next) => {
                    assert(resolve_from(next, longer, k + 1) == Some(next));
                },
                None => {},
            }
        },
        None => {},
    }
}

/// In a compound whose names are unique, a name leads to the one entry that
/// bears it, and a name that no entry bears leads to nothing.
pub proof fn lemma_child_unique(entries: Seq<(Seq<char>, TagValue)>, name: Seq<char>)
    requires
        unique_names(entries),
    ensures
        forall|i: int|
            0 <= i < entries.len() && (#[trigger] entries[i]).0 == name ==> child(
                TagValue::Compound(entries),
                name,
            ) == Some(entries[i].1),
        (forall|i: int| 0 <= i < entries.len() ==> (#[trigger] entries[i]).0 != name) ==> child(
            TagValue::Compound(entries),
            name,
        ) is None,
{
    lemma_position_from(entries, name, 0);
}

/// The one shape that yields a triplet is a list declared of doubles that
/// holds three doubles; any other list is of invalid shape. In a well-formed
/// tree the declared kind and the count alone decide.
pub proof fn lemma_triplet_shape(value: TagValue)
    ensures
        triplet_of(value) is Ok <==> is_double_triplet(value),
        value is List && !is_double_triplet(value) ==> triplet_of(value) == Err::<
            (u64, u64, u64),
            ExtractionError,
        >(ExtractionError::InvalidShape),
        value.well_formed() ==> (is_double_triplet(value) <==> (value matches TagValue::List(
            kind,
            items,
        ) && kind == TagKind::Double && items.len() == 3)),
{
    if value.well_formed() {
        if let TagValue::List(kind, items) = value {
            if kind == TagKind::Double && items.len() == 3 {
                assert(items[0].kind() == kind);
                assert(items[1].kind() == kind);
                assert(items[2].kind() == kind);
            }
        }
    }
}

} // verus!
