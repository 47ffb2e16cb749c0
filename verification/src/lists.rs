//! Searching sequences.

use vstd::prelude::*;

verus! {

/// The index of the first item of a sequence with a property, or the length of
/// the sequence.
pub open spec fn first_where<A>(items: Seq<A>, wanted: spec_fn(A) -> bool) -> int
    decreases items.len(),
{
    if items.len() == 0 || wanted(items[0]) {
        0
    } else {
        1 + first_where(items.skip(1), wanted)
    }
}

pub proof fn lemma_first_where<A>(items: Seq<A>, wanted: spec_fn(A) -> bool, i: int)
    requires
        0 <= i <= items.len(),
        forall|j: int| 0 <= j < i ==> !wanted(#[trigger] items[j]),
        i < items.len() ==> wanted(items[i]),
    ensures
        first_where(items, wanted) == i,
    decreases items.len(),
{
    if i > 0 {
        assert(!wanted(items[0]));
        lemma_first_where(items.skip(1), wanted, i - 1);
    }
}

/// What `first_where` gives.
pub proof fn lemma_first_where_found<A>(items: Seq<A>, wanted: spec_fn(A) -> bool)
    ensures
        0 <= first_where(items, wanted) <= items.len(),
        forall|j: int| 0 <= j < first_where(items, wanted) ==> !wanted(#[trigger] items[j]),
        first_where(items, wanted) < items.len() ==> wanted(items[first_where(items, wanted)]),
    decreases items.len(),
{
    if items.len() > 0 && !wanted(items[0]) {
        let rest = items.skip(1);
        lemma_first_where_found(rest, wanted);
        assert forall|j: int| 0 <= j < first_where(items, wanted) implies !wanted(
            #[trigger] items[j],
        ) by {
            if j > 0 {
                assert(items[j] == rest[j - 1]);
            }
        }
    }
}

/// The items of a prefix with a property, and one more.
pub proof fn lemma_filter_take_succ<A>(items: Seq<A>, wanted: spec_fn(A) -> bool, i: int)
    requires
        0 <= i < items.len(),
    ensures
        items.take(i + 1).filter(wanted) == if wanted(items[i]) {
            items.take(i).filter(wanted).push(items[i])
        } else {
            items.take(i).filter(wanted)
        },
{
    reveal(Seq::filter);
    assert(items.take(i + 1).drop_last() =~= items.take(i));
}

/// What a function gives for the first item for which it gives something.
pub open spec fn first_some<A, B>(items: Seq<A>, pick: spec_fn(A) -> Option<B>) -> Option<B>
    decreases items.len(),
{
    if items.len() == 0 {
        None
    } else {
        match pick(items[0]) {
            Some(b) => Some(b),
            None => first_some(items.skip(1), pick),
        }
    }
}

pub proof fn lemma_first_some<A, B>(items: Seq<A>, pick: spec_fn(A) -> Option<B>, i: int)
    requires
        0 <= i <= items.len(),
        forall|j: int| 0 <= j < i ==> pick(#[trigger] items[j]) is None,
        i < items.len() ==> pick(items[i]) is Some,
    ensures
        first_some(items, pick) == if i < items.len() {
            pick(items[i])
        } else {
            None
        },
    decreases items.len(),
{
    if i > 0 {
        assert(pick(items[0]) is None);
        lemma_first_some(items.skip(1), pick, i - 1);
    }
}

/// `first_some` gives nothing exactly where the function gives nothing for any
/// item.
pub proof fn lemma_first_some_none<A, B>(items: Seq<A>, pick: spec_fn(A) -> Option<B>)
    ensures
        first_some(items, pick) is None <==> forall|i: int|
            0 <= i < items.len() ==> pick(#[trigger] items[i]) is None,
    decreases items.len(),
{
    if items.len() > 0 {
        let rest = items.skip(1);
        lemma_first_some_none(rest, pick);
        if first_some(items, pick) is None {
            assert forall|i: int| 0 <= i < items.len() implies pick(#[trigger] items[i]) is None by {
                if i > 0 {
                    assert(items[i] == rest[i - 1]);
                }
            }
        }
        if forall|i: int| 0 <= i < items.len() ==> pick(#[trigger] items[i]) is None {
            assert(pick(items[0]) is None);
            assert forall|i: int| 0 <= i < rest.len() implies pick(#[trigger] rest[i]) is None by {
                assert(rest[i] == items[i + 1]);
            }
        }
    }
}

/// Entries with a key.
pub open spec fn keyed<V>(key: Seq<char>) -> spec_fn((Seq<char>, V)) -> bool {
    |e: (Seq<char>, V)| e.0 == key
}

/// The value under a key, where there is one. Of several entries with one key,
/// the first counts.
pub open spec fn entry<V>(entries: Seq<(Seq<char>, V)>, key: Seq<char>) -> Option<V> {
    let at = first_where(entries, keyed::<V>(key));
    if at < entries.len() {
        Some(entries[at].1)
    } else {
        None
    }
}

/// No two entries have one key.
pub open spec fn distinct_keys<V>(entries: Seq<(Seq<char>, V)>) -> bool {
    forall|i: int, j: int|
        0 <= i < j < entries.len() ==> (#[trigger] entries[i]).0 != (#[trigger] entries[j]).0
}

/// What `entry` gives.
pub proof fn lemma_entry<V>(entries: Seq<(Seq<char>, V)>, key: Seq<char>)
    ensures
        entry(entries, key) is None <==> forall|i: int|
            0 <= i < entries.len() ==> (#[trigger] entries[i]).0 != key,
        entry(entries, key) matches Some(v) ==> entries.contains((key, v)),
{
    let wanted = keyed::<V>(key);
    lemma_first_where_found(entries, wanted);
    let at = first_where(entries, wanted);
    assert forall|i: int| 0 <= i < at implies (#[trigger] entries[i]).0 != key by {
        assert(!wanted(entries[i]));
    }
    if at < entries.len() {
        assert(wanted(entries[at]));
        assert(entries[at] == (key, entries[at].1));
    }
}

} // verus!
