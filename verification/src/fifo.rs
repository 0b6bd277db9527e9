//! First-in, first-out sequences with a fixed upper bound on their length.
//!
//! Entries are kept in insertion order, oldest first. Whenever an insertion
//! makes a sequence longer than its limit, the oldest entries leave. A scan
//! goes through the entries in the same order and stops at the first hit.

use vstd::prelude::*;

verus! {

/// The newest `limit` entries of `s`, or all of `s` where it is no longer
/// than that.
pub open spec fn keep_newest<A>(s: Seq<A>, limit: nat) -> Seq<A> {
    if s.len() > limit {
        s.skip(s.len() - limit)
    } else {
        s
    }
}

/// `s` after `item` was appended and the bound `limit` was enforced.
pub open spec fn push_bounded<A>(s: Seq<A>, item: A, limit: nat) -> Seq<A> {
    keep_newest(s.push(item), limit)
}

/// `s` after every entry of `items` was inserted in turn, each insertion
/// enforcing the bound.
pub open spec fn push_all_bounded<A>(s: Seq<A>, items: Seq<A>, limit: nat) -> Seq<A>
    decreases items.len(),
{
    if items.len() == 0 {
        s
    } else {
        push_all_bounded(push_bounded(s, items.first(), limit), items.drop_first(), limit)
    }
}

/// A bounded insertion leaves at most `limit` entries, the new one last.
/// Below the limit nothing leaves. At the limit exactly one entry leaves,
/// the oldest; the survivors keep their order.
pub proof fn lemma_push_bounded<A>(s: Seq<A>, item: A, limit: nat)
    requires
        limit > 0,
    ensures
        push_bounded(s, item, limit).len() <= limit,
        push_bounded(s, item, limit).last() == item,
        s.len() < limit ==> push_bounded(s, item, limit) == s.push(item),
        s.len() == limit ==> push_bounded(s, item, limit) == s.drop_first().push(item),
{
    if s.len() == limit {
        assert(s.push(item).skip(1) =~= s.drop_first().push(item));
    }
}

/// Whatever is inserted, and however often, a sequence that started within
/// its bound holds exactly the newest `limit` entries of all that was ever
/// put into it.
pub proof fn lemma_push_all_bounded<A>(s: Seq<A>, items: Seq<A>, limit: nat)
    requires
        s.len() <= limit,
    ensures
        push_all_bounded(s, items, limit) == keep_newest(s + items, limit),
        push_all_bounded(s, items, limit).len() <= limit,
    decreases items.len(),
{
    if items.len() == 0 {
        assert(s + items =~= s);
    } else {
        let next = push_bounded(s, items.first(), limit);
        let rest = items.drop_first();
        lemma_push_all_bounded(next, rest, limit);
        assert(s.push(items.first()) + rest =~= s + items);
        assert(keep_newest(next + rest, limit) =~= keep_newest(s + items, limit));
    }
}

/// Where a scan of `s` in insertion order first meets an entry that is
/// `wanted`, if it meets one at all.
pub open spec fn first_position<A>(s: Seq<A>, wanted: spec_fn(A) -> bool) -> Option<int>
    decreases s.len(),
{
    if s.len() == 0 {
        None
    } else if wanted(s.first()) {
        Some(0)
    } else {
        match first_position(s.drop_first(), wanted) {
            Some(i) => Some(i + 1),
            None => None,
        }
    }
}

/// A scan stops at the least position that holds a wanted entry, and finds
/// nothing exactly when no entry is wanted.
pub proof fn lemma_first_position<A>(s: Seq<A>, wanted: spec_fn(A) -> bool)
    ensures
        match first_position(s, wanted) {
            Some(i) => {
                &&& 0 <= i < s.len()
                &&& wanted(s[i])
                &&& forall|j: int| 0 <= j < i ==> !wanted(#[trigger] s[j])
            },
            None => forall|j: int| 0 <= j < s.len() ==> !wanted(#[trigger] s[j]),
        },
    decreases s.len(),
{
    if s.len() > 0 && !wanted(s.first()) {
        let rest = s.drop_first();
        lemma_first_position(rest, wanted);
        assert(forall|j: int| 0 < j < s.len() ==> s[j] == rest[j - 1]);
    }
}

/// The least position that holds a wanted entry is where a scan stops.
pub proof fn lemma_first_position_is<A>(s: Seq<A>, wanted: spec_fn(A) -> bool, i: int)
    requires
        0 <= i < s.len(),
        wanted(s[i]),
        forall|j: int| 0 <= j < i ==> !wanted(#[trigger] s[j]),
    ensures
        first_position(s, wanted) == Some(i),
{
    lemma_first_position(s, wanted);
}

/// A scan of entries of which none is wanted finds nothing.
pub proof fn lemma_first_position_none<A>(s: Seq<A>, wanted: spec_fn(A) -> bool)
    requires
        forall|j: int| 0 <= j < s.len() ==> !wanted(#[trigger] s[j]),
    ensures
        first_position(s, wanted) is None,
{
    lemma_first_position(s, wanted);
}

/// Taking an entry that is not wanted out of a sequence leaves the wanted
/// ones as they were.
pub proof fn lemma_remove_keeps_filter<A>(s: Seq<A>, wanted: spec_fn(A) -> bool, i: int)
    requires
        0 <= i < s.len(),
        !wanted(s[i]),
    ensures
        s.remove(i).filter(wanted) == s.filter(wanted),
{
    let front = s.subrange(0, i);
    let back = s.subrange(i + 1, s.len() as int);
    let one = seq![s[i]];
    assert(s =~= front + one + back);
    assert(s.remove(i) =~= front + back);
    Seq::filter_distributes_over_add(front, back, wanted);
    Seq::filter_distributes_over_add(front + one, back, wanted);
    Seq::filter_distributes_over_add(front, one, wanted);
    reveal_with_fuel(Seq::filter, 2);
    assert(one.filter(wanted) =~= Seq::<A>::empty());
    assert(front.filter(wanted) + one.filter(wanted) =~= front.filter(wanted));
}

/// Drops the oldest entries of `entries` until no more than `limit` are left.
pub fn overflow_prevent<T>(entries: &mut Vec<T>, limit: usize)
    ensures
        final(entries)@ == keep_newest(old(entries)@, limit as nat),
{
    while entries.len() > limit
        invariant
            entries@.len() <= old(entries)@.len(),
            entries@.len() >= limit || entries@.len() == old(entries)@.len(),
            entries@ == old(entries)@.skip(old(entries)@.len() - entries@.len()),
        decreases entries@.len(),
    {
        let _ = entries.remove(0);
    }
}

} // verus!
