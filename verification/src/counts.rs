//! Counting the entries of a sequence that satisfy a predicate, and the
//! small facts about those counts that the engine's invariant proofs lean on.

use vstd::prelude::*;

verus! {

/// How many entries of `s` satisfy `p`.
pub open spec fn count_where<T>(s: Seq<T>, p: spec_fn(T) -> bool) -> nat
    decreases s.len(),
{
    if s.len() == 0 {
        0
    } else {
        count_where(s.drop_last(), p) + (if p(s.last()) { 1nat } else { 0nat })
    }
}

/// Appending one entry raises the count by one exactly when the entry
/// satisfies the predicate.
pub proof fn lemma_count_where_push<T>(s: Seq<T>, p: spec_fn(T) -> bool, f: T)
    ensures
        count_where(s.push(f), p) == count_where(s, p) + (if p(f) { 1nat } else { 0nat }),
{
    assert(s.push(f).drop_last() =~= s);
    assert(s.push(f).last() == f);
}

/// Replacing the entry at `i` adjusts the count by what leaves and what
/// arrives.
pub proof fn lemma_count_where_update<T>(s: Seq<T>, p: spec_fn(T) -> bool, i: int, f: T)
    requires
        0 <= i < s.len(),
    ensures
        count_where(s.update(i, f), p) + (if p(s[i]) { 1nat } else { 0nat })
            == count_where(s, p) + (if p(f) { 1nat } else { 0nat }),
    decreases s.len(),
{
    if i == s.len() - 1 {
        assert(s.update(i, f).drop_last() =~= s.drop_last());
        assert(s.update(i, f).last() == f);
        assert(s.last() == s[i]);
    } else {
        assert(s.update(i, f).drop_last() =~= s.drop_last().update(i, f));
        assert(s.update(i, f).last() == s.last());
        lemma_count_where_update(s.drop_last(), p, i, f);
    }
}

/// No count exceeds the arena's size.
pub proof fn lemma_count_where_le_len<T>(s: Seq<T>, p: spec_fn(T) -> bool)
    ensures
        count_where(s, p) <= s.len(),
    decreases s.len(),
{
    if s.len() > 0 {
        lemma_count_where_le_len(s.drop_last(), p);
    }
}

/// When the count is zero, no entry satisfies the predicate.
pub proof fn lemma_count_where_zero<T>(s: Seq<T>, p: spec_fn(T) -> bool, i: int)
    requires
        count_where(s, p) == 0,
        0 <= i < s.len(),
    ensures
        !p(s[i]),
    decreases s.len(),
{
    if i == s.len() - 1 {
        assert(s.last() == s[i]);
    } else {
        assert(s.drop_last()[i] == s[i]);
        lemma_count_where_zero(s.drop_last(), p, i);
    }
}

/// A predicate implied by another counts no more entries than it.
pub proof fn lemma_count_where_subset<T>(s: Seq<T>, p: spec_fn(T) -> bool, q: spec_fn(T) -> bool)
    requires
        forall|f: T| #[trigger] p(f) ==> q(f),
    ensures
        count_where(s, p) <= count_where(s, q),
    decreases s.len(),
{
    if s.len() > 0 {
        lemma_count_where_subset(s.drop_last(), p, q);
    }
}

/// Predicates that agree on every entry of `s` count the same entries.
pub proof fn lemma_count_where_equiv<T>(s: Seq<T>, p: spec_fn(T) -> bool, q: spec_fn(T) -> bool)
    requires
        forall|i: int| 0 <= i < s.len() ==> (#[trigger] p(s[i]) <==> #[trigger] q(s[i])),
    ensures
        count_where(s, p) == count_where(s, q),
    decreases s.len(),
{
    if s.len() > 0 {
        assert forall|i: int| 0 <= i < s.drop_last().len() implies
            (#[trigger] p(s.drop_last()[i]) <==> #[trigger] q(s.drop_last()[i])) by {
            assert(s.drop_last()[i] == s[i]);
        }
        lemma_count_where_equiv(s.drop_last(), p, q);
        assert(s.last() == s[s.len() - 1]);
    }
}

/// When no entry satisfies the predicate, the count is zero.
pub proof fn lemma_count_where_none<T>(s: Seq<T>, p: spec_fn(T) -> bool)
    requires
        forall|i: int| 0 <= i < s.len() ==> !#[trigger] p(s[i]),
    ensures
        count_where(s, p) == 0,
    decreases s.len(),
{
    if s.len() > 0 {
        assert forall|i: int| 0 <= i < s.drop_last().len() implies !#[trigger] p(s.drop_last()[i]) by {
            assert(s.drop_last()[i] == s[i]);
        }
        lemma_count_where_none(s.drop_last(), p);
        assert(s.last() == s[s.len() - 1]);
    }
}

} // verus!
