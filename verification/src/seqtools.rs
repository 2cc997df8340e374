//! Counting and filtering over sequences, used to state what the per-frame
//! passes do to the entity list.

use vstd::prelude::*;

verus! {

/// How many elements of `s` satisfy `f`.
pub open spec fn count_where<A>(s: Seq<A>, f: spec_fn(A) -> bool) -> int
    decreases s.len(),
{
    if s.len() == 0 {
        0
    } else {
        count_where(s.drop_last(), f) + if f(s.last()) {
            1int
        } else {
            0int
        }
    }
}

/// A sequence with one element or none.
pub open spec fn opt_to_seq<A>(o: Option<A>) -> Seq<A> {
    match o {
        Some(a) => seq![a],
        None => Seq::empty(),
    }
}

/// Each element of `s` mapped through `f`, keeping the `Some` results in
/// order.
pub open spec fn filter_map<A, B>(s: Seq<A>, f: spec_fn(A) -> Option<B>) -> Seq<B>
    decreases s.len(),
{
    if s.len() == 0 {
        Seq::empty()
    } else {
        filter_map(s.drop_last(), f) + opt_to_seq(f(s.last()))
    }
}

/// Extending a prefix by one element adds that element's contribution to the
/// count.
pub proof fn lemma_count_take_succ<A>(s: Seq<A>, f: spec_fn(A) -> bool, i: int)
    requires
        0 <= i < s.len(),
    ensures
        count_where(s.take(i + 1), f) == count_where(s.take(i), f) + if f(s[i]) {
            1int
        } else {
            0int
        },
{
    assert(s.take(i + 1).drop_last() =~= s.take(i));
    assert(s.take(i + 1).last() == s[i]);
}

/// The count lies between zero and the sequence's length.
pub proof fn lemma_count_bounds<A>(s: Seq<A>, f: spec_fn(A) -> bool)
    ensures
        0 <= count_where(s, f) <= s.len(),
    decreases s.len(),
{
    if s.len() > 0 {
        lemma_count_bounds(s.drop_last(), f);
    }
}

/// Counts over prefixes grow with the prefix, and strictly past an element
/// that satisfies `f`.
pub proof fn lemma_count_take_mono<A>(s: Seq<A>, f: spec_fn(A) -> bool, i: int, j: int)
    requires
        0 <= i <= j <= s.len(),
    ensures
        count_where(s.take(i), f) <= count_where(s.take(j), f),
        i < j && f(s[i]) ==> count_where(s.take(i), f) < count_where(s.take(j), f),
    decreases j - i,
{
    if i < j {
        lemma_count_take_succ(s, f, i);
        lemma_count_take_mono(s, f, i + 1, j);
    }
}

/// A sequence with no element satisfying `f` counts zero.
pub proof fn lemma_count_zero<A>(s: Seq<A>, f: spec_fn(A) -> bool)
    requires
        forall|k: int| 0 <= k < s.len() ==> !f(s[k]),
    ensures
        count_where(s, f) == 0,
    decreases s.len(),
{
    if s.len() > 0 {
        lemma_count_zero(s.drop_last(), f);
    }
}

/// Extending a prefix by one element appends that element's image.
pub proof fn lemma_filter_map_take_succ<A, B>(s: Seq<A>, f: spec_fn(A) -> Option<B>, i: int)
    requires
        0 <= i < s.len(),
    ensures
        filter_map(s.take(i + 1), f) == filter_map(s.take(i), f) + opt_to_seq(f(s[i])),
{
    assert(s.take(i + 1).drop_last() =~= s.take(i));
    assert(s.take(i + 1).last() == s[i]);
}

/// A whole sequence is its own full prefix, for rewriting loop invariants
/// into claims about the final value.
pub proof fn lemma_take_all<A>(s: Seq<A>)
    ensures
        s.take(s.len() as int) == s,
{
    assert(s.take(s.len() as int) =~= s);
}

} // verus!
