//! How many elements of a sequence have a property.

use vstd::prelude::*;

verus! {

/// The number of elements of `s` that satisfy `p`.
pub open spec fn tally<A>(s: Seq<A>, p: spec_fn(A) -> bool) -> nat
    decreases s.len(),
{
    if s.len() == 0 {
        0
    } else {
        tally(s.drop_last(), p) + one_if(p(s.last()))
    }
}

/// 1 where `b` holds, else 0.
pub open spec fn one_if(b: bool) -> nat {
    if b {
        1
    } else {
        0
    }
}

pub proof fn lemma_tally_push<A>(s: Seq<A>, a: A, p: spec_fn(A) -> bool)
    ensures
        tally(s.push(a), p) == tally(s, p) + one_if(p(a)),
{
    assert(s.push(a).drop_last() =~= s);
}

pub proof fn lemma_tally_concat<A>(s: Seq<A>, t: Seq<A>, p: spec_fn(A) -> bool)
    ensures
        tally(s + t, p) == tally(s, p) + tally(t, p),
    decreases t.len(),
{
    if t.len() == 0 {
        assert(s + t =~= s);
    } else {
        assert((s + t).drop_last() =~= s + t.drop_last());
        lemma_tally_concat(s, t.drop_last(), p);
    }
}

pub proof fn lemma_tally_single<A>(a: A, p: spec_fn(A) -> bool)
    ensures
        tally(seq![a], p) == one_if(p(a)),
{
    lemma_tally_push(Seq::<A>::empty(), a, p);
    assert(Seq::<A>::empty().push(a) =~= seq![a]);
}

pub proof fn lemma_tally_first<A>(s: Seq<A>, p: spec_fn(A) -> bool)
    requires
        s.len() > 0,
    ensures
        tally(s, p) == one_if(p(s[0])) + tally(s.subrange(1, s.len() as int), p),
{
    let rest = s.subrange(1, s.len() as int);
    assert(s =~= seq![s[0]] + rest);
    lemma_tally_concat(seq![s[0]], rest, p);
    lemma_tally_single(s[0], p);
}

pub proof fn lemma_tally_update<A>(s: Seq<A>, i: int, a: A, p: spec_fn(A) -> bool)
    requires
        0 <= i < s.len(),
    ensures
        tally(s.update(i, a), p) + one_if(p(s[i])) == tally(s, p) + one_if(p(a)),
    decreases s.len(),
{
    if i == s.len() - 1 {
        assert(s.update(i, a).drop_last() =~= s.drop_last());
    } else {
        assert(s.update(i, a).drop_last() =~= s.drop_last().update(i, a));
        lemma_tally_update(s.drop_last(), i, a, p);
    }
}

pub proof fn lemma_tally_remove<A>(s: Seq<A>, i: int, p: spec_fn(A) -> bool)
    requires
        0 <= i < s.len(),
    ensures
        tally(s.remove(i), p) + one_if(p(s[i])) == tally(s, p),
{
    let before = s.subrange(0, i);
    let after = s.subrange(i + 1, s.len() as int);
    assert(s.remove(i) =~= before + after);
    assert(s =~= (before + seq![s[i]]) + after);
    lemma_tally_concat(before, after, p);
    lemma_tally_concat(before + seq![s[i]], after, p);
    lemma_tally_concat(before, seq![s[i]], p);
    lemma_tally_single(s[i], p);
}

/// A tally does not exceed the length.
pub proof fn lemma_tally_bounded<A>(s: Seq<A>, p: spec_fn(A) -> bool)
    ensures
        tally(s, p) <= s.len(),
    decreases s.len(),
{
    if s.len() > 0 {
        lemma_tally_bounded(s.drop_last(), p);
    }
}

/// A tally is 0 where no element satisfies `p`, and the length where all do.
pub proof fn lemma_tally_uniform<A>(s: Seq<A>, p: spec_fn(A) -> bool)
    ensures
        (forall|i: int| 0 <= i < s.len() ==> !p(#[trigger] s[i])) ==> tally(s, p) == 0,
        (forall|i: int| 0 <= i < s.len() ==> p(#[trigger] s[i])) ==> tally(s, p) == s.len(),
    decreases s.len(),
{
    if s.len() > 0 {
        lemma_tally_uniform(s.drop_last(), p);
        assert forall|i: int| 0 <= i < s.len() - 1 implies s.drop_last()[i] == s[i] by {}
        assert(s.last() == s[s.len() - 1]);
    }
}

/// An element that satisfies `p` is counted.
pub proof fn lemma_tally_counts<A>(s: Seq<A>, i: int, p: spec_fn(A) -> bool)
    requires
        0 <= i < s.len(),
        p(s[i]),
    ensures
        tally(s, p) >= 1,
{
    lemma_tally_remove(s, i, p);
}

} // verus!
