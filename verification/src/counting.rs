//! Counting how often something occurs in a sequence.
use vstd::prelude::*;

verus! {

/// How many entries of `s` are `x`.
pub open spec fn occurrences<T>(s: Seq<T>, x: T) -> nat
    decreases s.len(),
{
    if s.len() == 0 {
        0
    } else {
        occurrences(s.drop_last(), x) + if s.last() == x {
            1nat
        } else {
            0nat
        }
    }
}

/// What does not stand in a sequence occurs in it no times.
pub proof fn lemma_occurrences_absent<T>(s: Seq<T>, x: T)
    requires
        forall|i: int| 0 <= i < s.len() ==> #[trigger] s[i] != x,
    ensures
        occurrences(s, x) == 0,
    decreases s.len(),
{
    if s.len() > 0 {
        let init = s.drop_last();
        assert forall|i: int| 0 <= i < init.len() implies #[trigger] init[i] != x by {
            assert(init[i] == s[i]);
        }
        lemma_occurrences_absent(init, x);
        assert(s[s.len() - 1] != x);
    }
}

/// What stands in a sequence without repetition occurs in it once.
pub proof fn lemma_occurrences_once<T>(s: Seq<T>, k: int)
    requires
        0 <= k < s.len(),
        forall|i: int, j: int| 0 <= i < j < s.len() ==> #[trigger] s[i] != #[trigger] s[j],
    ensures
        occurrences(s, s[k]) == 1,
    decreases s.len(),
{
    let init = s.drop_last();
    assert forall|i: int, j: int| 0 <= i < j < init.len() implies #[trigger] init[i]
        != #[trigger] init[j] by {
        assert(init[i] == s[i] && init[j] == s[j]);
    }
    if k == s.len() - 1 {
        assert forall|i: int| 0 <= i < init.len() implies #[trigger] init[i] != s[k] by {
            assert(init[i] == s[i]);
            assert(s[i] != s[k]);
        }
        lemma_occurrences_absent(init, s[k]);
    } else {
        assert(init[k] == s[k]);
        lemma_occurrences_once(init, k);
        assert(s[k] != s[s.len() - 1]);
    }
}

/// Occurrences add up over concatenation.
pub proof fn lemma_occurrences_add<T>(a: Seq<T>, b: Seq<T>, x: T)
    ensures
        occurrences(a + b, x) == occurrences(a, x) + occurrences(b, x),
    decreases b.len(),
{
    if b.len() == 0 {
        assert(a + b =~= a);
    } else {
        lemma_occurrences_add(a, b.drop_last(), x);
        assert((a + b).drop_last() =~= a + b.drop_last());
        assert((a + b).last() == b.last());
    }
}

/// Under a mapping that sends different things to different things, the image of `x`
/// occurs among the images as often as `x` occurs among the things.
pub proof fn lemma_occurrences_map<T, U>(s: Seq<T>, f: spec_fn(T) -> U, x: T)
    requires
        forall|a: T, b: T| #[trigger] f(a) == #[trigger] f(b) ==> a == b,
    ensures
        occurrences(s.map_values(f), f(x)) == occurrences(s, x),
    decreases s.len(),
{
    if s.len() > 0 {
        lemma_occurrences_map(s.drop_last(), f, x);
        assert(s.map_values(f).drop_last() =~= s.drop_last().map_values(f));
        assert(s.map_values(f).last() == f(s.last()));
    }
}

} // verus!
