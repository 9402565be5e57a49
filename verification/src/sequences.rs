//! Facts about filtered sequences.

use vstd::prelude::*;

verus! {

/// A filter that every element passes keeps the sequence.
pub proof fn lemma_filter_all<T>(s: Seq<T>, keep: spec_fn(T) -> bool)
    requires
        forall|k: int| 0 <= k < s.len() ==> keep(#[trigger] s[k]),
    ensures
        s.filter(keep) == s,
    decreases s.len(),
{
    reveal(Seq::filter);
    if s.len() > 0 {
        lemma_filter_all(s.drop_last(), keep);
        assert(s.drop_last().push(s.last()) =~= s);
    }
}

/// A filter that no element passes keeps nothing.
pub proof fn lemma_filter_none<T>(s: Seq<T>, keep: spec_fn(T) -> bool)
    requires
        forall|k: int| 0 <= k < s.len() ==> !keep(#[trigger] s[k]),
    ensures
        s.filter(keep) == Seq::<T>::empty(),
    decreases s.len(),
{
    reveal(Seq::filter);
    if s.len() > 0 {
        lemma_filter_none(s.drop_last(), keep);
    }
}

/// What a filter keeps was there before.
pub proof fn lemma_filter_within<T>(s: Seq<T>, keep: spec_fn(T) -> bool, k: int)
    requires
        0 <= k < s.filter(keep).len(),
    ensures
        s.contains(s.filter(keep)[k]),
    decreases s.len(),
{
    reveal(Seq::filter);
    if s.len() > 0 {
        let front = s.drop_last().filter(keep);
        if k < front.len() {
            lemma_filter_within(s.drop_last(), keep, k);
            let n = choose|n: int| 0 <= n < s.drop_last().len() && s.drop_last()[n] == front[k];
            assert(s[n] == front[k]);
        } else {
            assert(s[s.len() - 1] == s.last());
        }
    }
}

/// What a filter keeps stands in the order it stood in: each kept element
/// comes from an index of its own, and later ones from later indices.
pub proof fn lemma_filter_order<T>(s: Seq<T>, keep: spec_fn(T) -> bool, a: int, b: int) -> (from: (
    int,
    int,
))
    requires
        0 <= a < b < s.filter(keep).len(),
    ensures
        0 <= from.0 < from.1 < s.len(),
        s[from.0] == s.filter(keep)[a],
        s[from.1] == s.filter(keep)[b],
    decreases s.len(),
{
    reveal(Seq::filter);
    let front = s.drop_last().filter(keep);
    if b < front.len() {
        lemma_filter_order(s.drop_last(), keep, a, b)
    } else {
        lemma_filter_within(s.drop_last(), keep, a);
        let n = choose|n: int| 0 <= n < s.drop_last().len() && s.drop_last()[n] == front[a];
        (n, s.len() - 1)
    }
}

} // verus!
