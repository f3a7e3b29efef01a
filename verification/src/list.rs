//! First-match search over sequences, shared by the reducer (find a pair or
//! an endpoint by id) and the store (find a row by id).

use vstd::prelude::*;

verus! {

/// Index of the first element satisfying `p`, or -1 if none does.
pub open spec fn first_where<T>(s: Seq<T>, p: spec_fn(T) -> bool) -> int
    decreases s.len(),
{
    if s.len() == 0 {
        -1
    } else if p(s[0]) {
        0
    } else {
        let r = first_where(s.drop_first(), p);
        if r < 0 {
            -1
        } else {
            r + 1
        }
    }
}

/// A scan that saw no match before `i`, and a match at `i` if `i` is in
/// range, has found exactly the first match.
pub proof fn lemma_first_where_found<T>(s: Seq<T>, p: spec_fn(T) -> bool, i: int)
    requires
        0 <= i <= s.len(),
        forall|j: int| 0 <= j < i ==> !p(s[j]),
        i < s.len() ==> p(s[i]),
    ensures
        first_where(s, p) == if i < s.len() { i } else { -1 },
    decreases s.len(),
{
    if s.len() == 0 {
    } else if p(s[0]) {
        assert(i == 0);
    } else {
        assert(!p(s[0]));
        assert(i >= 1) by {
            if i == 0 {
                assert(i < s.len() ==> p(s[i]));
            }
        }
        let d = s.drop_first();
        assert forall|j: int| 0 <= j < i - 1 implies !p(d[j]) by {
            assert(d[j] == s[j + 1]);
        }
        assert(i - 1 < d.len() ==> p(d[i - 1])) by {
            if i - 1 < d.len() {
                assert(d[i - 1] == s[i]);
            }
        }
        lemma_first_where_found(d, p, i - 1);
    }
}

/// What the first-match index tells us about the sequence.
pub proof fn lemma_first_where_props<T>(s: Seq<T>, p: spec_fn(T) -> bool)
    ensures
        first_where(s, p) >= 0 ==> {
            &&& first_where(s, p) < s.len()
            &&& p(s[first_where(s, p)])
            &&& forall|j: int| 0 <= j < first_where(s, p) ==> !p(s[j])
        },
        first_where(s, p) < 0 ==> forall|j: int| 0 <= j < s.len() ==> !p(s[j]),
    decreases s.len(),
{
    if s.len() == 0 {
    } else if p(s[0]) {
    } else {
        let d = s.drop_first();
        lemma_first_where_props(d, p);
        assert forall|j: int| 0 <= j < s.len() && !(j == 0) implies s[j] == d[j - 1] by {}
    }
}

/// Filtering a sequence extended by one element keeps the element exactly
/// when it satisfies the predicate.
pub proof fn lemma_filter_push<T>(s: Seq<T>, p: spec_fn(T) -> bool, x: T)
    ensures
        s.push(x).filter(p) == (if p(x) {
            s.filter(p).push(x)
        } else {
            s.filter(p)
        }),
{
    reveal(Seq::filter);
    assert(s.push(x).drop_last() =~= s);
    assert(s.push(x).last() == x);
}

/// Filtering keeps nothing when no element satisfies the predicate.
pub proof fn lemma_filter_none<T>(s: Seq<T>, p: spec_fn(T) -> bool)
    requires
        forall|i: int| 0 <= i < s.len() ==> !p(s[i]),
    ensures
        s.filter(p) == Seq::<T>::empty(),
    decreases s.len(),
{
    reveal(Seq::filter);
    if s.len() == 0 {
        assert(s =~= Seq::<T>::empty());
    } else {
        lemma_filter_none(s.drop_last(), p);
    }
}

/// Filtering keeps everything when every element satisfies the predicate.
pub proof fn lemma_filter_all<T>(s: Seq<T>, p: spec_fn(T) -> bool)
    requires
        forall|i: int| 0 <= i < s.len() ==> p(s[i]),
    ensures
        s.filter(p) == s,
    decreases s.len(),
{
    reveal(Seq::filter);
    if s.len() == 0 {
    } else {
        lemma_filter_all(s.drop_last(), p);
        assert(s.drop_last().push(s.last()) =~= s);
    }
}

/// Every element of a filtered sequence occurs in the original.
pub proof fn lemma_filter_in_original<T>(s: Seq<T>, p: spec_fn(T) -> bool)
    ensures
        forall|i: int| 0 <= i < s.filter(p).len() ==> s.contains(#[trigger] s.filter(p)[i]),
    decreases s.len(),
{
    reveal(Seq::filter);
    if s.len() == 0 {
    } else {
        let d = s.drop_last();
        lemma_filter_in_original(d, p);
        assert forall|i: int| 0 <= i < s.filter(p).len() implies s.contains(
            #[trigger] s.filter(p)[i],
        ) by {
            if p(s.last()) && i == s.filter(p).len() - 1 {
                assert(s.filter(p)[i] == s.last());
                assert(s[s.len() - 1] == s.last());
            } else {
                assert(s.filter(p)[i] == d.filter(p)[i]);
                assert(d.contains(d.filter(p)[i]));
                let j = choose|j: int| 0 <= j < d.len() && d[j] == d.filter(p)[i];
                assert(s[j] == d[j]);
            }
        }
    }
}

/// Every element of a sequence occurs in it.
pub proof fn lemma_all_contained<T>(s: Seq<T>)
    ensures
        forall|i: int| 0 <= i < s.len() ==> s.contains(#[trigger] s[i]),
{
    assert forall|i: int| 0 <= i < s.len() implies s.contains(#[trigger] s[i]) by {
        assert(0 <= i < s.len() && s[i] == s[i]);
    }
}

} // verus!
