//! Sorting under a total preorder given by a marker type.
use vstd::prelude::*;
use vstd::multiset::Multiset;

verus! {

/// A total preorder on `T`, with a way to decide it.
pub trait SortOrder<T> {
    /// `a` may come before `b`.
    spec fn le(a: T, b: T) -> bool;

    proof fn lemma_total(a: T, b: T)
        ensures
            Self::le(a, b) || Self::le(b, a),
    ;

    proof fn lemma_trans(a: T, b: T, c: T)
        requires
            Self::le(a, b),
            Self::le(b, c),
        ensures
            Self::le(a, c),
    ;

    fn le_exec(a: &T, b: &T) -> (r: bool)
        ensures
            r == Self::le(*a, *b),
    ;
}

/// Every element of `s` may come before every later one.
pub open spec fn sorted_by<T, O: SortOrder<T>>(s: Seq<T>) -> bool {
    forall|i: int, j: int| 0 <= i < j < s.len() ==> O::le(s[i], s[j])
}

/// `p` maps the positions of a sequence of length `n` one-to-one onto the
/// positions of another sequence of length `n`.
pub open spec fn is_permutation(p: Seq<int>, n: nat) -> bool {
    &&& p.len() == n
    &&& forall|i: int| 0 <= i < n ==> 0 <= #[trigger] p[i] < n
    &&& forall|i: int, j: int| 0 <= i < j < n ==> p[i] != p[j]
}

/// `r` holds the elements of `v`, rearranged.
pub open spec fn is_rearrangement<T>(r: Seq<T>, v: Seq<T>) -> bool {
    exists|p: Seq<int>| is_permutation(p, v.len()) && r.len() == v.len() && forall|i: int|
        0 <= i < r.len() ==> #[trigger] r[i] == v[p[i]]
}

/// A one-to-one map of positions onto `0..n` reaches every position.
pub proof fn lemma_permutation_onto(p: Seq<int>, n: nat, k: int)
    requires
        is_permutation(p, n),
        0 <= k < n,
    ensures
        exists|i: int| 0 <= i < n && p[i] == k,
{
    let hit = Set::new(|j: int| exists|i: int| 0 <= i < n && p[i] == j);
    if !(exists|i: int| 0 <= i < n && p[i] == k) {
        // the n values of p fall in 0..n without k: n values in n - 1 places
        let img = Seq::new(n, |i: int| p[i]);
        assert(img.no_duplicates());
        let range = Set::new(|j: int| 0 <= j < n && j != k);
        assert forall|i: int| 0 <= i < img.len() implies range.contains(#[trigger] img[i]) by {
            assert(p[i] != k);
        }
        vstd::set_lib::lemma_int_range(0, n as int);
        assert(range =~= vstd::set_lib::set_int_range(0, n as int).remove(k));
        img.unique_seq_to_set();
        assert(img.to_set().subset_of(range));
        vstd::set_lib::lemma_len_subset(img.to_set(), range);
    }
}

/// The elements of `v`, rearranged so that they are sorted under `O`.
pub fn sort_by<T, O: SortOrder<T>>(v: Vec<T>) -> (r: Vec<T>)
    ensures
        r@.to_multiset() == v@.to_multiset(),
        is_rearrangement(r@, v@),
        sorted_by::<T, O>(r@),
{
    broadcast use vstd::seq_lib::group_to_multiset_ensures;

    let mut src = v;
    let mut res: Vec<T> = Vec::new();
    let ghost all = v@.to_multiset();
    let ghost orig = v@;
    let ghost mut perm: Seq<int> = Seq::empty();
    while src.len() > 0
        invariant
            res@.to_multiset().add(src@.to_multiset()) == all,
            sorted_by::<T, O>(res@),
            src@ == orig.take(src@.len() as int),
            res@.len() + src@.len() == orig.len(),
            perm.len() == res@.len(),
            forall|i: int| 0 <= i < res@.len() ==> src@.len() <= #[trigger] perm[i] < orig.len(),
            forall|i: int, j: int| 0 <= i < j < res@.len() ==> perm[i] != perm[j],
            forall|i: int| 0 <= i < res@.len() ==> #[trigger] res@[i] == orig[perm[i]],
        decreases src.len(),
    {
        let ghost before_src = src@;
        let x = src.pop().unwrap();
        assert(before_src =~= src@.push(x));
        let mut p: usize = 0;
        while p < res.len() && O::le_exec(&res[p], &x)
            invariant
                p <= res.len(),
                forall|k: int| 0 <= k < p ==> O::le(res@[k], x),
            decreases res.len() - p,
        {
            p = p + 1;
        }
        proof {
            if p < res.len() {
                O::lemma_total(res@[p as int], x);
            }
        }
        let ghost before = res@;
        let ghost before_perm = perm;
        res.insert(p, x);
        proof {
            perm = before_perm.insert(p as int, src@.len() as int);
            assert(src@ =~= orig.take(src@.len() as int));
            assert(x == orig[src@.len() as int]);
            assert forall|i: int| 0 <= i < res@.len() implies #[trigger] res@[i] == orig[perm[i]] by {
                if i < p {
                } else if i == p {
                } else {
                    assert(res@[i] == before[i - 1]);
                }
            }
            assert forall|i: int, j: int| 0 <= i < j < res@.len() implies perm[i] != perm[j] by {
                if j < p {
                } else if j == p {
                    assert(perm[i] > src@.len());
                } else if i < p {
                } else if i == p {
                    assert(perm[j] == before_perm[j - 1]);
                } else {
                }
            }
            assert forall|i: int, j: int| 0 <= i < j < res@.len() implies O::le(res@[i], res@[j]) by {
                if j < p {
                } else if j == p {
                } else if i < p {
                } else if i == p {
                    if j - 1 > p {
                        O::lemma_trans(x, before[p as int], before[j - 1]);
                    }
                } else {
                }
            }
            broadcast use vstd::multiset::group_multiset_axioms;
            assert(res@ == before.insert(p as int, x));
            vstd::seq_lib::to_multiset_insert(before, p as int, x);
            vstd::seq_lib::to_multiset_build(src@, x);
            assert(res@.to_multiset() == before.to_multiset().insert(x));
            assert(before_src.to_multiset() == src@.to_multiset().insert(x));
            assert(res@.to_multiset().add(src@.to_multiset()) =~= before.to_multiset().add(before_src.to_multiset()));
        }
    }
    assert(src@.to_multiset() =~= Multiset::empty());
    assert(res@.to_multiset() =~= all);
    assert(is_permutation(perm, orig.len()));
    res
}

} // verus!
