//! Ordered listings: keeping a vector sorted under a strict order while
//! inserting into it.

use vstd::prelude::*;
use crate::table::{enumerates, Record};

verus! {

/// A strict order on the views of a type.
pub trait Ranked: View + Sized {
    spec fn precedes(a: Self::V, b: Self::V) -> bool;

    proof fn lemma_strict_order(a: Self::V, b: Self::V, c: Self::V)
        ensures
            !Self::precedes(a, a),
            Self::precedes(a, b) && Self::precedes(b, c) ==> Self::precedes(a, c),
    ;

    fn comes_before(&self, other: &Self) -> (r: bool)
        ensures
            r == Self::precedes(self@, other@),
    ;
}

/// Every element precedes every later one.
pub open spec fn sorted_by<T: Ranked>(s: Seq<T>) -> bool {
    forall|i: int, j: int|
        #![trigger s[i], s[j]]
        0 <= i < j < s.len() ==> T::precedes(s[i]@, s[j]@)
}

/// Inserts `x` at the place that keeps `v` sorted; `x` must be comparable
/// with every element.
pub fn insert_sorted<T: Ranked>(v: &mut Vec<T>, x: T)
    requires
        sorted_by(old(v)@),
        forall|i: int|
            0 <= i < old(v)@.len() ==> T::precedes(#[trigger] old(v)@[i]@, x@) || T::precedes(
                x@,
                old(v)@[i]@,
            ),
    ensures
        sorted_by(final(v)@),
        exists|p: int| 0 <= p <= old(v)@.len() && final(v)@ == old(v)@.insert(p, x),
{
    let ghost old_v = v@;
    let mut p: usize = 0;
    while p < v.len() && !x.comes_before(&v[p])
        invariant
            v@ == old_v,
            p <= v@.len(),
            forall|i: int| 0 <= i < p ==> T::precedes(#[trigger] v@[i]@, x@),
            forall|i: int|
                0 <= i < v@.len() ==> T::precedes(#[trigger] v@[i]@, x@) || T::precedes(
                    x@,
                    v@[i]@,
                ),
        decreases v@.len() - p,
    {
        p = p + 1;
    }
    let ghost xv = x@;
    v.insert(p, x);
    proof {
        let n = v@;
        assert(n == old_v.insert(p as int, n[p as int]));
        assert forall|i: int, j: int| 0 <= i < j < n.len() implies T::precedes(
            #[trigger] n[i]@,
            #[trigger] n[j]@,
        ) by {
            if j < p {
                assert(n[i] == old_v[i] && n[j] == old_v[j]);
            } else if j == p {
                assert(n[i] == old_v[i]);
            } else if i == p {
                assert(n[j] == old_v[j - 1]);
                if p < old_v.len() {
                    assert(T::precedes(xv, old_v[p as int]@));
                    if j - 1 > p {
                        assert(T::precedes(old_v[p as int]@, old_v[j - 1]@));
                        T::lemma_strict_order(xv, old_v[p as int]@, old_v[j - 1]@);
                    }
                }
            } else if i < p {
                assert(n[i] == old_v[i] && n[j] == old_v[j - 1]);
            } else {
                assert(n[i] == old_v[i - 1] && n[j] == old_v[j - 1]);
            }
        }
    }
}

/// `h` is the key of some element of `s`.
pub open spec fn has_key<T: Record<K = u128>>(s: Seq<T>, h: u128) -> bool {
    exists|i: int| 0 <= i < s.len() && T::key_of(#[trigger] s[i]@) == h
}

/// The rows of a table that satisfy `keep`, copied and sorted by rank; `p`
/// states at the level of views what `keep` tests.
pub fn collect_sorted<T: Record<K = u128> + Ranked, F: Fn(&T) -> bool>(
    rows: &Vec<T>,
    keep: F,
    Ghost(m): Ghost<Map<u128, T::V>>,
    Ghost(p): Ghost<spec_fn(T::V) -> bool>,
) -> (r: Vec<T>)
    requires
        enumerates::<T>(m, rows@),
        forall|t: &T| #[trigger] keep.requires((t,)),
        forall|t: &T, b: bool| keep.ensures((t,), b) ==> b == p(t@),
        forall|a: T::V, b: T::V|
            #![trigger T::precedes(a, b)]
            T::key_of(a) != T::key_of(b) ==> T::precedes(a, b) || T::precedes(b, a),
    ensures
        sorted_by(r@),
        forall|i: int|
            #![trigger r@[i]]
            0 <= i < r@.len() ==> m.contains_key(T::key_of(r@[i]@)) && m[T::key_of(r@[i]@)]
                == r@[i]@ && p(r@[i]@),
        forall|k: u128| #[trigger] m.contains_key(k) && p(m[k]) ==> has_key(r@, k),
{
    let mut r: Vec<T> = Vec::new();
    let mut i: usize = 0;
    while i < rows.len()
        invariant
            enumerates::<T>(m, rows@),
            forall|t: &T| #[trigger] keep.requires((t,)),
            forall|t: &T, b: bool| keep.ensures((t,), b) ==> b == p(t@),
            forall|a: T::V, b: T::V|
                #![trigger T::precedes(a, b)]
                T::key_of(a) != T::key_of(b) ==> T::precedes(a, b) || T::precedes(b, a),
            i <= rows@.len(),
            sorted_by(r@),
            forall|k: int|
                #![trigger r@[k]]
                0 <= k < r@.len() ==> exists|j: int|
                    0 <= j < i && #[trigger] rows@[j]@ == r@[k]@,
            forall|k: int|
                #![trigger r@[k]]
                0 <= k < r@.len() ==> p(r@[k]@),
            forall|j: int|
                0 <= j < i && p(rows@[j]@) ==> has_key(r@, T::key_of(#[trigger] rows@[j]@)),
        decreases rows@.len() - i,
    {
        let ghost before = r@;
        if keep(&rows[i]) {
            let t = rows[i].copy_record();
            proof {
                assert forall|k: int|
                    0 <= k < before.len() implies T::precedes(#[trigger] before[k]@, t@)
                    || T::precedes(t@, before[k]@) by {
                    let j = choose|j: int| 0 <= j < i && #[trigger] rows@[j]@ == before[k]@;
                    assert(T::key_of(rows@[j]@) != T::key_of(rows@[i as int]@));
                    assert(T::precedes(before[k]@, t@) || T::precedes(t@, before[k]@));
                }
            }
            insert_sorted(&mut r, t);
            proof {
                let q = choose|q: int| 0 <= q <= before.len() && r@ == before.insert(q, t);
                assert forall|k: int|
                    #![trigger r@[k]]
                    0 <= k < r@.len() implies exists|j: int|
                    0 <= j < i + 1 && #[trigger] rows@[j]@ == r@[k]@ by {
                    if k < q {
                        assert(r@[k] == before[k]);
                        let j = choose|j: int| 0 <= j < i && #[trigger] rows@[j]@ == before[k]@;
                        assert(0 <= j < i + 1);
                    } else if k > q {
                        assert(r@[k] == before[k - 1]);
                        let j = choose|j: int| 0 <= j < i && #[trigger] rows@[j]@ == before[k - 1]@;
                        assert(0 <= j < i + 1);
                    } else {
                        assert(rows@[i as int]@ == r@[k]@);
                    }
                }
                assert forall|k: int| #![trigger r@[k]] 0 <= k < r@.len() implies p(r@[k]@) by {
                    if k < q {
                        assert(r@[k] == before[k]);
                    } else if k > q {
                        assert(r@[k] == before[k - 1]);
                    }
                }
                assert forall|j: int|
                    0 <= j < i + 1 && p(rows@[j]@) implies has_key(r@, T::key_of(#[trigger] rows@[j]@)) by {
                    if j < i {
                        let k = choose|k: int| 0 <= k < before.len() && T::key_of(#[trigger] before[k]@) == T::key_of(rows@[j]@);
                        if k < q {
                            assert(r@[k] == before[k]);
                        } else {
                            assert(r@[k + 1] == before[k]);
                        }
                    } else {
                        assert(r@[q] == t);
                    }
                }
            }
        }
        i = i + 1;
    }
    proof {
        assert forall|k: int|
            #![trigger r@[k]]
            0 <= k < r@.len() implies m.contains_key(T::key_of(r@[k]@)) && m[T::key_of(r@[k]@)]
                == r@[k]@ && p(r@[k]@) by {
            let j = choose|j: int| 0 <= j < rows@.len() && #[trigger] rows@[j]@ == r@[k]@;
        }
        assert forall|k: u128| #[trigger] m.contains_key(k) && p(m[k]) implies has_key(r@, k) by {
            let j = choose|j: int| 0 <= j < rows@.len() && T::key_of(rows@[j]@) == k;
            assert(m[T::key_of(rows@[j]@)] == rows@[j]@);
        }
    }
    r
}

} // verus!
