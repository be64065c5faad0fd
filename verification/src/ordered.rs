//! Strictly increasing vectors that stand for finite sets.

use vstd::prelude::*;

use crate::keyed::UserKey;

verus! {

/// Keys with a strict total order decidable in executable code.
pub trait SortKey: Copy + Sized {
    spec fn precedes(self, other: Self) -> bool;

    fn less_than(&self, other: &Self) -> (r: bool)
        ensures
            r == self.precedes(*other),
    ;

    proof fn lemma_order(a: Self, b: Self, c: Self)
        ensures
            !a.precedes(a),
            a.precedes(b) || b.precedes(a) || a == b,
            a.precedes(b) && b.precedes(c) ==> a.precedes(c),
    ;
}

impl SortKey for u128 {
    open spec fn precedes(self, other: Self) -> bool {
        self < other
    }

    fn less_than(&self, other: &Self) -> (r: bool) {
        *self < *other
    }

    proof fn lemma_order(a: Self, b: Self, c: Self) {
    }
}

/// User keys are ordered by organization, then by user: the order of the
/// pair of UUIDs.
impl SortKey for UserKey {
    open spec fn precedes(self, other: Self) -> bool {
        self.organization_id < other.organization_id || (self.organization_id == other.organization_id
            && self.user_id < other.user_id)
    }

    fn less_than(&self, other: &Self) -> (r: bool) {
        self.organization_id < other.organization_id || (self.organization_id == other.organization_id
            && self.user_id < other.user_id)
    }

    proof fn lemma_order(a: Self, b: Self, c: Self) {
    }
}

/// Every element precedes every later one: the sequence is sorted and holds
/// no element twice.
pub open spec fn strictly_sorted<T: SortKey>(s: Seq<T>) -> bool {
    forall|i: int, j: int| 0 <= i < j < s.len() ==> #[trigger] s[i].precedes(#[trigger] s[j])
}

/// A copy of a vector of plain values.
pub fn copy_vec<T: Copy>(v: &Vec<T>) -> (r: Vec<T>)
    ensures
        r@ == v@,
{
    let mut r: Vec<T> = Vec::new();
    let n = v.len();
    let mut i: usize = 0;
    while i < n
        invariant
            n == v@.len(),
            i <= n,
            r@ == v@.take(i as int),
        decreases n - i,
    {
        r.push(v[i]);
        assert(v@.take(i + 1) =~= v@.take(i as int).push(v@[i as int]));
        i = i + 1;
    }
    assert(v@.take(n as int) =~= v@);
    r
}

/// Adds `x` to a strictly sorted vector, where it is not there yet.
pub fn insert_sorted<T: SortKey>(v: &mut Vec<T>, x: T)
    requires
        strictly_sorted(old(v)@),
    ensures
        strictly_sorted(final(v)@),
        final(v)@.to_set() == old(v)@.to_set().insert(x),
{
    let n = v.len();
    let mut p: usize = 0;
    while p < n && v[p].less_than(&x)
        invariant
            n == v@.len(),
            p <= n,
            forall|j: int| 0 <= j < p ==> #[trigger] v@[j].precedes(x),
        decreases n - p,
    {
        p = p + 1;
    }
    let ghost before = v@;
    if p < n && !x.less_than(&v[p]) {
        proof {
            T::lemma_order(v@[p as int], x, x);
            assert(v@[p as int] == x);
            assert(v@.to_set().insert(x) =~= v@.to_set()) by {
                assert(v@.contains(x)) by {
                    assert(v@[p as int] == x);
                }
            }
        }
        return;
    }
    v.insert(p, x);
    proof {
        assert forall|i: int, j: int| 0 <= i < j < v@.len() implies #[trigger] v@[i].precedes(#[trigger] v@[j]) by {
            if j < p {
                assert(before[i].precedes(before[j]));
            } else if j == p {
                assert(before[i].precedes(x));
            } else if i < p {
                assert(before[i].precedes(x));
                T::lemma_order(before[j - 1], x, x);
                if p < j - 1 {
                    T::lemma_order(before[p as int], before[j - 1], x);
                    assert(before[p as int].precedes(before[j - 1]));
                    T::lemma_order(x, before[p as int], before[j - 1]);
                }
                T::lemma_order(x, before[p as int], before[j - 1]);
                T::lemma_order(before[i], x, before[j - 1]);
            } else if i == p {
                T::lemma_order(x, before[p as int], x);
                if p < j - 1 {
                    assert(before[p as int].precedes(before[j - 1]));
                }
                T::lemma_order(x, before[p as int], before[j - 1]);
            } else {
                assert(before[i - 1].precedes(before[j - 1]));
            }
        }
        assert forall|y: T| #[trigger] v@.to_set().contains(y) <==> before.to_set().insert(x).contains(y) by {
            if v@.contains(y) {
                let k = choose|k: int| 0 <= k < v@.len() && v@[k] == y;
                if k < p {
                    assert(before[k] == y);
                } else if k > p {
                    assert(before[k - 1] == y);
                }
            }
            if before.contains(y) {
                let k = choose|k: int| 0 <= k < before.len() && before[k] == y;
                if k < p {
                    assert(v@[k] == y);
                } else {
                    assert(v@[k + 1] == y);
                }
            }
            if y == x {
                assert(v@[p as int] == x);
            }
        }
        assert(v@.to_set() =~= before.to_set().insert(x));
    }
}

} // verus!
