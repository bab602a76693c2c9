//! Substring search: every position where a query slice occurs in a base
//! slice.

use vstd::prelude::*;
use vstd::std_specs::cmp::PartialEqSpec;

verus! {

/// The query occurs in the base at position `i`, element by element under the
/// element type's equality.
pub open spec fn matches_at<T: PartialEqSpec>(query: Seq<T>, base: Seq<T>, i: int) -> bool {
    &&& 0 <= i
    &&& i + query.len() <= base.len()
    &&& forall|j: int| 0 <= j < query.len() ==> #[trigger] query[j].eq_spec(&base[i + j])
}

/// Whether the query occurs in the base at position `i`.
fn match_at<T: PartialEq + PartialEqSpec>(query: &[T], base: &[T], i: usize) -> (r: bool)
    requires
        T::obeys_eq_spec(),
        i + query@.len() <= base@.len(),
    ensures
        r == matches_at(query@, base@, i as int),
{
    let bn = base.len();
    let mut j: usize = 0;
    while j < query.len()
        invariant
            T::obeys_eq_spec(),
            bn == base@.len(),
            i + query@.len() <= base@.len(),
            j <= query@.len(),
            forall|k: int| 0 <= k < j ==> #[trigger] query@[k].eq_spec(&base@[i + k]),
        decreases query@.len() - j,
    {
        if !(query[j] == base[i + j]) {
            return false;
        }
        j = j + 1;
    }
    true
}

/// Returns, in increasing order, every position of the base at which the
/// query occurs. An empty query occurs at every position, the one just past
/// the end included.
pub fn find<T: PartialEq + PartialEqSpec>(query: &[T], base: &[T]) -> (r: Vec<usize>)
    requires
        T::obeys_eq_spec(),
    ensures
        forall|k: int| 0 <= k < r@.len() ==> matches_at(query@, base@, #[trigger] r@[k] as int),
        forall|i: usize| matches_at(query@, base@, i as int) ==> r@.contains(i),
        forall|k1: int, k2: int| 0 <= k1 < k2 < r@.len() ==> r@[k1] < r@[k2],
{
    let mut r: Vec<usize> = Vec::new();
    if query.len() > base.len() {
        return r;
    }
    let last = base.len() - query.len();
    let mut i: usize = 0;
    loop
        invariant_except_break
            forall|k: int| 0 <= k < r@.len() ==> r@[k] < i,
        invariant
            T::obeys_eq_spec(),
            query@.len() + last == base@.len(),
            i <= last,
            forall|k: int| 0 <= k < r@.len() ==> matches_at(query@, base@, #[trigger] r@[k] as int),
            forall|p: usize| p < i && matches_at(query@, base@, p as int) ==> r@.contains(p),
            forall|k1: int, k2: int| 0 <= k1 < k2 < r@.len() ==> r@[k1] < r@[k2],
        ensures
            query@.len() + last == base@.len(),
            forall|k: int| 0 <= k < r@.len() ==> matches_at(query@, base@, #[trigger] r@[k] as int),
            forall|p: usize| p <= last && matches_at(query@, base@, p as int) ==> r@.contains(p),
            forall|k1: int, k2: int| 0 <= k1 < k2 < r@.len() ==> r@[k1] < r@[k2],
        decreases last - i,
    {
        let ghost pre = r@;
        if match_at(query, base, i) {
            r.push(i);
            proof {
                assert(r@[r@.len() - 1] == i);
                assert forall|p: usize|
                    p < i + 1 && matches_at(query@, base@, p as int) implies r@.contains(p) by {
                    if p < i {
                        assert(pre.contains(p));
                        let k = choose|k: int| 0 <= k < pre.len() && pre[k] == p;
                        assert(r@ == pre.push(i));
                        assert(r@[k] == pre[k]);
                        assert(r@.contains(p));
                    } else {
                        assert(r@[r@.len() - 1] == p);
                    }
                }
            }
        } else {
            proof {
                assert forall|p: usize|
                    p < i + 1 && matches_at(query@, base@, p as int) implies r@.contains(p) by {
                    if p < i {
                        assert(r@.contains(p));
                    } else {
                        assert(!matches_at(query@, base@, p as int));
                    }
                }
            }
        }
        if i == last {
            break;
        }
        i = i + 1;
    }
    proof {
        assert forall|p: usize| matches_at(query@, base@, p as int) implies r@.contains(p) by {
            assert(p + query@.len() <= base@.len());
            assert(p <= last);
        }
    }
    r
}

} // verus!
