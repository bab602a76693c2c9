//! Order statistics over lists of integers: the median and the smallest mode.

use vstd::multiset::Multiset;
use vstd::prelude::*;
use vstd::seq_lib::group_to_multiset_ensures;

verus! {

/// The elements appear in non-decreasing order.
pub open spec fn sorted(s: Seq<isize>) -> bool {
    forall|i: int, j: int| 0 <= i < j < s.len() ==> s[i] <= s[j]
}

/// How often `x` occurs in `s`.
pub open spec fn occurrences(s: Seq<isize>, x: isize) -> nat {
    s.to_multiset().count(x)
}

/// Sorts the list: the result is the non-decreasing arrangement of exactly
/// the given elements.
pub fn sort_list(values: Vec<isize>) -> (r: Vec<isize>)
    ensures
        sorted(r@),
        r@.to_multiset() == values@.to_multiset(),
        r@.len() == values@.len(),
{
    broadcast use group_to_multiset_ensures;

    let mut rem = values;
    let ghost orig = rem@;
    let mut out: Vec<isize> = Vec::new();
    while rem.len() > 0
        invariant
            sorted(out@),
            out@.to_multiset().add(rem@.to_multiset()) =~= orig.to_multiset(),
            out@.len() + rem@.len() == orig.len(),
            forall|i: int, j: int|
                0 <= i < out@.len() && 0 <= j < rem@.len() ==> out@[i] <= rem@[j],
        decreases rem@.len(),
    {
        broadcast use group_to_multiset_ensures;

        let mut mi: usize = 0;
        let mut j: usize = 1;
        while j < rem.len()
            invariant
                mi < j <= rem@.len(),
                rem@.len() > 0,
                forall|k: int| 0 <= k < j ==> rem@[mi as int] <= rem@[k],
            decreases rem@.len() - j,
        {
            if rem[j] < rem[mi] {
                mi = j;
            }
            j = j + 1;
        }
        let ghost pre = rem@;
        let x = rem.remove(mi);
        out.push(x);
        proof {
            assert(pre.to_multiset().count(x) > 0);
        }
    }
    proof {
        assert(rem@.to_multiset() =~= Multiset::<isize>::empty());
        assert(out@.to_multiset() =~= orig.to_multiset());
    }
    out
}

/// Returns the median: for `n` elements the `(n/2 + 1)`-th smallest, counting
/// from one — the middle element for odd `n`, the upper middle for even `n`.
/// Returns `None` exactly when the list is empty.
pub fn median(values: Vec<isize>) -> (r: Option<isize>)
    ensures
        r is None <==> values@.len() == 0,
        r matches Some(m) ==> exists|s: Seq<isize>|
            #[trigger] sorted(s) && s.to_multiset() == values@.to_multiset() && s.len()
                == values@.len() && m == s[s.len() as int / 2],
{
    let ghost input = values@;
    let sv = sort_list(values);
    if sv.len() == 0 {
        return Option::None;
    }
    let m = sv[sv.len() / 2];
    proof {
        assert(sorted(sv@) && sv@.to_multiset() == input.to_multiset() && sv@.len() == input.len()
            && m == sv@[sv@.len() as int / 2]);
    }
    Option::Some(m)
}

/// Counts how often `x` occurs in `values`.
fn count_of(values: &Vec<isize>, x: isize) -> (c: usize)
    ensures
        c == occurrences(values@, x),
{
    broadcast use group_to_multiset_ensures;

    let mut c: usize = 0;
    let mut j: usize = 0;
    while j < values.len()
        invariant
            j <= values@.len(),
            c == occurrences(values@.take(j as int), x),
            c <= j,
        decreases values@.len() - j,
    {
        broadcast use group_to_multiset_ensures;

        proof {
            assert(values@.take(j as int + 1) =~= values@.take(j as int).push(values@[j as int]));
        }
        if values[j] == x {
            c = c + 1;
        }
        j = j + 1;
    }
    proof {
        assert(values@.take(values@.len() as int) =~= values@);
    }
    c
}

/// Returns the smallest mode: among the values that occur most often, the
/// least one. Returns `None` exactly when the list is empty.
pub fn mode(values: Vec<isize>) -> (r: Option<isize>)
    ensures
        r is None <==> values@.len() == 0,
        r matches Some(m) ==> {
            &&& occurrences(values@, m) >= 1
            &&& forall|x: isize| #[trigger] occurrences(values@, x) <= occurrences(values@, m)
            &&& forall|x: isize|
                #[trigger] occurrences(values@, x) == occurrences(values@, m) ==> m <= x
        },
{
    broadcast use group_to_multiset_ensures;

    if values.len() == 0 {
        return Option::None;
    }
    let mut best = values[0];
    let mut best_count = count_of(&values, best);
    let mut i: usize = 1;
    proof {
        assert(values@.contains(values@[0]));
    }
    while i < values.len()
        invariant
            1 <= i <= values@.len(),
            best_count == occurrences(values@, best),
            best_count >= 1,
            values@.contains(best),
            forall|j: int|
                0 <= j < i ==> #[trigger] occurrences(values@, values@[j]) <= best_count,
            forall|j: int|
                0 <= j < i ==> (occurrences(values@, values@[j]) == best_count ==> best
                    <= values@[j]),
        decreases values@.len() - i,
    {
        broadcast use group_to_multiset_ensures;

        let c = count_of(&values, values[i]);
        if c > best_count || (c == best_count && values[i] < best) {
            best = values[i];
            best_count = c;
            proof {
                assert(values@.contains(values@[i as int]));
            }
        }
        i = i + 1;
    }
    proof {
        assert forall|x: isize| #[trigger] occurrences(values@, x) <= occurrences(values@, best) by {
            if occurrences(values@, x) >= 1 {
                assert(values@.to_multiset().count(x) > 0);
                assert(values@.contains(x));
                let j = choose|j: int| 0 <= j < values@.len() && values@[j] == x;
                assert(occurrences(values@, values@[j]) <= occurrences(values@, best));
            }
        }
        assert forall|x: isize|
            #[trigger] occurrences(values@, x) == occurrences(values@, best) implies best <= x by {
            assert(occurrences(values@, x) >= 1);
            assert(values@.to_multiset().count(x) > 0);
            assert(values@.contains(x));
            let j = choose|j: int| 0 <= j < values@.len() && values@[j] == x;
            assert(occurrences(values@, values@[j]) == occurrences(values@, best));
        }
    }
    Option::Some(best)
}

} // verus!
