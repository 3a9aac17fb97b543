//! Median and mode of a non-empty sequence of integers.
//!
//! The median is reported as the two middle elements of the ascending
//! rearrangement of the input (the same element twice when the length is
//! odd), so that callers can average them in whatever numeric width they
//! need. The mode is the most frequent value; when several values tie for
//! the highest count, the smallest of them is returned, so the result is
//! deterministic.

use vstd::multiset::Multiset;
use vstd::prelude::*;

verus! {

/// The elements of `s` are in ascending order.
pub open spec fn sorted(s: Seq<i32>) -> bool {
    forall|i: int, j: int| 0 <= i < j < s.len() ==> s[i] <= s[j]
}

/// How many times `x` occurs in `s`.
pub open spec fn count_of(s: Seq<i32>, x: i32) -> nat {
    s.to_multiset().count(x)
}

/// `t` is the ascending rearrangement of `s`.
pub open spec fn is_sorted_version(s: Seq<i32>, t: Seq<i32>) -> bool {
    sorted(t) && t.to_multiset() == s.to_multiset()
}

/// `lo` and `hi` are the two middle elements of the ascending rearrangement
/// of `s`; for odd length both name the single middle element.
pub open spec fn is_median_pair(s: Seq<i32>, lo: i32, hi: i32) -> bool {
    exists|t: Seq<i32>|
        #[trigger] is_sorted_version(s, t) && lo == t[(s.len() - 1) / 2] && hi == t[
            s.len() as int / 2
        ]
}

/// `m` occurs in `s` and no value occurs more often than `m`.
pub open spec fn is_mode(s: Seq<i32>, m: i32) -> bool {
    s.contains(m) && forall|x: i32| #[trigger] count_of(s, x) <= count_of(s, m)
}

/// `m` is the smallest among the values of maximal count in `s`.
pub open spec fn is_least_mode(s: Seq<i32>, m: i32) -> bool {
    is_mode(s, m) && forall|x: i32| #[trigger] is_mode(s, x) ==> m <= x
}

/// Median and mode of one sequence. `median_low` and `median_high` are the
/// two middle elements of the ascending rearrangement; the median itself is
/// their average, so it equals `median_low` exactly when the two are equal,
/// which always holds for odd-length input.
#[derive(Clone, Copy, Debug, PartialEq, Eq, Structural)]
pub struct MedianMode {
    pub median_low: i32,
    pub median_high: i32,
    pub mode: i32,
}

/// The one input the calculator rejects.
#[derive(Clone, Copy, Debug, PartialEq, Eq, Structural)]
pub enum StatsError {
    EmptyInput,
}

/// Counts how many elements of `v` equal `x`.
pub fn count_occurrences(v: &Vec<i32>, x: i32) -> (c: usize)
    ensures
        c == count_of(v@, x),
{
    let mut c: usize = 0;
    let mut i: usize = 0;
    proof {
        broadcast use vstd::seq_lib::group_to_multiset_ensures;
        broadcast use vstd::multiset::group_multiset_axioms;
        broadcast use vstd::multiset::lemma_multiset_empty_len;

        assert(v@.subrange(0, 0) =~= Seq::<i32>::empty());
        assert(count_of(v@.subrange(0, 0), x) == 0);
    }
    while i < v.len()
        invariant
            i <= v@.len(),
            c <= i,
            c == count_of(v@.subrange(0, i as int), x),
        decreases v@.len() - i,
    {
        proof {
            broadcast use vstd::seq_lib::group_to_multiset_ensures;
            broadcast use vstd::multiset::group_multiset_axioms;

            assert(v@.subrange(0, i + 1) =~= v@.subrange(0, i as int).push(v@[i as int]));
        }
        if v[i] == x {
            c = c + 1;
        }
        i = i + 1;
    }
    proof {
        assert(v@.subrange(0, v@.len() as int) =~= v@);
    }
    c
}

/// Returns the most frequent value of `v`; among tied values the smallest.
pub fn find_mode(v: &Vec<i32>) -> (m: i32)
    requires
        v@.len() > 0,
    ensures
        is_least_mode(v@, m),
{
    let mut best: i32 = v[0];
    let mut best_count: usize = count_occurrences(v, best);
    let mut i: usize = 1;
    while i < v.len()
        invariant
            1 <= i <= v@.len(),
            v@.contains(best),
            best_count == count_of(v@, best),
            forall|k: int| 0 <= k < i ==> #[trigger] count_of(v@, v@[k]) <= best_count,
            forall|k: int|
                0 <= k < i && #[trigger] count_of(v@, v@[k]) == best_count ==> best <= v@[k],
        decreases v@.len() - i,
    {
        let c = count_occurrences(v, v[i]);
        if c > best_count || (c == best_count && v[i] < best) {
            best = v[i];
            best_count = c;
        }
        i = i + 1;
    }
    proof {
        broadcast use vstd::seq_lib::group_to_multiset_ensures;

        assert forall|x: i32| #[trigger] count_of(v@, x) <= count_of(v@, best) by {
            if v@.contains(x) {
                let k = choose|k: int| 0 <= k < v@.len() && v@[k] == x;
                assert(count_of(v@, v@[k]) <= best_count);
            } else {
                assert(v@.to_multiset().count(x) == 0);
            }
        }
        assert forall|x: i32| #[trigger] is_mode(v@, x) implies best <= x by {
            let k = choose|k: int| 0 <= k < v@.len() && v@[k] == x;
            assert(count_of(v@, v@[k]) <= best_count);
            assert(count_of(v@, best) <= count_of(v@, x));
        }
    }
    best
}

/// Position of a smallest element of `v`.
fn min_index(v: &Vec<i32>) -> (idx: usize)
    requires
        v@.len() > 0,
    ensures
        idx < v@.len(),
        forall|k: int| 0 <= k < v@.len() ==> v@[idx as int] <= #[trigger] v@[k],
{
    let mut idx: usize = 0;
    let mut i: usize = 1;
    while i < v.len()
        invariant
            idx < i <= v@.len(),
            forall|k: int| 0 <= k < i ==> v@[idx as int] <= #[trigger] v@[k],
        decreases v@.len() - i,
    {
        if v[i] < v[idx] {
            idx = i;
        }
        i = i + 1;
    }
    idx
}

/// Returns an ascending copy of `v`; the input is left as it is.
pub fn sort_ascending(v: &Vec<i32>) -> (r: Vec<i32>)
    ensures
        is_sorted_version(v@, r@),
        r@.len() == v@.len(),
{
    broadcast use vstd::seq_lib::group_to_multiset_ensures;
    broadcast use vstd::multiset::group_multiset_axioms;
    broadcast use vstd::multiset::lemma_multiset_empty_len;

    let mut rest: Vec<i32> = Vec::new();
    let mut i: usize = 0;
    while i < v.len()
        invariant
            i <= v@.len(),
            rest@ =~= v@.subrange(0, i as int),
        decreases v@.len() - i,
    {
        rest.push(v[i]);
        i = i + 1;
    }
    assert(rest@ =~= v@);
    let mut out: Vec<i32> = Vec::new();
    proof {
        assert(out@ =~= Seq::<i32>::empty());
        assert(out@.to_multiset().len() == 0);
        assert(out@.to_multiset() =~= Multiset::<i32>::empty());
    }
    while rest.len() > 0
        invariant
            out@.to_multiset().add(rest@.to_multiset()) =~= v@.to_multiset(),
            sorted(out@),
            forall|a: int, b: int|
                #![trigger out@[a], rest@[b]]
                0 <= a < out@.len() && 0 <= b < rest@.len() ==> out@[a] <= rest@[b],
        decreases rest@.len(),
    {
        let j = min_index(&rest);
        let ghost prev_out = out@;
        let ghost prev_rest = rest@;
        let x = rest.remove(j);
        out.push(x);
        proof {
            broadcast use vstd::seq_lib::group_to_multiset_ensures;
            broadcast use vstd::multiset::group_multiset_axioms;

            assert(out@ == prev_out.push(x));
            assert(rest@ == prev_rest.remove(j as int));
            assert(prev_out.push(x).to_multiset() =~= prev_out.to_multiset().insert(x));
            assert(prev_rest.remove(j as int).to_multiset() =~= prev_rest.to_multiset().remove(
                x,
            ));
            assert(prev_rest.to_multiset().count(x) >= 1) by {
                assert(prev_rest.contains(x));
            }
            assert(out@.to_multiset().add(rest@.to_multiset()) =~= v@.to_multiset());
            assert forall|a: int, b: int|
                #![trigger out@[a], rest@[b]]
                0 <= a < out@.len() && 0 <= b < rest@.len() implies out@[a] <= rest@[b] by {
                if b < j {
                    assert(rest@[b] == prev_rest[b]);
                } else {
                    assert(rest@[b] == prev_rest[b + 1]);
                }
            }
        }
    }
    proof {
        assert(rest@.to_multiset().len() == 0);
        assert(rest@.to_multiset() =~= Multiset::<i32>::empty());
        assert(out@.to_multiset() =~= v@.to_multiset());
        assert(out@.len() == out@.to_multiset().len());
        assert(v@.len() == v@.to_multiset().len());
    }
    out
}

/// Median and mode of `nums`: the median as the two middle elements of the
/// ascending rearrangement, the mode as the smallest value of maximal count.
/// Exactly the empty sequence is rejected.
pub fn find_median_and_mode(nums: &Vec<i32>) -> (r: Result<MedianMode, StatsError>)
    ensures
        match r {
            Ok(mm) => nums@.len() > 0 && is_median_pair(nums@, mm.median_low, mm.median_high)
                && is_least_mode(nums@, mm.mode),
            Err(e) => nums@.len() == 0 && e == StatsError::EmptyInput,
        },
{
    if nums.len() == 0 {
        return Err(StatsError::EmptyInput);
    }
    let sorted_copy = sort_ascending(nums);
    let n = sorted_copy.len();
    let median_low = sorted_copy[(n - 1) / 2];
    let median_high = sorted_copy[n / 2];
    let mode = find_mode(nums);
    proof {
        assert(is_sorted_version(nums@, sorted_copy@) && median_low == sorted_copy@[(nums@.len()
            - 1) / 2] && median_high == sorted_copy@[nums@.len() as int / 2]);
    }
    Ok(MedianMode { median_low, median_high, mode })
}

/// The median pair of a sequence is well defined: any two pairs of middle
/// elements taken from ascending rearrangements of the same sequence agree.
pub proof fn lemma_median_pair_unique(s: Seq<i32>, lo1: i32, hi1: i32, lo2: i32, hi2: i32)
    requires
        is_median_pair(s, lo1, hi1),
        is_median_pair(s, lo2, hi2),
    ensures
        lo1 == lo2,
        hi1 == hi2,
{
    let t1 = choose|t: Seq<i32>|
        #[trigger] is_sorted_version(s, t) && lo1 == t[(s.len() - 1) / 2] && hi1 == t[
            s.len() as int / 2
        ];
    let t2 = choose|t: Seq<i32>|
        #[trigger] is_sorted_version(s, t) && lo2 == t[(s.len() - 1) / 2] && hi2 == t[
            s.len() as int / 2
        ];
    let leq = |a: i32, b: i32| a <= b;
    assert(vstd::relations::total_ordering(leq));
    assert(vstd::relations::sorted_by(t1, leq));
    assert(vstd::relations::sorted_by(t2, leq));
    vstd::seq_lib::lemma_sorted_unique(t1, t2, leq);
}

/// The median is a property of the multiset of elements alone: any
/// rearrangement of a sequence has the same median pair.
pub proof fn lemma_median_of_rearrangement(s1: Seq<i32>, s2: Seq<i32>, lo: i32, hi: i32)
    requires
        s1.to_multiset() == s2.to_multiset(),
        is_median_pair(s1, lo, hi),
    ensures
        is_median_pair(s2, lo, hi),
{
    broadcast use vstd::seq_lib::group_to_multiset_ensures;

    let t = choose|t: Seq<i32>|
        #[trigger] is_sorted_version(s1, t) && lo == t[(s1.len() - 1) / 2] && hi == t[
            s1.len() as int / 2
        ];
    assert(s1.len() == s1.to_multiset().len());
    assert(s2.len() == s2.to_multiset().len());
    assert(is_sorted_version(s2, t) && lo == t[(s2.len() - 1) / 2] && hi == t[
        s2.len() as int / 2
    ]);
}

/// The two middle elements are themselves members of the sequence, in order:
/// the median of an even-length sequence is the average of two members, even
/// where that average is a member of the sequence itself no longer.
pub proof fn lemma_median_pair_members(s: Seq<i32>, lo: i32, hi: i32)
    requires
        s.len() > 0,
        is_median_pair(s, lo, hi),
    ensures
        s.contains(lo),
        s.contains(hi),
        lo <= hi,
{
    broadcast use vstd::seq_lib::group_to_multiset_ensures;

    let t = choose|t: Seq<i32>|
        #[trigger] is_sorted_version(s, t) && lo == t[(s.len() - 1) / 2] && hi == t[
            s.len() as int / 2
        ];
    assert(t.len() == t.to_multiset().len());
    assert(s.len() == s.to_multiset().len());
    assert(t.contains(lo)) by {
        assert(t[(s.len() - 1) / 2] == lo);
    }
    assert(t.contains(hi)) by {
        assert(t[s.len() as int / 2] == hi);
    }
    assert(s.to_multiset().count(lo) > 0);
    assert(s.to_multiset().count(hi) > 0);
}

/// For a sequence of odd length the two middle elements coincide, and the
/// median is a member of the sequence.
pub proof fn lemma_odd_median_in_sequence(s: Seq<i32>, lo: i32, hi: i32)
    requires
        s.len() % 2 == 1,
        is_median_pair(s, lo, hi),
    ensures
        lo == hi,
        s.contains(lo),
{
    broadcast use vstd::seq_lib::group_to_multiset_ensures;

    let t = choose|t: Seq<i32>|
        #[trigger] is_sorted_version(s, t) && lo == t[(s.len() - 1) / 2] && hi == t[
            s.len() as int / 2
        ];
    assert(t.len() == t.to_multiset().len());
    assert(s.len() == s.to_multiset().len());
    assert((s.len() - 1) / 2 == s.len() as int / 2);
    assert(t.contains(lo)) by {
        assert(t[(s.len() - 1) / 2] == lo);
    }
    assert(s.to_multiset().count(lo) > 0);
}

/// At most one value is the smallest among those of maximal count.
pub proof fn lemma_least_mode_unique(s: Seq<i32>, m1: i32, m2: i32)
    requires
        is_least_mode(s, m1),
        is_least_mode(s, m2),
    ensures
        m1 == m2,
{
    assert(is_mode(s, m1));
    assert(is_mode(s, m2));
}

/// A mode is a property of the multiset of elements alone: any rearrangement
/// of a sequence has the same least mode.
pub proof fn lemma_mode_of_rearrangement(s1: Seq<i32>, s2: Seq<i32>, m: i32)
    requires
        s1.to_multiset() == s2.to_multiset(),
        is_least_mode(s1, m),
    ensures
        is_least_mode(s2, m),
{
    broadcast use vstd::seq_lib::group_to_multiset_ensures;

    assert(s2.contains(m)) by {
        assert(s1.to_multiset().count(m) > 0);
    }
    assert forall|y: i32| #[trigger] count_of(s2, y) <= count_of(s2, m) by {
        assert(count_of(s1, y) <= count_of(s1, m));
    }
    assert forall|x: i32| #[trigger] is_mode(s2, x) implies m <= x by {
        assert(s1.contains(x)) by {
            assert(s2.to_multiset().count(x) > 0);
        }
        assert forall|y: i32| #[trigger] count_of(s1, y) <= count_of(s1, x) by {
            assert(count_of(s2, y) <= count_of(s2, x));
        }
        assert(is_mode(s1, x));
    }
}

/// The calculator is deterministic: on one and the same sequence, any two
/// results that satisfy its contract are equal, so running it twice on the
/// same input yields the same median and the same mode.
pub proof fn lemma_calculator_deterministic(s: Seq<i32>, r1: MedianMode, r2: MedianMode)
    requires
        is_median_pair(s, r1.median_low, r1.median_high),
        is_least_mode(s, r1.mode),
        is_median_pair(s, r2.median_low, r2.median_high),
        is_least_mode(s, r2.mode),
    ensures
        r1 == r2,
{
    lemma_median_pair_unique(s, r1.median_low, r1.median_high, r2.median_low, r2.median_high);
    lemma_least_mode_unique(s, r1.mode, r2.mode);
}

} // verus!
