//! Cumulative-hazard breakpoints and the lookup of the interval that holds a
//! given hazard.

use vstd::prelude::*;
use crate::ieee::{
    finite, le, lemma_le_reflexive, lemma_le_transitive, less_or_equal, zero, ZERO_BITS,
};

verus! {

/// The rightmost index below `n` whose breakpoint does not exceed `hazard`,
/// or `0` when there is none.
pub open spec fn last_at_most(keys: Seq<u64>, hazard: u64, n: nat) -> nat
    decreases n,
{
    if n == 0 {
        0
    } else if le(keys[n - 1], hazard) {
        (n - 1) as nat
    } else {
        last_at_most(keys, hazard, (n - 1) as nat)
    }
}

/// Breakpoints that start at zero and never decrease; no NaN among them.
pub open spec fn sorted_from_zero(keys: Seq<u64>) -> bool {
    &&& keys.len() >= 1
    &&& zero(keys[0])
    &&& forall|i: int, j: int| 0 <= i <= j < keys.len() ==> le(#[trigger] keys[i], #[trigger] keys[j])
}

/// The cumulative hazard at the start of each interval, as bit patterns.
#[derive(Debug, Clone)]
pub struct HazardBreakpoints {
    keys: Vec<u64>,
}

impl View for HazardBreakpoints {
    type V = Seq<u64>;

    closed spec fn view(&self) -> Seq<u64> {
        self.keys@
    }
}

impl HazardBreakpoints {
    /// The breakpoints start at zero and never decrease.
    pub open spec fn well_formed(&self) -> bool {
        sorted_from_zero(self@)
    }

    /// Takes `keys` as breakpoints when they start at zero and never decrease.
    pub fn new(keys: Vec<u64>) -> (res: Option<HazardBreakpoints>)
        ensures
            res is Some <==> sorted_from_zero(keys@),
            res matches Some(b) ==> b@ == keys@,
    {
        let n = keys.len();
        if n == 0 || !less_or_equal(keys[0], ZERO_BITS) || !less_or_equal(ZERO_BITS, keys[0]) {
            return None;
        }
        let mut k: usize = 1;
        while k < n
            invariant
                n == keys@.len(),
                1 <= k <= n,
                zero(keys@[0]),
                forall|i: int, j: int| 0 <= i <= j < k ==> le(#[trigger] keys@[i], #[trigger] keys@[j]),
            decreases n - k,
        {
            if !less_or_equal(keys[k - 1], keys[k]) {
                return None;
            }
            assert forall|i: int, j: int| 0 <= i <= j < k + 1 implies le(
                #[trigger] keys@[i],
                #[trigger] keys@[j],
            ) by {
                let last = k as int;
                if j == last {
                    if i < last {
                        lemma_le_transitive(keys@[i], keys@[last - 1], keys@[last]);
                    } else {
                        lemma_le_reflexive(keys@[last]);
                    }
                }
            }
            k = k + 1;
        }
        Some(HazardBreakpoints { keys })
    }

    /// Number of breakpoints, one per interval.
    pub fn len(&self) -> (r: usize)
        ensures
            r == self@.len(),
    {
        self.keys.len()
    }

    /// The breakpoint at index `i`.
    pub fn get(&self, i: usize) -> (r: u64)
        requires
            i < self@.len(),
        ensures
            r == self@[i as int],
    {
        self.keys[i]
    }

    /// The index of the interval that holds `hazard`: the rightmost breakpoint
    /// that does not exceed it, or `0` when none does. Binary search.
    pub fn interval_of(&self, hazard: u64) -> (r: usize)
        requires
            self.well_formed(),
        ensures
            r == last_at_most(self@, hazard, self@.len()),
            r < self@.len(),
    {
        let keys = &self.keys;
        let mut lo: usize = 0;
        let mut hi: usize = keys.len();
        while lo < hi
            invariant
                sorted_from_zero(keys@),
                lo <= hi <= keys@.len(),
                forall|i: int| 0 <= i < lo ==> le(#[trigger] keys@[i], hazard),
                forall|i: int| hi <= i < keys@.len() ==> !le(#[trigger] keys@[i], hazard),
            decreases hi - lo,
        {
            let mid = lo + (hi - lo) / 2;
            if less_or_equal(keys[mid], hazard) {
                assert forall|i: int| 0 <= i < mid + 1 implies le(#[trigger] keys@[i], hazard) by {
                    assert(le(keys@[i], keys@[mid as int]));
                    lemma_le_transitive(keys@[i], keys@[mid as int], hazard);
                }
                lo = mid + 1;
            } else {
                assert forall|i: int| mid <= i < keys@.len() implies !le(#[trigger] keys@[i], hazard) by {
                    assert(le(keys@[mid as int], keys@[i]));
                    if le(keys@[i], hazard) {
                        lemma_le_transitive(keys@[mid as int], keys@[i], hazard);
                    }
                }
                hi = mid;
            }
        }
        proof {
            lemma_last_at_most_at_partition(keys@, hazard, lo as nat, keys@.len());
        }
        if lo == 0 {
            0
        } else {
            lo - 1
        }
    }
}

/// Where the breakpoints below `p` do not exceed `hazard` and those from `p`
/// on do, the rightmost one below `n >= p` that does not is at `p - 1`.
proof fn lemma_last_at_most_at_partition(keys: Seq<u64>, hazard: u64, p: nat, n: nat)
    requires
        p <= n <= keys.len(),
        forall|i: int| 0 <= i < p ==> le(#[trigger] keys[i], hazard),
        forall|i: int| p <= i < n ==> !le(#[trigger] keys[i], hazard),
    ensures
        last_at_most(keys, hazard, n) == if p == 0 { 0 } else { (p - 1) as nat },
    decreases n,
{
    if n > p {
        lemma_last_at_most_at_partition(keys, hazard, p, (n - 1) as nat);
    } else if n > 0 {
        assert(le(keys[n - 1], hazard));
    }
}

/// The index found for `hazard` is below `n` (when `n > 0`), and its
/// breakpoint does not exceed `hazard` unless it is the first one.
pub proof fn lemma_last_at_most_bounds(keys: Seq<u64>, hazard: u64, n: nat)
    requires
        n <= keys.len(),
    ensures
        n > 0 ==> last_at_most(keys, hazard, n) < n,
        last_at_most(keys, hazard, n) == 0 || le(keys[last_at_most(keys, hazard, n) as int], hazard),
    decreases n,
{
    if n > 0 {
        lemma_last_at_most_bounds(keys, hazard, (n - 1) as nat);
    }
}

/// For a finite hazard the breakpoint of the interval that holds it is
/// finite, even where the last interval has no end.
pub proof fn lemma_finite_hazard_finite_breakpoint(keys: Seq<u64>, hazard: u64)
    requires
        sorted_from_zero(keys),
        finite(hazard),
    ensures
        finite(keys[last_at_most(keys, hazard, keys.len()) as int]),
{
    lemma_last_at_most_bounds(keys, hazard, keys.len());
}

/// With a single interval, every hazard falls in interval `0`.
pub proof fn lemma_single_interval(keys: Seq<u64>, hazard: u64)
    requires
        keys.len() == 1,
    ensures
        last_at_most(keys, hazard, 1) == 0,
{
    assert(last_at_most(keys, hazard, 0) == 0);
}

} // verus!
