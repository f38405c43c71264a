//! Validation of interval durations and hazard rates, and of uniform variates.

use vstd::prelude::*;
use crate::error::{PiecewiseExponentialError, PiecewiseExponentialSampleError};
use crate::ieee::{
    finite, is_finite, is_nan, le, less_or_equal, lt, nan, sign_set, zero, ONE_BITS, ZERO_BITS,
};

verus! {

/// The fault of the duration at index `i` of `d`, if any. Every interval but
/// the last must be finite and positive; the last must be positive and may be
/// positive infinity.
pub open spec fn duration_fault(d: Seq<u64>, i: int) -> Option<PiecewiseExponentialError> {
    if i < d.len() - 1 {
        if !finite(d[i]) {
            Some(PiecewiseExponentialError::NonFiniteDuration { index: i as usize })
        } else if le(d[i], ZERO_BITS) {
            Some(PiecewiseExponentialError::NonPositiveDuration { index: i as usize })
        } else {
            None
        }
    } else {
        if nan(d[i]) {
            Some(PiecewiseExponentialError::FinalDurationInvalid)
        } else if le(d[i], ZERO_BITS) {
            Some(PiecewiseExponentialError::NonPositiveFinalDuration)
        } else {
            None
        }
    }
}

/// The fault of the rate at index `i` of `r`, if any: rates are finite and positive.
pub open spec fn rate_fault(r: Seq<u64>, i: int) -> Option<PiecewiseExponentialError> {
    if !finite(r[i]) {
        Some(PiecewiseExponentialError::NonFiniteRate { index: i as usize })
    } else if le(r[i], ZERO_BITS) {
        Some(PiecewiseExponentialError::NonPositiveRate { index: i as usize })
    } else {
        None
    }
}

/// The faults of the durations, by index.
pub open spec fn duration_faults(d: Seq<u64>) -> spec_fn(int) -> Option<PiecewiseExponentialError> {
    |i: int| duration_fault(d, i)
}

/// The faults of the rates, by index.
pub open spec fn rate_faults(r: Seq<u64>) -> spec_fn(int) -> Option<PiecewiseExponentialError> {
    |i: int| rate_fault(r, i)
}

/// The fault at the smallest index below `n`, if any.
pub open spec fn first_fault(
    fault: spec_fn(int) -> Option<PiecewiseExponentialError>,
    n: nat,
) -> Option<PiecewiseExponentialError>
    decreases n,
{
    if n == 0 {
        None
    } else {
        match first_fault(fault, (n - 1) as nat) {
            Some(e) => Some(e),
            None => fault(n - 1),
        }
    }
}

/// The outcome of validating `durations` and `rates`: emptiness first, then
/// the lengths, then every duration in order, then every rate in order.
pub open spec fn validation(d: Seq<u64>, r: Seq<u64>) -> Result<(), PiecewiseExponentialError> {
    if d.len() == 0 {
        Err(PiecewiseExponentialError::EmptyIntervals)
    } else if d.len() != r.len() {
        Err(
            PiecewiseExponentialError::LengthMismatch {
                durations: d.len() as usize,
                rates: r.len() as usize,
            },
        )
    } else {
        match first_fault(duration_faults(d), d.len()) {
            Some(e) => Err(e),
            None => match first_fault(rate_faults(r), r.len()) {
                Some(e) => Err(e),
                None => Ok(()),
            },
        }
    }
}

/// The first fault below `n` is the fault at the smallest faulty index, and
/// there is none exactly when no index below `n` is faulty.
pub proof fn lemma_first_fault_is_earliest(
    fault: spec_fn(int) -> Option<PiecewiseExponentialError>,
    n: nat,
)
    ensures
        first_fault(fault, n) is None <==> forall|j: int| 0 <= j < n ==> #[trigger] fault(j) is None,
        first_fault(fault, n) matches Some(e) ==> exists|i: int|
            0 <= i < n && #[trigger] fault(i) == Some(e) && forall|j: int| 0 <= j < i ==> #[trigger] fault(j) is None,
    decreases n,
{
    if n > 0 {
        lemma_first_fault_is_earliest(fault, (n - 1) as nat);
        if first_fault(fault, (n - 1) as nat) is None {
            if let Some(e) = fault(n - 1) {
                assert(fault(n - 1) == Some(e) && forall|j: int| 0 <= j < n - 1 ==> #[trigger] fault(j) is None);
            }
        }
    }
}

/// Validation reports the first violation in precedence order: an empty list,
/// then unequal lengths, then the duration at the smallest faulty index, then
/// (all durations being sound) the rate at the smallest faulty index; and it
/// succeeds exactly when nothing is at fault.
pub proof fn lemma_validation_precedence(d: Seq<u64>, r: Seq<u64>)
    ensures
        d.len() == 0 ==> validation(d, r) == Err::<(), _>(PiecewiseExponentialError::EmptyIntervals),
        d.len() > 0 && d.len() != r.len() ==> validation(d, r) == Err::<(), _>(
            PiecewiseExponentialError::LengthMismatch {
                durations: d.len() as usize,
                rates: r.len() as usize,
            },
        ),
        d.len() > 0 && d.len() == r.len() ==> (validation(d, r) is Ok <==> (forall|i: int|
            0 <= i < d.len() ==> #[trigger] duration_fault(d, i) is None) && (forall|i: int|
            0 <= i < r.len() ==> #[trigger] rate_fault(r, i) is None)),
        d.len() > 0 && d.len() == r.len() ==> (validation(d, r) matches Err(e) ==> (exists|i: int|
            0 <= i < d.len() && #[trigger] duration_fault(d, i) == Some(e) && forall|j: int|
                0 <= j < i ==> #[trigger] duration_fault(d, j) is None) || ((forall|i: int|
            0 <= i < d.len() ==> #[trigger] duration_fault(d, i) is None) && exists|i: int|
            0 <= i < r.len() && #[trigger] rate_fault(r, i) == Some(e) && forall|j: int|
                0 <= j < i ==> #[trigger] rate_fault(r, j) is None)),
{
    lemma_first_fault_is_earliest(duration_faults(d), d.len());
    lemma_first_fault_is_earliest(rate_faults(r), r.len());
    assert forall|i: int|
        #![trigger duration_faults(d)(i)]
        #![trigger duration_fault(d, i)]
        duration_faults(d)(i) == duration_fault(d, i) by {}
    assert forall|i: int|
        #![trigger rate_faults(r)(i)]
        #![trigger rate_fault(r, i)]
        rate_faults(r)(i) == rate_fault(r, i) by {}
}

/// Once a fault is found below `m`, looking further does not change it.
proof fn lemma_first_fault_stable(
    fault: spec_fn(int) -> Option<PiecewiseExponentialError>,
    m: nat,
    n: nat,
)
    requires
        m <= n,
        first_fault(fault, m) is Some,
    ensures
        first_fault(fault, n) == first_fault(fault, m),
    decreases n - m,
{
    if m < n {
        lemma_first_fault_stable(fault, m, (n - 1) as nat);
    }
}

/// Checks durations and rates in the order that `validation` gives, and
/// reports the first violation.
pub fn validate_intervals(durations: &[u64], rates: &[u64]) -> (res: Result<(), PiecewiseExponentialError>)
    ensures
        res == validation(durations@, rates@),
{
    let count = durations.len();
    if count == 0 {
        return Err(PiecewiseExponentialError::EmptyIntervals);
    }
    if count != rates.len() {
        return Err(PiecewiseExponentialError::LengthMismatch { durations: count, rates: rates.len() });
    }
    let ghost d = durations@;
    let ghost r = rates@;
    let last = count - 1;
    let mut i: usize = 0;
    while i < count
        invariant
            count == d.len() == r.len(),
            last == count - 1,
            d == durations@,
            r == rates@,
            i <= count,
            first_fault(duration_faults(d), i as nat) is None,
        decreases count - i,
    {
        let value = durations[i];
        let fault = if i < last {
            if !is_finite(value) {
                Some(PiecewiseExponentialError::NonFiniteDuration { index: i })
            } else if less_or_equal(value, ZERO_BITS) {
                Some(PiecewiseExponentialError::NonPositiveDuration { index: i })
            } else {
                None
            }
        } else if is_nan(value) {
            Some(PiecewiseExponentialError::FinalDurationInvalid)
        } else if less_or_equal(value, ZERO_BITS) {
            Some(PiecewiseExponentialError::NonPositiveFinalDuration)
        } else {
            None
        };
        if let Some(e) = fault {
            proof {
                lemma_first_fault_stable(duration_faults(d), (i + 1) as nat, count as nat);
            }
            return Err(e);
        }
        i = i + 1;
    }
    let mut j: usize = 0;
    while j < count
        invariant
            count == d.len() == r.len(),
            d == durations@,
            r == rates@,
            j <= count,
            first_fault(duration_faults(d), count as nat) is None,
            first_fault(rate_faults(r), j as nat) is None,
        decreases count - j,
    {
        let value = rates[j];
        let fault = if !is_finite(value) {
            Some(PiecewiseExponentialError::NonFiniteRate { index: j })
        } else if less_or_equal(value, ZERO_BITS) {
            Some(PiecewiseExponentialError::NonPositiveRate { index: j })
        } else {
            None
        };
        if let Some(e) = fault {
            proof {
                lemma_first_fault_stable(rate_faults(r), (j + 1) as nat, count as nat);
            }
            return Err(e);
        }
        j = j + 1;
    }
    Ok(())
}

/// A uniform variate is accepted when `0 < u <= 1`; a NaN never is.
pub open spec fn in_unit_interval(u: u64) -> bool {
    lt(ZERO_BITS, u) && le(u, ONE_BITS)
}

/// Zero of either sign, every negative value, every value above one and every
/// NaN lie outside `(0, 1]`.
pub proof fn lemma_out_of_unit_interval(u: u64)
    requires
        zero(u) || sign_set(u) || nan(u) || lt(ONE_BITS, u),
    ensures
        !in_unit_interval(u),
{
}

/// Accepts `uniform` exactly when it lies in `(0, 1]`, and otherwise reports it.
pub fn validate_uniform(uniform: u64) -> (res: Result<(), PiecewiseExponentialSampleError>)
    ensures
        res is Ok <==> in_unit_interval(uniform),
        res is Err ==> res == Err::<(), _>(
            PiecewiseExponentialSampleError::UniformOutOfRange { value: uniform },
        ),
{
    if less_or_equal(uniform, ZERO_BITS) || !less_or_equal(uniform, ONE_BITS) {
        Err(PiecewiseExponentialSampleError::UniformOutOfRange { value: uniform })
    } else {
        Ok(())
    }
}

} // verus!
