//! Errors reported by construction and by the inverse transform.

use vstd::prelude::*;
use vstd::string::*;

verus! {

/// Errors emitted when a distribution is built from invalid parameters.
#[derive(Debug, Clone, Copy, PartialEq, Eq, Structural)]
pub enum PiecewiseExponentialError {
    /// No intervals were supplied.
    EmptyIntervals,
    /// Durations and rates have mismatched lengths.
    LengthMismatch {
        /// Number of durations supplied.
        durations: usize,
        /// Number of rates supplied.
        rates: usize,
    },
    /// Encountered a non-finite duration outside the final interval.
    NonFiniteDuration {
        /// Index of the offending duration.
        index: usize,
    },
    /// Encountered a non-positive duration outside the final interval.
    NonPositiveDuration {
        /// Index of the offending duration.
        index: usize,
    },
    /// The last interval duration is not strictly positive.
    NonPositiveFinalDuration,
    /// The last interval duration is not finite nor positive infinity.
    FinalDurationInvalid,
    /// Encountered a non-finite rate.
    NonFiniteRate {
        /// Index of the offending rate.
        index: usize,
    },
    /// Encountered a non-positive rate.
    NonPositiveRate {
        /// Index of the offending rate.
        index: usize,
    },
}

/// The character of the decimal digit `d`.
pub open spec fn digit_char(d: nat) -> char {
    seq!['0', '1', '2', '3', '4', '5', '6', '7', '8', '9'][d as int]
}

/// The decimal notation of `n`, without leading zeros.
pub open spec fn decimal(n: nat) -> Seq<char>
    decreases n,
{
    if n < 10 {
        seq![digit_char(n)]
    } else {
        decimal(n / 10) + seq![digit_char(n % 10)]
    }
}

/// The text that describes `e`.
pub open spec fn message_of(e: PiecewiseExponentialError) -> Seq<char> {
    match e {
        PiecewiseExponentialError::EmptyIntervals => "durations must contain at least one interval"@,
        PiecewiseExponentialError::LengthMismatch { durations, rates } =>
            "durations and rates must have the same length ("@ + decimal(durations as nat) + " vs "@
                + decimal(rates as nat) + ")"@,
        PiecewiseExponentialError::NonFiniteDuration { index } =>
            "duration at index "@ + decimal(index as nat) + " must be finite"@,
        PiecewiseExponentialError::NonPositiveDuration { index } =>
            "duration at index "@ + decimal(index as nat) + " must be positive"@,
        PiecewiseExponentialError::NonPositiveFinalDuration => "final duration must be positive"@,
        PiecewiseExponentialError::FinalDurationInvalid =>
            "final duration must be finite or positive infinity (use f64::INFINITY)"@,
        PiecewiseExponentialError::NonFiniteRate { index } =>
            "rate at index "@ + decimal(index as nat) + " must be finite"@,
        PiecewiseExponentialError::NonPositiveRate { index } =>
            "rate at index "@ + decimal(index as nat) + " must be strictly positive"@,
    }
}

/// The one-character text of the decimal digit `d`.
fn digit_text(d: usize) -> (r: &'static str)
    requires
        d < 10,
    ensures
        r@ == seq![digit_char(d as nat)],
{
    proof {
        reveal_strlit("0");
        reveal_strlit("1");
        reveal_strlit("2");
        reveal_strlit("3");
        reveal_strlit("4");
        reveal_strlit("5");
        reveal_strlit("6");
        reveal_strlit("7");
        reveal_strlit("8");
        reveal_strlit("9");
    }
    match d {
        0 => "0",
        1 => "1",
        2 => "2",
        3 => "3",
        4 => "4",
        5 => "5",
        6 => "6",
        7 => "7",
        8 => "8",
        _ => "9",
    }
}

/// Appends the decimal notation of `n` to `s`.
fn push_decimal(s: &mut String, n: usize)
    ensures
        final(s)@ == old(s)@ + decimal(n as nat),
    decreases n,
{
    if n >= 10 {
        push_decimal(s, n / 10);
    }
    s.append(digit_text(n % 10));
    assert(final(s)@ =~= old(s)@ + decimal(n as nat));
}

impl PiecewiseExponentialError {
    /// A description of the error, naming the offending index or both lengths.
    pub fn message(&self) -> (r: String)
        ensures
            r@ == message_of(*self),
    {
        match *self {
            PiecewiseExponentialError::EmptyIntervals => String::from_str(
                "durations must contain at least one interval",
            ),
            PiecewiseExponentialError::LengthMismatch { durations, rates } => {
                let mut s = String::from_str("durations and rates must have the same length (");
                push_decimal(&mut s, durations);
                s.append(" vs ");
                push_decimal(&mut s, rates);
                s.append(")");
                s
            },
            PiecewiseExponentialError::NonFiniteDuration { index } => {
                let mut s = String::from_str("duration at index ");
                push_decimal(&mut s, index);
                s.append(" must be finite");
                s
            },
            PiecewiseExponentialError::NonPositiveDuration { index } => {
                let mut s = String::from_str("duration at index ");
                push_decimal(&mut s, index);
                s.append(" must be positive");
                s
            },
            PiecewiseExponentialError::NonPositiveFinalDuration => String::from_str(
                "final duration must be positive",
            ),
            PiecewiseExponentialError::FinalDurationInvalid => String::from_str(
                "final duration must be finite or positive infinity (use f64::INFINITY)",
            ),
            PiecewiseExponentialError::NonFiniteRate { index } => {
                let mut s = String::from_str("rate at index ");
                push_decimal(&mut s, index);
                s.append(" must be finite");
                s
            },
            PiecewiseExponentialError::NonPositiveRate { index } => {
                let mut s = String::from_str("rate at index ");
                push_decimal(&mut s, index);
                s.append(" must be strictly positive");
                s
            },
        }
    }
}

/// Errors that may occur while transforming explicit uniforms into samples.
#[derive(Debug, Clone, Copy, PartialEq, Eq, Structural)]
pub enum PiecewiseExponentialSampleError {
    /// The provided uniform variate did not fall inside the interval `(0, 1]`.
    UniformOutOfRange {
        /// Bit pattern (`f64::to_bits`) of the provided uniform variate.
        value: u64,
    },
}

} // verus!
