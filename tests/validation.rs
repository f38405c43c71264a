use simtrial::intervals::{validate_intervals, validate_uniform};
use simtrial::{PiecewiseExponentialError, PiecewiseExponentialSampleError};

fn bits(values: &[f64]) -> Vec<u64> {
    values.iter().map(|v| v.to_bits()).collect()
}

fn check(durations: &[f64], rates: &[f64]) -> Result<(), PiecewiseExponentialError> {
    validate_intervals(&bits(durations), &bits(rates))
}

#[test]
fn invalid_parameters_trigger_informative_errors() {
    assert!(matches!(
        check(&[], &[]).unwrap_err(),
        PiecewiseExponentialError::EmptyIntervals
    ));

    assert!(matches!(
        check(&[1.0], &[]).unwrap_err(),
        PiecewiseExponentialError::LengthMismatch { .. }
    ));

    assert!(matches!(
        check(&[f64::INFINITY, 1.0], &[1.0, 1.0]).unwrap_err(),
        PiecewiseExponentialError::NonFiniteDuration { index: 0 }
    ));

    assert!(matches!(
        check(&[0.0, 1.0], &[1.0, 1.0]).unwrap_err(),
        PiecewiseExponentialError::NonPositiveDuration { index: 0 }
    ));

    assert!(matches!(
        check(&[1.0, f64::INFINITY], &[1.0, 0.0]).unwrap_err(),
        PiecewiseExponentialError::NonPositiveRate { index: 1 }
    ));

    assert!(matches!(
        check(&[1.0, f64::INFINITY], &[1.0, f64::NAN]).unwrap_err(),
        PiecewiseExponentialError::NonFiniteRate { index: 1 }
    ));

    assert!(matches!(
        check(&[1.0, f64::NAN], &[1.0, 1.0]).unwrap_err(),
        PiecewiseExponentialError::FinalDurationInvalid
    ));

    assert!(matches!(
        check(&[1.0, -1.0], &[1.0, 1.0]).unwrap_err(),
        PiecewiseExponentialError::NonPositiveFinalDuration
    ));
}

#[test]
fn inverse_cdf_rejects_out_of_range_uniforms() {
    for &value in &[0.0, -0.1, 1.5, f64::NAN] {
        let err = validate_uniform(value.to_bits()).unwrap_err();
        assert!(matches!(
            err,
            PiecewiseExponentialSampleError::UniformOutOfRange { value: observed }
                if observed == value.to_bits()
        ));
    }
}

#[test]
fn accepts_uniforms_in_the_unit_interval() {
    for &value in &[1.0, 0.5, 1e-300, f64::MIN_POSITIVE, 5e-324, 0.9999999999999999] {
        assert_eq!(validate_uniform(value.to_bits()), Ok(()));
    }
}

#[test]
fn rejects_negative_zero_and_infinities() {
    for &value in &[-0.0, f64::INFINITY, f64::NEG_INFINITY, 1.0000000000000002, -1.0] {
        assert_eq!(
            validate_uniform(value.to_bits()),
            Err(PiecewiseExponentialSampleError::UniformOutOfRange { value: value.to_bits() })
        );
    }
}

#[test]
fn accepts_valid_intervals() {
    assert_eq!(check(&[1.0], &[2.0]), Ok(()));
    assert_eq!(check(&[0.5, 0.5, 1.0], &[1.0, 3.0, 10.0]), Ok(()));
    assert_eq!(check(&[0.25, 0.5, f64::INFINITY], &[1.0, 0.75, 1.5]), Ok(()));
    assert_eq!(check(&[f64::INFINITY], &[1.0]), Ok(()));
}

#[test]
fn length_mismatch_reports_both_lengths() {
    assert_eq!(
        check(&[1.0, 2.0, 3.0], &[1.0]),
        Err(PiecewiseExponentialError::LengthMismatch { durations: 3, rates: 1 })
    );
}

#[test]
fn empty_intervals_win_over_length_mismatch() {
    assert_eq!(check(&[], &[1.0]), Err(PiecewiseExponentialError::EmptyIntervals));
}

#[test]
fn durations_are_checked_before_rates() {
    assert_eq!(
        check(&[1.0, 0.0, 1.0], &[f64::NAN, 1.0, 1.0]),
        Err(PiecewiseExponentialError::NonPositiveDuration { index: 1 })
    );
}

#[test]
fn first_offending_index_is_reported() {
    assert_eq!(
        check(&[1.0, 2.0, f64::NAN, -1.0, 1.0], &[1.0; 5]),
        Err(PiecewiseExponentialError::NonFiniteDuration { index: 2 })
    );
    assert_eq!(
        check(&[1.0, 2.0, 3.0], &[1.0, -2.0, f64::INFINITY]),
        Err(PiecewiseExponentialError::NonPositiveRate { index: 1 })
    );
}

#[test]
fn non_final_infinite_and_negative_durations() {
    assert_eq!(
        check(&[1.0, f64::NEG_INFINITY, 1.0], &[1.0; 3]),
        Err(PiecewiseExponentialError::NonFiniteDuration { index: 1 })
    );
    assert_eq!(
        check(&[1.0, -0.0, 1.0], &[1.0; 3]),
        Err(PiecewiseExponentialError::NonPositiveDuration { index: 1 })
    );
}

#[test]
fn final_duration_faults() {
    assert_eq!(
        check(&[1.0, f64::NEG_INFINITY], &[1.0, 1.0]),
        Err(PiecewiseExponentialError::NonPositiveFinalDuration)
    );
    assert_eq!(check(&[0.0], &[1.0]), Err(PiecewiseExponentialError::NonPositiveFinalDuration));
    assert_eq!(check(&[-f64::NAN], &[1.0]), Err(PiecewiseExponentialError::FinalDurationInvalid));
}

#[test]
fn rate_faults() {
    assert_eq!(
        check(&[1.0], &[f64::INFINITY]),
        Err(PiecewiseExponentialError::NonFiniteRate { index: 0 })
    );
    assert_eq!(check(&[1.0], &[-0.0]), Err(PiecewiseExponentialError::NonPositiveRate { index: 0 }));
}
