use edge_impulse_ffi::error::EimError;
use edge_impulse_ffi::signal::Signal;

#[test]
fn signal_wraps_samples_on_success() {
    let s = Signal::from_raw_data(&[1, 2, 3], 0).unwrap();
    assert_eq!(s.total_length(), 3);
}

#[test]
fn empty_signal_has_zero_length() {
    let s = Signal::from_raw_data(&[], 0).unwrap();
    assert_eq!(s.total_length(), 0);
}

#[test]
fn signal_construction_failure_is_invalid_input() {
    let e = Signal::from_raw_data(&[1], 5).unwrap_err();
    assert_eq!(e, EimError::InvalidInput("Signal construction failed".to_string()));
}
