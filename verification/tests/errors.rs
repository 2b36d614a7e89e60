use edge_impulse_ffi::error::{EdgeImpulseError, EimError};
use edge_impulse_ffi::types::{RunnerHelloHasAnomaly, SensorType};

#[test]
fn known_codes_map_to_distinct_kinds() {
    // every status code of the closed taxonomy gets its own kind
    let mut kinds: Vec<EdgeImpulseError> = Vec::new();
    for code in 0..14 {
        kinds.push(EdgeImpulseError::from_status(code));
    }
    for i in 0..kinds.len() {
        for j in 0..kinds.len() {
            if i != j {
                assert_ne!(kinds[i], kinds[j]);
            }
        }
    }
}

#[test]
fn expected_kind_for_each_code() {
    assert_eq!(EdgeImpulseError::from_status(0), EdgeImpulseError::Okay);
    assert_eq!(EdgeImpulseError::from_status(1), EdgeImpulseError::ShapesDontMatch);
    assert_eq!(EdgeImpulseError::from_status(2), EdgeImpulseError::Canceled);
    assert_eq!(EdgeImpulseError::from_status(3), EdgeImpulseError::MemoryAllocationFailed);
    assert_eq!(EdgeImpulseError::from_status(4), EdgeImpulseError::OutOfMemory);
    assert_eq!(EdgeImpulseError::from_status(5), EdgeImpulseError::InputTensorWasNull);
    assert_eq!(EdgeImpulseError::from_status(6), EdgeImpulseError::OutputTensorWasNull);
    assert_eq!(EdgeImpulseError::from_status(7), EdgeImpulseError::TfliteError);
    assert_eq!(EdgeImpulseError::from_status(8), EdgeImpulseError::TfliteArenaAllocFailed);
    assert_eq!(EdgeImpulseError::from_status(9), EdgeImpulseError::DspError);
    assert_eq!(EdgeImpulseError::from_status(10), EdgeImpulseError::InvalidSize);
    assert_eq!(EdgeImpulseError::from_status(11), EdgeImpulseError::OnlySupportedForImages);
    assert_eq!(EdgeImpulseError::from_status(12), EdgeImpulseError::UnsupportedEngine);
    assert_eq!(EdgeImpulseError::from_status(13), EdgeImpulseError::InferenceError);
}

#[test]
fn unknown_codes_map_to_other() {
    assert_eq!(EdgeImpulseError::from_status(-1), EdgeImpulseError::Other);
    assert_eq!(EdgeImpulseError::from_status(14), EdgeImpulseError::Other);
    assert_eq!(EdgeImpulseError::from_status(i32::MAX), EdgeImpulseError::Other);
    assert_eq!(EdgeImpulseError::from_status(i32::MIN), EdgeImpulseError::Other);
}

#[test]
fn mapping_is_stable_across_calls() {
    for code in -5..20 {
        assert_eq!(EdgeImpulseError::from_status(code), EdgeImpulseError::from_status(code));
    }
}

#[test]
fn each_kind_surfaces_as_expected_error() {
    assert_eq!(
        EimError::from(EdgeImpulseError::ShapesDontMatch),
        EimError::InvalidInput("Shapes don't match".to_string())
    );
    assert_eq!(
        EimError::from(EdgeImpulseError::OutOfMemory),
        EimError::ExecutionError("Out of memory".to_string())
    );
    assert_eq!(
        EimError::from(EdgeImpulseError::DspError),
        EimError::ExecutionError("DSP error".to_string())
    );
    assert_eq!(
        EimError::from(EdgeImpulseError::Okay),
        EimError::Other("Unexpected OK status".to_string())
    );
    assert_eq!(
        EimError::from(EdgeImpulseError::Other),
        EimError::Other("Unknown error occurred".to_string())
    );
}

#[test]
fn sensor_and_anomaly_kinds_from_raw_values() {
    assert_eq!(SensorType::from(1), SensorType::Microphone);
    assert_eq!(SensorType::from(3), SensorType::Camera);
    assert_eq!(SensorType::from(-5), SensorType::Unknown);
    assert_eq!(RunnerHelloHasAnomaly::from(1u32), RunnerHelloHasAnomaly::KMeans);
    assert_eq!(RunnerHelloHasAnomaly::from(3u32), RunnerHelloHasAnomaly::VisualGMM);
    assert_eq!(RunnerHelloHasAnomaly::from(99u32), RunnerHelloHasAnomaly::NoAnomaly);
}
