use edge_impulse_ffi::bindings_dummy::{
    ei_ffi_run_classifier_deinit, ei_ffi_run_classifier_init, ei_impulse_result_timing_t,
};
use edge_impulse_ffi::error::EimError;
use edge_impulse_ffi::model::{EimModel, InferStep};
use edge_impulse_ffi::projection::{
    InferenceResult, RawBoundingBox, RawClassification, RawResult,
};
use edge_impulse_ffi::types::{ModelParameters, RunnerHelloHasAnomaly, SensorType};

fn params(continuous: bool, labels: Vec<&str>) -> ModelParameters {
    ModelParameters {
        axis_count: 1,
        frequency: 16000,
        has_anomaly: RunnerHelloHasAnomaly::NoAnomaly,
        has_object_tracking: false,
        image_channel_count: 3,
        image_input_frames: 1,
        image_input_height: 0,
        image_input_width: 0,
        image_resize_mode: "fit".to_string(),
        inferencing_engine: 1,
        input_features_count: 4,
        interval_ms: 1,
        label_count: labels.len() as u32,
        labels: labels.into_iter().map(|l| l.to_string()).collect(),
        model_type: "classification".to_string(),
        sensor: 1,
        slice_size: 4,
        thresholds: Vec::new(),
        use_continuous_mode: continuous,
    }
}

fn raw_result(entries: Vec<(&str, i32)>, boxes: Vec<(&str, i32)>) -> RawResult {
    RawResult {
        classification: entries
            .into_iter()
            .map(|(l, v)| RawClassification { label: l.to_string(), value: v })
            .collect(),
        bounding_boxes: boxes
            .into_iter()
            .map(|(l, v)| RawBoundingBox {
                label: l.to_string(),
                x: 1,
                y: 2,
                width: 3,
                height: 4,
                value: v,
            })
            .collect(),
        timing: ei_impulse_result_timing_t { dsp: 1, classification: 2, anomaly: 0 },
    }
}

#[test]
fn stub_engine_init_reports_failure() {
    // with no engine linked, construction surfaces the failure status
    let status = ei_ffi_run_classifier_init();
    let r = EimModel::new(params(false, vec!["a"]), status);
    assert!(matches!(r, Err(EimError::ExecutionError(_))));
    assert_eq!(ei_ffi_run_classifier_deinit(), -1);
}

#[test]
fn one_shot_inference_runs_engine_on_given_features() {
    let mut m = EimModel::new(params(false, vec!["a", "b"]), 0).unwrap();
    match m.infer(vec![1, 2, 3, 4], None).unwrap() {
        InferStep::EngineCall { samples, continuous, debug } => {
            assert_eq!(samples, vec![1, 2, 3, 4]);
            assert!(!continuous);
            assert!(!debug);
        }
        _ => panic!("expected an engine call"),
    }
    let resp = m
        .complete_infer(0, &raw_result(vec![("a", 700_000), ("b", 300_000)], Vec::new()))
        .unwrap();
    assert!(resp.success);
    assert_eq!(resp.id, 1);
    match resp.result {
        InferenceResult::Classification { classification } => {
            assert_eq!(classification.len(), 2);
            assert_eq!(classification[0].label, "a");
            assert_eq!((classification[0].score.num, classification[0].score.den), (700_000, 1));
            assert_eq!(classification[1].label, "b");
            assert_eq!((classification[1].score.num, classification[1].score.den), (300_000, 1));
        }
        _ => panic!("expected classification"),
    }
}

#[test]
fn warmup_returns_zeroes_without_engine() {
    // short of the slice size, every known label scores exactly zero and
    // the engine is never invoked
    let mut m = EimModel::new(params(true, vec!["a", "b"]), 0).unwrap();
    for push in [vec![1], vec![2, 3]] {
        match m.infer(push, None).unwrap() {
            InferStep::Response(resp) => {
                assert!(resp.success);
                match resp.result {
                    InferenceResult::Classification { classification } => {
                        assert_eq!(classification.len(), 2);
                        assert_eq!(classification[0].label, "a");
                        assert_eq!(classification[1].label, "b");
                        for e in &classification {
                            assert_eq!(e.score.num, 0);
                        }
                    }
                    _ => panic!("expected classification"),
                }
            }
            _ => panic!("the engine must not be invoked during warm-up"),
        }
    }
}

#[test]
fn full_window_triggers_continuous_engine_call() {
    // the sliding window is what the engine call sees: FIFO eviction
    let mut m = EimModel::new(params(true, vec!["a"]), 0).unwrap();
    match m.infer(vec![1, 2, 3, 4], None).unwrap() {
        InferStep::EngineCall { samples, continuous, .. } => {
            assert_eq!(samples, vec![1, 2, 3, 4]);
            assert!(continuous);
        }
        _ => panic!("expected an engine call"),
    }
    match m.infer(vec![5, 6], None).unwrap() {
        InferStep::EngineCall { samples, .. } => assert_eq!(samples, vec![3, 4, 5, 6]),
        _ => panic!("expected an engine call"),
    }
}

#[test]
fn continuous_scores_are_smoothed() {
    let mut m = EimModel::new(params(true, vec!["a"]), 0).unwrap();
    // one warm-up call pushes a zero into the label's filter
    assert!(matches!(m.infer(vec![1, 2], None).unwrap(), InferStep::Response(_)));
    // the window fills; the engine's score is averaged with the zero
    assert!(matches!(m.infer(vec![3, 4], None).unwrap(), InferStep::EngineCall { .. }));
    let resp = m.complete_infer(0, &raw_result(vec![("a", 800_000)], Vec::new())).unwrap();
    match resp.result {
        InferenceResult::Classification { classification } => {
            assert_eq!((classification[0].score.num, classification[0].score.den), (800_000, 2));
        }
        _ => panic!("expected classification"),
    }
    // the next round keeps averaging over the filter window
    assert!(matches!(m.infer(vec![5], None).unwrap(), InferStep::EngineCall { .. }));
    let resp = m.complete_infer(0, &raw_result(vec![("a", 400_000)], Vec::new())).unwrap();
    match resp.result {
        InferenceResult::Classification { classification } => {
            assert_eq!((classification[0].score.num, classification[0].score.den), (1_200_000, 3));
        }
        _ => panic!("expected classification"),
    }
}

#[test]
fn engine_failure_surfaces_and_keeps_window() {
    let mut m = EimModel::new(params(true, vec!["a"]), 0).unwrap();
    assert!(matches!(m.infer(vec![1, 2, 3, 4], None).unwrap(), InferStep::EngineCall { .. }));
    let err = m.complete_infer(9, &raw_result(vec![("a", 1)], Vec::new())).unwrap_err();
    assert_eq!(err, EimError::ExecutionError("DSP error".to_string()));
    // the buffered window is unchanged: the next push slides the same window
    match m.infer(vec![5], None).unwrap() {
        InferStep::EngineCall { samples, .. } => assert_eq!(samples, vec![2, 3, 4, 5]),
        _ => panic!("expected an engine call"),
    }
}

#[test]
fn anomaly_capable_model_reports_visual_anomaly() {
    let mut p = params(false, vec!["anomaly"]);
    p.has_anomaly = RunnerHelloHasAnomaly::KMeans;
    let mut m = EimModel::new(p, 0).unwrap();
    assert!(matches!(m.infer(vec![1], None).unwrap(), InferStep::EngineCall { .. }));
    let resp = m.complete_infer(0, &raw_result(vec![("anomaly", 250_000)], Vec::new())).unwrap();
    match resp.result {
        InferenceResult::VisualAnomaly { anomaly, .. } => {
            assert_eq!((anomaly.num, anomaly.den), (250_000, 1));
        }
        _ => panic!("expected visual anomaly"),
    }
}

#[test]
fn failed_init_gives_execution_error() {
    let err = EimModel::new(params(false, vec!["a"]), 7).unwrap_err();
    assert_eq!(err, EimError::ExecutionError("Classifier initialization failed".to_string()));
}

#[test]
fn inference_rejected_after_deinit() {
    let mut m = EimModel::new(params(false, vec!["a"]), 0).unwrap();
    m.deinit();
    assert_eq!(m.infer(vec![1], None).unwrap_err(), EimError::ModelNotInitialized);
    assert_eq!(
        m.complete_infer(0, &raw_result(Vec::new(), Vec::new())).unwrap_err(),
        EimError::ModelNotInitialized
    );
}

#[test]
fn accessors_report_parameters() {
    let m = EimModel::new(params(false, vec!["x", "y"]), 0).unwrap();
    assert_eq!(m.input_size().unwrap(), 4);
    assert_eq!(m.sensor_type().unwrap(), SensorType::Microphone);
    assert_eq!(m.get_labels().unwrap(), vec!["x".to_string(), "y".to_string()]);
    assert_eq!(m.parameters().unwrap().slice_size, 4);
    assert!(!m.requires_continuous_mode());
}

#[test]
fn new_with_debug_sets_flag() {
    let mut m = EimModel::new_with_debug(params(false, vec!["a"]), 0, true).unwrap();
    match m.infer(vec![1], None).unwrap() {
        InferStep::EngineCall { debug, .. } => assert!(debug),
        _ => panic!("expected an engine call"),
    }
    // an explicit choice overrides the model's flag
    match m.infer(vec![1], Some(false)).unwrap() {
        InferStep::EngineCall { debug, .. } => assert!(!debug),
        _ => panic!("expected an engine call"),
    }
}

#[test]
fn normalize_clamps_scores() {
    let m = EimModel::new(params(false, vec!["a"]), 0).unwrap();
    let (a, mx, mn, regions) = m.normalize_visual_anomaly(
        1_500_000,
        -3,
        500_000,
        &[(2_000_000, 1, 2, 3, 4), (-1, 5, 6, 7, 8)],
    );
    assert_eq!(a, 1_000_000);
    assert_eq!(mx, 0);
    assert_eq!(mn, 500_000);
    assert_eq!(regions, vec![(1_000_000, 1, 2, 3, 4), (0, 5, 6, 7, 8)]);
}
