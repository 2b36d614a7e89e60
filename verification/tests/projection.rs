use edge_impulse_ffi::filter::Score;
use edge_impulse_ffi::projection::{
    convert_result, ClassEntry, InferenceResult, RawBoundingBox,
};

fn raw_box(label: &str, value: i32) -> RawBoundingBox {
    RawBoundingBox { label: label.to_string(), x: 10, y: 20, width: 30, height: 40, value }
}

fn entry(label: &str, num: i64, den: u64) -> ClassEntry {
    ClassEntry { label: label.to_string(), score: Score { num, den } }
}

#[test]
fn zero_boxes_are_dropped() {
    // a zero-valued box and a 0.6 box yield exactly the 0.6 box
    let boxes = vec![raw_box("cat", 0), raw_box("dog", 600_000)];
    let r = convert_result(Vec::new(), &boxes, false);
    match r {
        InferenceResult::ObjectDetection { bounding_boxes, classification } => {
            assert_eq!(bounding_boxes.len(), 1);
            assert_eq!(bounding_boxes[0].label, "dog");
            assert_eq!(bounding_boxes[0].value, 600_000);
            assert_eq!(bounding_boxes[0].x, 10);
            assert_eq!(bounding_boxes[0].y, 20);
            assert_eq!(bounding_boxes[0].width, 30);
            assert_eq!(bounding_boxes[0].height, 40);
            assert!(classification.is_empty());
        }
        _ => panic!("expected object detection"),
    }
}

#[test]
fn low_confidence_boxes_pass_through() {
    // no threshold filtering: only exact zeros are treated as absent
    let boxes = vec![raw_box("faint", 1)];
    let r = convert_result(Vec::new(), &boxes, false);
    match r {
        InferenceResult::ObjectDetection { bounding_boxes, .. } => {
            assert_eq!(bounding_boxes.len(), 1);
            assert_eq!(bounding_boxes[0].value, 1);
        }
        _ => panic!("expected object detection"),
    }
}

#[test]
fn detection_outranks_anomaly() {
    // one nonzero box wins even on an anomaly-capable model
    let boxes = vec![raw_box("cat", 1)];
    let r = convert_result(vec![entry("anomaly", 900_000, 1)], &boxes, true);
    assert!(matches!(r, InferenceResult::ObjectDetection { .. }));
}

#[test]
fn anomaly_when_no_surviving_boxes() {
    let boxes = vec![raw_box("cat", 0)];
    let r = convert_result(
        vec![entry("noise", 5, 1), entry("anomaly", 900_000, 1)],
        &boxes,
        true,
    );
    match r {
        InferenceResult::VisualAnomaly {
            visual_anomaly_grid,
            visual_anomaly_max,
            visual_anomaly_mean,
            anomaly,
        } => {
            assert!(visual_anomaly_grid.is_empty());
            assert_eq!((anomaly.num, anomaly.den), (900_000, 1));
            assert_eq!((visual_anomaly_max.num, visual_anomaly_max.den), (0, 1));
            assert_eq!((visual_anomaly_mean.num, visual_anomaly_mean.den), (0, 1));
        }
        _ => panic!("expected visual anomaly"),
    }
}

#[test]
fn anomaly_score_zero_when_label_absent() {
    let r = convert_result(vec![entry("cat", 3, 1)], &Vec::new(), true);
    match r {
        InferenceResult::VisualAnomaly { anomaly, .. } => {
            assert_eq!((anomaly.num, anomaly.den), (0, 1));
        }
        _ => panic!("expected visual anomaly"),
    }
}

#[test]
fn classification_when_no_boxes_and_no_anomaly() {
    let r = convert_result(vec![entry("cat", 3, 1), entry("dog", 4, 1)], &Vec::new(), false);
    match r {
        InferenceResult::Classification { classification } => {
            assert_eq!(classification.len(), 2);
            assert_eq!(classification[0].label, "cat");
            assert_eq!((classification[0].score.num, classification[0].score.den), (3, 1));
            assert_eq!(classification[1].label, "dog");
        }
        _ => panic!("expected classification"),
    }
}
