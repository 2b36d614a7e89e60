use edge_impulse_ffi::continuous::ContinuousState;
use edge_impulse_ffi::projection::RawClassification;

fn labels2() -> Vec<String> {
    vec!["a".to_string(), "b".to_string()]
}

fn raw(label: &str, value: i32) -> RawClassification {
    RawClassification { label: label.to_string(), value }
}

#[test]
fn window_not_full_before_capacity() {
    let mut st = ContinuousState::new(labels2(), 4);
    st.update_features(&[1, 2, 3]);
    assert!(!st.is_full());
    assert_eq!(st.window_samples(), vec![1, 2, 3]);
}

#[test]
fn window_fills_and_stays_at_capacity() {
    // at capacity, k new samples evict exactly the k oldest
    let mut st = ContinuousState::new(labels2(), 4);
    st.update_features(&[1, 2, 3, 4]);
    assert!(st.is_full());
    assert_eq!(st.window_samples(), vec![1, 2, 3, 4]);
    st.update_features(&[5, 6]);
    assert!(st.is_full());
    assert_eq!(st.window_samples(), vec![3, 4, 5, 6]);
}

#[test]
fn oversized_slice_keeps_most_recent() {
    let mut st = ContinuousState::new(labels2(), 3);
    st.update_features(&[1, 2, 3, 4, 5]);
    assert!(st.is_full());
    assert_eq!(st.window_samples(), vec![3, 4, 5]);
}

#[test]
fn apply_maf_smooths_by_label() {
    let mut st = ContinuousState::new(labels2(), 4);
    let out1 = st.apply_maf(&vec![raw("a", 8), raw("b", 2)]);
    assert_eq!(out1.len(), 2);
    assert_eq!(out1[0].label, "a");
    assert_eq!((out1[0].score.num, out1[0].score.den), (8, 1));
    assert_eq!((out1[1].score.num, out1[1].score.den), (2, 1));
    let out2 = st.apply_maf(&vec![raw("a", 4), raw("b", 6)]);
    assert_eq!((out2[0].score.num, out2[0].score.den), (12, 2)); // mean of 8 and 4
    assert_eq!((out2[1].score.num, out2[1].score.den), (8, 2)); // mean of 2 and 6
}

#[test]
fn apply_maf_keeps_unknown_labels_raw() {
    let mut st = ContinuousState::new(labels2(), 4);
    let out = st.apply_maf(&vec![raw("zz", 7)]);
    assert_eq!(out.len(), 1);
    assert_eq!(out[0].label, "zz");
    assert_eq!((out[0].score.num, out[0].score.den), (7, 1));
}

#[test]
fn filters_forget_beyond_their_window() {
    let mut st = ContinuousState::new(vec!["a".to_string()], 4);
    st.apply_maf(&vec![raw("a", 100)]);
    st.apply_maf(&vec![raw("a", 20)]);
    st.apply_maf(&vec![raw("a", 20)]);
    st.apply_maf(&vec![raw("a", 20)]);
    // the fifth update drops the 100 from the window-4 mean
    let out = st.apply_maf(&vec![raw("a", 20)]);
    assert_eq!((out[0].score.num, out[0].score.den), (80, 4));
}
