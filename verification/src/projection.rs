//! Projection of the engine's raw result into the caller-facing variants.
//!
//! A raw result carries a per-label score list, a detected-region list and
//! a timing block. Projection picks exactly one variant by a fixed
//! priority: any surviving bounding box makes the result an object
//! detection; otherwise an anomaly-capable model yields a visual anomaly;
//! otherwise a plain classification. Zero-valued boxes are treated as
//! absent and dropped; every other score passes through unmodified.

use vstd::prelude::*;
use crate::bindings_dummy::ei_impulse_result_timing_t;
use crate::filter::Score;
use crate::labels::{distinct_labels, index_of_label, lemma_index_of_label};
use crate::types::{BoundingBox, BoundingBoxView};

verus! {

/// One raw per-label score as the engine reports it.
#[derive(Debug, Clone)]
pub struct RawClassification {
    pub label: String,
    pub value: i32,
}

/// The mathematical content of a `RawClassification`.
pub struct RawClassificationView {
    pub label: Seq<char>,
    pub value: i32,
}

impl View for RawClassification {
    type V = RawClassificationView;

    open spec fn view(&self) -> RawClassificationView {
        RawClassificationView { label: self.label@, value: self.value }
    }
}

impl DeepView for RawClassification {
    type V = RawClassificationView;

    open spec fn deep_view(&self) -> RawClassificationView {
        self.view()
    }
}

/// One raw detected region as the engine reports it, with unsigned pixel
/// coordinates.
#[derive(Debug, Clone)]
pub struct RawBoundingBox {
    pub label: String,
    pub x: u32,
    pub y: u32,
    pub width: u32,
    pub height: u32,
    pub value: i32,
}

/// The mathematical content of a `RawBoundingBox`.
pub struct RawBoundingBoxView {
    pub label: Seq<char>,
    pub x: u32,
    pub y: u32,
    pub width: u32,
    pub height: u32,
    pub value: i32,
}

impl View for RawBoundingBox {
    type V = RawBoundingBoxView;

    open spec fn view(&self) -> RawBoundingBoxView {
        RawBoundingBoxView {
            label: self.label@,
            x: self.x,
            y: self.y,
            width: self.width,
            height: self.height,
            value: self.value,
        }
    }
}

impl DeepView for RawBoundingBox {
    type V = RawBoundingBoxView;

    open spec fn deep_view(&self) -> RawBoundingBoxView {
        self.view()
    }
}

/// The engine's raw result of one inference call.
#[derive(Debug)]
pub struct RawResult {
    pub classification: Vec<RawClassification>,
    pub bounding_boxes: Vec<RawBoundingBox>,
    pub timing: ei_impulse_result_timing_t,
}

/// The labels of a raw classification list, in order.
pub open spec fn raw_labels_of(c: Seq<RawClassificationView>) -> Seq<Seq<char>> {
    Seq::new(c.len(), |i: int| c[i].label)
}

/// Whether a raw region's pixel coordinates fit the caller-facing signed
/// range.
pub open spec fn raw_box_in_range(b: RawBoundingBoxView) -> bool {
    &&& b.x <= 0x7fff_ffff
    &&& b.y <= 0x7fff_ffff
    &&& b.width <= 0x7fff_ffff
    &&& b.height <= 0x7fff_ffff
}

impl RawResult {
    /// Validity of a raw result: per-label scores keyed uniquely (map
    /// semantics) and pixel coordinates within the signed range.
    pub open spec fn wf(&self) -> bool {
        &&& distinct_labels(raw_labels_of(self.classification.deep_view()))
        &&& forall|i: int|
            0 <= i < self.bounding_boxes.deep_view().len() ==> raw_box_in_range(
                self.bounding_boxes.deep_view()[i],
            )
    }
}

/// One caller-facing classification entry: a label and its score.
///
/// A classification is an ordered list of such entries with unique labels:
/// map semantics, insertion order preserved, no guaranteed inter-label
/// order.
#[derive(Debug, Clone)]
pub struct ClassEntry {
    pub label: String,
    pub score: Score,
}

/// The mathematical content of a `ClassEntry`.
pub struct ClassEntryView {
    pub label: Seq<char>,
    pub score: Score,
}

impl View for ClassEntry {
    type V = ClassEntryView;

    open spec fn view(&self) -> ClassEntryView {
        ClassEntryView { label: self.label@, score: self.score }
    }
}

impl DeepView for ClassEntry {
    type V = ClassEntryView;

    open spec fn deep_view(&self) -> ClassEntryView {
        self.view()
    }
}

/// The labels of a classification, in order.
pub open spec fn entry_labels_of(c: Seq<ClassEntryView>) -> Seq<Seq<char>> {
    Seq::new(c.len(), |i: int| c[i].label)
}

/// The result of one inference call: exactly one variant is active.
#[derive(Debug, Clone)]
pub enum InferenceResult {
    /// Result from a classification model.
    Classification { classification: Vec<ClassEntry> },
    /// Result from an object detection model.
    ObjectDetection { bounding_boxes: Vec<BoundingBox>, classification: Vec<ClassEntry> },
    /// Result from a visual anomaly detection model.
    VisualAnomaly {
        visual_anomaly_grid: Vec<BoundingBox>,
        visual_anomaly_max: Score,
        visual_anomaly_mean: Score,
        anomaly: Score,
    },
}

/// The mathematical content of an `InferenceResult`.
pub enum InferenceResultView {
    Classification { classification: Seq<ClassEntryView> },
    ObjectDetection { bounding_boxes: Seq<BoundingBoxView>, classification: Seq<ClassEntryView> },
    VisualAnomaly {
        visual_anomaly_grid: Seq<BoundingBoxView>,
        visual_anomaly_max: Score,
        visual_anomaly_mean: Score,
        anomaly: Score,
    },
}

impl View for InferenceResult {
    type V = InferenceResultView;

    open spec fn view(&self) -> InferenceResultView {
        match self {
            InferenceResult::Classification { classification } => {
                InferenceResultView::Classification { classification: classification.deep_view() }
            },
            InferenceResult::ObjectDetection { bounding_boxes, classification } => {
                InferenceResultView::ObjectDetection {
                    bounding_boxes: bounding_boxes.deep_view(),
                    classification: classification.deep_view(),
                }
            },
            InferenceResult::VisualAnomaly {
                visual_anomaly_grid,
                visual_anomaly_max,
                visual_anomaly_mean,
                anomaly,
            } => {
                InferenceResultView::VisualAnomaly {
                    visual_anomaly_grid: visual_anomaly_grid.deep_view(),
                    visual_anomaly_max: *visual_anomaly_max,
                    visual_anomaly_mean: *visual_anomaly_mean,
                    anomaly: *anomaly,
                }
            },
        }
    }
}

/// A response to one inference request.
#[derive(Debug, Clone)]
pub struct InferenceResponse {
    /// Whether the inference succeeded.
    pub success: bool,
    /// Message identifier matching the request.
    pub id: u32,
    /// The actual inference result.
    pub result: InferenceResult,
}

/// The caller-facing shape of one raw region.
pub open spec fn spec_box_view(b: RawBoundingBoxView) -> BoundingBoxView {
    BoundingBoxView {
        height: b.height as int,
        label: b.label,
        value: b.value as int,
        width: b.width as int,
        x: b.x as int,
        y: b.y as int,
    }
}

/// The regions that survive projection: zero-valued boxes are treated as
/// absent and dropped, all others pass through in order.
pub open spec fn spec_project_boxes(boxes: Seq<RawBoundingBoxView>) -> Seq<BoundingBoxView>
    decreases boxes.len(),
{
    if boxes.len() == 0 {
        Seq::empty()
    } else {
        let rest = spec_project_boxes(boxes.drop_last());
        if boxes.last().value != 0 {
            rest.push(spec_box_view(boxes.last()))
        } else {
            rest
        }
    }
}

/// The zero score.
pub open spec fn spec_zero_score() -> Score {
    Score { num: 0, den: 1 }
}

/// The anomaly score of a classification: the score of the entry labeled
/// "anomaly", or zero when there is none.
pub open spec fn spec_anomaly_score(c: Seq<ClassEntryView>) -> Score {
    let i = index_of_label(entry_labels_of(c), "anomaly"@);
    if i >= 0 {
        c[i].score
    } else {
        spec_zero_score()
    }
}

/// The variant a raw result projects to, by the fixed priority: surviving
/// bounding boxes first, then anomaly capability, then plain
/// classification.
pub open spec fn spec_convert_result(
    classification: Seq<ClassEntryView>,
    boxes: Seq<RawBoundingBoxView>,
    anomaly_capable: bool,
) -> InferenceResultView {
    let kept = spec_project_boxes(boxes);
    if kept.len() > 0 {
        InferenceResultView::ObjectDetection { bounding_boxes: kept, classification }
    } else if anomaly_capable {
        InferenceResultView::VisualAnomaly {
            visual_anomaly_grid: Seq::empty(),
            visual_anomaly_max: spec_zero_score(),
            visual_anomaly_mean: spec_zero_score(),
            anomaly: spec_anomaly_score(classification),
        }
    } else {
        InferenceResultView::Classification { classification }
    }
}

/// Law: projection drops exactly the zero-valued boxes — every surviving
/// region carries a nonzero score, and every nonzero raw box survives.
pub proof fn lemma_projected_boxes_nonzero(boxes: Seq<RawBoundingBoxView>)
    ensures
        forall|j: int|
            0 <= j < spec_project_boxes(boxes).len() ==> spec_project_boxes(boxes)[j].value != 0,
        spec_project_boxes(boxes).len() == boxes.filter(|b: RawBoundingBoxView| b.value != 0).len(),
    decreases boxes.len(),
{
    reveal(Seq::filter);
    if boxes.len() == 0 {
        assert(boxes.filter(|b: RawBoundingBoxView| b.value != 0) =~= Seq::<
            RawBoundingBoxView,
        >::empty());
    } else {
        lemma_projected_boxes_nonzero(boxes.drop_last());
        let rest = spec_project_boxes(boxes.drop_last());
        if boxes.last().value != 0 {
            assert(forall|j: int|
                0 <= j < rest.len() ==> spec_project_boxes(boxes)[j] == rest[j]);
        }
    }
}

/// Law: detection wins the priority — a raw result with at least one
/// nonzero bounding box projects to `ObjectDetection`, never to
/// `VisualAnomaly` or `Classification`, even on an anomaly-capable model.
pub proof fn lemma_detection_priority(
    classification: Seq<ClassEntryView>,
    boxes: Seq<RawBoundingBoxView>,
    anomaly_capable: bool,
)
    requires
        exists|i: int| 0 <= i < boxes.len() && boxes[i].value != 0,
    ensures
        spec_convert_result(classification, boxes, anomaly_capable)
            is ObjectDetection,
{
    lemma_project_boxes_keeps_witness(boxes);
}

proof fn lemma_project_boxes_keeps_witness(boxes: Seq<RawBoundingBoxView>)
    requires
        exists|i: int| 0 <= i < boxes.len() && boxes[i].value != 0,
    ensures
        spec_project_boxes(boxes).len() > 0,
    decreases boxes.len(),
{
    let w = choose|i: int| 0 <= i < boxes.len() && boxes[i].value != 0;
    if boxes.last().value != 0 {
    } else {
        assert(boxes.drop_last()[w] == boxes[w]);
        lemma_project_boxes_keeps_witness(boxes.drop_last());
    }
}

/// Keep the regions with nonzero scores, converting their coordinates to
/// the caller-facing shape.
fn project_boxes(boxes: &Vec<RawBoundingBox>) -> (r: Vec<BoundingBox>)
    requires
        forall|i: int|
            0 <= i < boxes.deep_view().len() ==> raw_box_in_range(boxes.deep_view()[i]),
    ensures
        r.deep_view() == spec_project_boxes(boxes.deep_view()),
{
    let ghost all = boxes.deep_view();
    let mut out: Vec<BoundingBox> = Vec::new();
    let mut i: usize = 0;
    while i < boxes.len()
        invariant
            i <= boxes.len(),
            all == boxes.deep_view(),
            forall|k: int| 0 <= k < all.len() ==> raw_box_in_range(all[k]),
            out.deep_view() == spec_project_boxes(all.take(i as int)),
        decreases boxes.len() - i,
    {
        let b = &boxes[i];
        let ghost prefix = all.take(i as int);
        proof {
            assert(all.take(i + 1).drop_last() =~= prefix);
            assert(all.take(i + 1).last() == all[i as int]);
        }
        if b.value != 0 {
            let converted = BoundingBox {
                height: b.height as i32,
                label: b.label.clone(),
                value: b.value,
                width: b.width as i32,
                x: b.x as i32,
                y: b.y as i32,
            };
            proof {
                assert(converted.deep_view() == spec_box_view(all[i as int]));
            }
            out.push(converted);
            proof {
                assert(out.deep_view() =~= spec_project_boxes(all.take(i + 1)));
            }
        } else {
            proof {
                assert(out.deep_view() =~= spec_project_boxes(all.take(i + 1)));
            }
        }
        i += 1;
    }
    proof {
        assert(all.take(boxes.len() as int) =~= all);
    }
    out
}

/// Look up the "anomaly" entry's score, or zero when there is none.
fn find_anomaly_score(classification: &Vec<ClassEntry>) -> (r: Score)
    ensures
        r == spec_anomaly_score(classification.deep_view()),
{
    let ghost c = classification.deep_view();
    let ghost lbls = entry_labels_of(c);
    let target: String = "anomaly".to_owned();
    let mut i: usize = 0;
    while i < classification.len()
        invariant
            i <= classification.len(),
            c == classification.deep_view(),
            lbls == entry_labels_of(c),
            target@ == "anomaly"@,
            forall|m: int| 0 <= m < i ==> lbls[m] != "anomaly"@,
        decreases classification.len() - i,
    {
        if classification[i].label == target {
            proof {
                assert(lbls[i as int] == "anomaly"@);
                lemma_index_of_label(lbls, "anomaly"@);
                let found = index_of_label(lbls, "anomaly"@);
                assert(found >= 0);
                if found < i as int {
                    assert(lbls[found] != "anomaly"@);
                }
                if found > i as int {
                    assert(lbls[i as int] != "anomaly"@);
                }
                assert(found == i as int);
            }
            return classification[i].score;
        }
        i += 1;
    }
    proof {
        lemma_index_of_label(lbls, "anomaly"@);
    }
    Score { num: 0, den: 1 }
}

/// Project one raw result into exactly one caller-facing variant by the
/// fixed priority rule. Classification scores pass through unmodified;
/// zero-valued boxes are dropped.
pub fn convert_result(
    classification: Vec<ClassEntry>,
    bounding_boxes: &Vec<RawBoundingBox>,
    anomaly_capable: bool,
) -> (r: InferenceResult)
    requires
        forall|i: int|
            0 <= i < bounding_boxes.deep_view().len() ==> raw_box_in_range(
                bounding_boxes.deep_view()[i],
            ),
    ensures
        r@ == spec_convert_result(
            classification.deep_view(),
            bounding_boxes.deep_view(),
            anomaly_capable,
        ),
{
    let kept = project_boxes(bounding_boxes);
    if kept.len() > 0 {
        InferenceResult::ObjectDetection { bounding_boxes: kept, classification }
    } else if anomaly_capable {
        let anomaly = find_anomaly_score(&classification);
        let empty_grid: Vec<BoundingBox> = Vec::new();
        proof {
            assert(empty_grid.deep_view() =~= Seq::<BoundingBoxView>::empty());
        }
        InferenceResult::VisualAnomaly {
            visual_anomaly_grid: empty_grid,
            visual_anomaly_max: Score { num: 0, den: 1 },
            visual_anomaly_mean: Score { num: 0, den: 1 },
            anomaly,
        }
    } else {
        InferenceResult::Classification { classification }
    }
}

} // verus!
