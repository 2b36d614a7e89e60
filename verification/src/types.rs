//! Caller-facing data types: model parameters, capability and sensor
//! enumerations, and the detected-object shape.
//!
//! Scores are fixed-point integers: `SCORE_UNIT` units denote one full
//! confidence point (1.0). Pixel coordinates are plain integers.

use vstd::prelude::*;
use crate::labels::distinct_labels;

verus! {

/// Fixed-point scale of scores: this many units denote a confidence of 1.0.
pub const SCORE_UNIT: i32 = 1_000_000;

/// The kind of anomaly detection a model was built with.
#[derive(Debug, Clone, Copy, PartialEq, Eq, Structural)]
pub enum RunnerHelloHasAnomaly {
    NoAnomaly,
    KMeans,
    GMM,
    VisualGMM,
}

/// The anomaly kind a raw capability value denotes; unknown values mean
/// no anomaly support.
pub open spec fn spec_anomaly_kind(value: u32) -> RunnerHelloHasAnomaly {
    if value == 1 {
        RunnerHelloHasAnomaly::KMeans
    } else if value == 2 {
        RunnerHelloHasAnomaly::GMM
    } else if value == 3 {
        RunnerHelloHasAnomaly::VisualGMM
    } else {
        RunnerHelloHasAnomaly::NoAnomaly
    }
}

impl From<u32> for RunnerHelloHasAnomaly {
    fn from(value: u32) -> Self {
        match value {
            1 => RunnerHelloHasAnomaly::KMeans,
            2 => RunnerHelloHasAnomaly::GMM,
            3 => RunnerHelloHasAnomaly::VisualGMM,
            _ => RunnerHelloHasAnomaly::NoAnomaly,
        }
    }
}

impl vstd::std_specs::convert::FromSpecImpl<u32> for RunnerHelloHasAnomaly {
    open spec fn obeys_from_spec() -> bool {
        true
    }

    open spec fn from_spec(v: u32) -> Self {
        spec_anomaly_kind(v)
    }
}

/// The kind of sensor a model consumes data from.
#[derive(Debug, Clone, Copy, PartialEq, Eq, Structural)]
pub enum SensorType {
    Unknown,
    Microphone,
    Accelerometer,
    Camera,
    Positional,
}

/// The sensor a raw metadata value denotes; unknown values mean an unknown
/// sensor.
pub open spec fn spec_sensor_type(value: i32) -> SensorType {
    if value == 1 {
        SensorType::Microphone
    } else if value == 2 {
        SensorType::Accelerometer
    } else if value == 3 {
        SensorType::Camera
    } else if value == 4 {
        SensorType::Positional
    } else {
        SensorType::Unknown
    }
}

impl From<i32> for SensorType {
    fn from(value: i32) -> Self {
        match value {
            1 => SensorType::Microphone,
            2 => SensorType::Accelerometer,
            3 => SensorType::Camera,
            4 => SensorType::Positional,
            _ => SensorType::Unknown,
        }
    }
}

impl vstd::std_specs::convert::FromSpecImpl<i32> for SensorType {
    open spec fn obeys_from_spec() -> bool {
        true
    }

    open spec fn from_spec(v: i32) -> Self {
        spec_sensor_type(v)
    }
}

/// A per-capability decision threshold of the model.
#[derive(Debug, Clone)]
pub enum ModelThreshold {
    ObjectDetection { id: u32, min_score: i32 },
    AnomalyGMM { id: u32, min_anomaly_score: i32 },
    ObjectTracking { id: u32, keep_grace: u32, max_observations: u32, threshold: i32 },
    Unknown { id: u32, unknown: i32 },
}

/// Parameters that define a model's configuration and capabilities.
///
/// These come from the generated model metadata; the core reads them at
/// construction time to size buffers and choose behavior.
#[derive(Debug, Clone)]
pub struct ModelParameters {
    pub axis_count: u32,
    pub frequency: u32,
    pub has_anomaly: RunnerHelloHasAnomaly,
    pub has_object_tracking: bool,
    pub image_channel_count: u32,
    pub image_input_frames: u32,
    pub image_input_height: u32,
    pub image_input_width: u32,
    pub image_resize_mode: String,
    pub inferencing_engine: u32,
    pub input_features_count: u32,
    pub interval_ms: u32,
    pub label_count: u32,
    pub labels: Vec<String>,
    pub model_type: String,
    pub sensor: i32,
    pub slice_size: u32,
    pub thresholds: Vec<ModelThreshold>,
    pub use_continuous_mode: bool,
}

impl ModelParameters {
    /// Coherence the continuous path relies on: a positive slice size to
    /// accumulate towards, and pairwise-distinct labels (one smoothing
    /// filter per label).
    pub open spec fn wf(&self) -> bool {
        self.use_continuous_mode ==> {
            &&& self.slice_size >= 1
            &&& distinct_labels(self.labels.deep_view())
        }
    }

    /// Whether the model was built with any anomaly detection.
    pub open spec fn anomaly_enabled(&self) -> bool {
        !(self.has_anomaly matches RunnerHelloHasAnomaly::NoAnomaly)
    }
}

/// Information about the project a model was exported from.
#[derive(Debug)]
pub struct ProjectInfo {
    pub deploy_version: u32,
    pub id: u32,
    pub name: String,
    pub owner: String,
}

/// Per-stage timing of one inference call.
#[derive(Debug)]
pub struct TimingInfo {
    pub dsp: u32,
    pub classification: u32,
    pub anomaly: u32,
    pub json: u32,
    pub stdin: u32,
}

/// A detected object: its label, its confidence score in fixed-point
/// units, and its axis-aligned rectangle in pixels.
#[derive(Debug, Clone)]
pub struct BoundingBox {
    pub height: i32,
    pub label: String,
    pub value: i32,
    pub width: i32,
    pub x: i32,
    pub y: i32,
}

/// The mathematical content of a `BoundingBox`.
pub struct BoundingBoxView {
    pub height: int,
    pub label: Seq<char>,
    pub value: int,
    pub width: int,
    pub x: int,
    pub y: int,
}

impl View for BoundingBox {
    type V = BoundingBoxView;

    open spec fn view(&self) -> BoundingBoxView {
        BoundingBoxView {
            height: self.height as int,
            label: self.label@,
            value: self.value as int,
            width: self.width as int,
            x: self.x as int,
            y: self.y as int,
        }
    }
}

impl DeepView for BoundingBox {
    type V = BoundingBoxView;

    open spec fn deep_view(&self) -> BoundingBoxView {
        self.view()
    }
}

/// Normalized visual-anomaly results: overall, maximum and mean scores
/// clamped to [0, `SCORE_UNIT`], and the clamped anomaly regions as
/// (score, x, y, width, height) tuples.
pub type VisualAnomalyResult = (i32, i32, i32, Vec<(i32, u32, u32, u32, u32)>);

} // verus!
