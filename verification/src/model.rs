//! The caller-facing model wrapper: an explicit, constructible, disposable
//! instance with an init/deinit lifecycle, one-shot and continuous
//! inference.
//!
//! The engine itself is a collaborator the caller drives: one inference
//! step is prepared here (`infer`), which either answers directly — during
//! continuous warm-up, when the engine must not be invoked — or says which
//! samples the engine must run over. The engine's status code and raw
//! result then complete the step (`complete_infer`): a failure surfaces as
//! its mapped error and leaves the buffered window unchanged; a success is
//! smoothed (when the continuous window is serving) and projected into the
//! response.

use vstd::prelude::*;
use crate::continuous::{
    maf_label_seq, spec_maf_after, spec_smoothed, spec_updated_window, ContinuousState,
    MAF_WINDOW_SIZE,
};
use crate::error::{spec_eim_error_of, spec_error_kind, EdgeImpulseError, EimError};
use crate::filter::{lemma_seq_sum_constant, seq_sum, spec_next_window, Score};
use crate::labels::index_of_label;
use crate::projection::{
    convert_result, raw_labels_of, spec_convert_result, ClassEntry, ClassEntryView,
    InferenceResponse, InferenceResult, RawClassification, RawClassificationView, RawResult,
};
use crate::types::{
    spec_sensor_type, ModelParameters, RunnerHelloHasAnomaly, SensorType, VisualAnomalyResult,
    SCORE_UNIT,
};

verus! {

/// What one inference step needs from the engine.
#[derive(Debug)]
pub enum InferStep {
    /// The step is already answered — the engine is not to be invoked.
    Response(InferenceResponse),
    /// The engine must run over exactly these samples; its status code and
    /// raw result complete the step through `complete_infer`.
    EngineCall { samples: Vec<i32>, continuous: bool, debug: bool },
}

/// A sequence of samples that are all zero.
pub open spec fn all_zero(s: Seq<i32>) -> bool {
    forall|k: int| 0 <= k < s.len() ==> s[k] == 0
}

/// A filter bank whose windows hold only zeros.
pub open spec fn maf_zeroed(maf: Seq<(Seq<char>, Seq<i32>)>) -> bool {
    forall|i: int| 0 <= i < maf.len() ==> all_zero((#[trigger] maf[i]).1)
}

/// A fresh filter bank: one empty filter per label.
pub open spec fn fresh_maf(labels: Seq<Seq<char>>) -> Seq<(Seq<char>, Seq<i32>)> {
    Seq::new(labels.len(), |i: int| (labels[i], Seq::<i32>::empty()))
}

/// The zero-valued classification over the given labels.
pub open spec fn spec_zero_classification(labels: Seq<Seq<char>>) -> Seq<RawClassificationView> {
    Seq::new(labels.len(), |i: int| RawClassificationView { label: labels[i], value: 0 })
}

/// A classification taken as it stands: every entry keeps its raw value.
pub open spec fn spec_raw_entries(c: Seq<RawClassificationView>) -> Seq<ClassEntryView> {
    Seq::new(
        c.len(),
        |i: int|
            ClassEntryView { label: c[i].label, score: Score { num: c[i].value as i64, den: 1 } },
    )
}

/// The debug flag one call runs with: the explicit choice, or the model's
/// own flag.
pub open spec fn spec_debug_flag(model_debug: bool, debug: Option<bool>) -> bool {
    match debug {
        Some(d) => d,
        None => model_debug,
    }
}

/// A score clamped into the displayable range [0, `SCORE_UNIT`].
pub open spec fn spec_clamp_unit(v: int) -> int {
    if v < 0 {
        0
    } else if v > SCORE_UNIT {
        SCORE_UNIT as int
    } else {
        v
    }
}

/// The model wrapper: lifecycle flag, debug flag, cached parameters, and
/// the continuous-inference state once streaming has begun.
#[derive(Debug)]
pub struct EimModel {
    initialized: bool,
    debug: bool,
    model_parameters: Option<ModelParameters>,
    continuous_state: Option<ContinuousState>,
}

impl EimModel {
    /// Whether the engine lifecycle is open: construction initialized it,
    /// `deinit` closes it.
    pub closed spec fn initialized(&self) -> bool {
        self.initialized
    }

    /// The model's own debug flag.
    pub closed spec fn debug_spec(&self) -> bool {
        self.debug
    }

    /// The cached parameters.
    pub closed spec fn params(&self) -> Option<ModelParameters> {
        self.model_parameters
    }

    /// The continuous-inference state, once streaming has begun.
    pub closed spec fn cont(&self) -> Option<ContinuousState> {
        self.continuous_state
    }

    /// Whether inference runs in continuous (streaming) mode.
    pub open spec fn continuous_mode(&self) -> bool {
        match self.params() {
            Some(p) => p.use_continuous_mode,
            None => false,
        }
    }

    /// Whether the model was built with any anomaly detection.
    pub open spec fn anomaly_capable(&self) -> bool {
        match self.params() {
            Some(p) => p.anomaly_enabled(),
            None => false,
        }
    }

    /// The model's known labels.
    pub open spec fn label_views(&self) -> Seq<Seq<char>> {
        match self.params() {
            Some(p) => p.labels.deep_view(),
            None => Seq::empty(),
        }
    }

    /// The buffered continuous window, empty when streaming has not begun.
    pub open spec fn window_or_empty(&self) -> Seq<i32> {
        match self.cont() {
            Some(st) => st.window(),
            None => Seq::empty(),
        }
    }

    /// The filter bank, fresh when streaming has not begun.
    pub open spec fn maf_or_fresh(&self) -> Seq<(Seq<char>, Seq<i32>)> {
        match self.cont() {
            Some(st) => st.maf(),
            None => fresh_maf(self.label_views()),
        }
    }

    /// The window capacity (the slice size), 0 without parameters.
    pub open spec fn slice_capacity(&self) -> int {
        match self.params() {
            Some(p) => p.slice_size as int,
            None => 0,
        }
    }

    /// Internal consistency: well-formed parameters; and once streaming
    /// has begun, a well-formed continuous state sized by the parameters,
    /// with one filter per label in order, whose windows hold only zeros
    /// until the sample window first fills (warm-up pushes only zeros).
    pub closed spec fn wf(&self) -> bool {
        &&& (self.model_parameters matches Some(p) ==> p.wf())
        &&& (self.continuous_state matches Some(st) ==> {
            &&& st.wf()
            &&& self.continuous_mode()
            &&& st.capacity() == self.slice_capacity()
            &&& st.maf().len() == self.label_views().len()
            &&& (forall|i: int|
                0 <= i < st.maf().len() ==> (#[trigger] st.maf()[i]).0 == self.label_views()[i])
            &&& (!st.is_full_spec() ==> maf_zeroed(st.maf()))
        })
    }

    /// Construct a model around its parameters, given the status the
    /// engine's classifier-init call reported. Succeeds exactly when that
    /// status is the success code; the instance is then initialized and
    /// ready for inference, with streaming not yet begun.
    pub fn new(params: ModelParameters, init_status: i32) -> (r: Result<EimModel, EimError>)
        requires
            params.wf(),
        ensures
            spec_error_kind(init_status as int) is Okay ==> (r matches Ok(m) && m.wf()
                && m.initialized() && !m.debug_spec() && m.params() == Some(params) && m.cont()
                is None),
            !(spec_error_kind(init_status as int) is Okay) ==> (r matches Err(e) && e matches
                EimError::ExecutionError(msg) && msg@ == "Classifier initialization failed"@),
    {
        let kind = EdgeImpulseError::from_status(init_status);
        if matches!(kind, EdgeImpulseError::Okay) {
            Ok(
                EimModel {
                    initialized: true,
                    debug: false,
                    model_parameters: Some(params),
                    continuous_state: None,
                },
            )
        } else {
            Err(EimError::ExecutionError("Classifier initialization failed".to_owned()))
        }
    }

    /// Construct as `new` does, with the debug flag set as given.
    pub fn new_with_debug(params: ModelParameters, init_status: i32, debug: bool) -> (r: Result<
        EimModel,
        EimError,
    >)
        requires
            params.wf(),
        ensures
            spec_error_kind(init_status as int) is Okay ==> (r matches Ok(m) && m.wf()
                && m.initialized() && m.debug_spec() == debug && m.params() == Some(params)
                && m.cont() is None),
            !(spec_error_kind(init_status as int) is Okay) ==> (r matches Err(e) && e matches
                EimError::ExecutionError(msg) && msg@ == "Classifier initialization failed"@),
    {
        match EimModel::new(params, init_status) {
            Ok(mut model) => {
                model.debug = debug;
                Ok(model)
            },
            Err(e) => Err(e),
        }
    }

    /// Close the engine lifecycle: afterwards every inference operation is
    /// rejected with `ModelNotInitialized` until a new instance is
    /// constructed. The engine's own teardown call is the caller's, once,
    /// at shutdown.
    pub fn deinit(&mut self)
        requires
            old(self).wf(),
        ensures
            final(self).wf(),
            !final(self).initialized(),
            final(self).params() == old(self).params(),
            final(self).cont() == old(self).cont(),
            final(self).debug_spec() == old(self).debug_spec(),
    {
        self.initialized = false;
    }

    /// The cached model parameters.
    pub fn parameters(&self) -> (r: Result<&ModelParameters, EimError>)
        ensures
            self.params() matches Some(p) ==> (r matches Ok(q) && *q == p),
            self.params() is None ==> (r matches Err(e) && e == EimError::ModelNotInitialized),
    {
        match &self.model_parameters {
            Some(p) => Ok(p),
            None => Err(EimError::ModelNotInitialized),
        }
    }

    /// The kind of sensor the model consumes data from.
    pub fn sensor_type(&self) -> (r: Result<SensorType, EimError>)
        ensures
            self.params() matches Some(p) ==> (r matches Ok(s) && s == spec_sensor_type(p.sensor)),
            self.params() is None ==> (r matches Err(e) && e == EimError::ModelNotInitialized),
    {
        match &self.model_parameters {
            Some(p) => Ok(SensorType::from(p.sensor)),
            None => Err(EimError::ModelNotInitialized),
        }
    }

    /// The number of features one inference call consumes.
    pub fn input_size(&self) -> (r: Result<usize, EimError>)
        ensures
            self.params() matches Some(p) ==> (r matches Ok(n) && n == p.input_features_count),
            self.params() is None ==> (r matches Err(e) && e == EimError::ModelNotInitialized),
    {
        match &self.model_parameters {
            Some(p) => Ok(p.input_features_count as usize),
            None => Err(EimError::ModelNotInitialized),
        }
    }

    /// Whether inference runs in continuous (streaming) mode.
    pub fn requires_continuous_mode(&self) -> (r: bool)
        ensures
            r == self.continuous_mode(),
    {
        match &self.model_parameters {
            Some(p) => p.use_continuous_mode,
            None => false,
        }
    }

    /// The model's known output-class labels.
    pub fn get_labels(&self) -> (r: Result<Vec<String>, EimError>)
        ensures
            self.params() matches Some(p) ==> (r matches Ok(ls) && ls.deep_view()
                == p.labels.deep_view()),
            self.params() is None ==> (r matches Err(e) && e == EimError::ModelNotInitialized),
    {
        match &self.model_parameters {
            Some(p) => Ok(clone_labels(&p.labels)),
            None => Err(EimError::ModelNotInitialized),
        }
    }

    /// Prepare one inference step over the given features.
    ///
    /// Rejected with `ModelNotInitialized` when the lifecycle is closed.
    /// In one-shot mode the engine runs over exactly the given features.
    /// In continuous mode the features first join the sliding window;
    /// while the window is still short of capacity the step is answered
    /// directly — every known label with a score of exactly zero, the
    /// engine not invoked — and once the window is full the engine runs
    /// over exactly the window's samples.
    pub fn infer(&mut self, features: Vec<i32>, debug: Option<bool>) -> (r: Result<
        InferStep,
        EimError,
    >)
        requires
            old(self).wf(),
            old(self).window_or_empty().len() + features@.len() <= usize::MAX,
        ensures
            final(self).wf(),
            final(self).params() == old(self).params(),
            final(self).initialized() == old(self).initialized(),
            final(self).debug_spec() == old(self).debug_spec(),
            !old(self).initialized() ==> (r matches Err(e) && e == EimError::ModelNotInitialized
                && final(self).cont() == old(self).cont()),
            old(self).initialized() && !old(self).continuous_mode() ==> (r matches Ok(step)
                && (step matches InferStep::EngineCall { samples, continuous, debug: dbg }
                && samples@ == features@ && !continuous && dbg == spec_debug_flag(
                old(self).debug_spec(),
                debug,
            )) && final(self).cont() == old(self).cont()),
            old(self).initialized() && old(self).continuous_mode() ==> ({
                let cap = old(self).slice_capacity();
                let w2 = spec_updated_window(old(self).window_or_empty(), features@, cap);
                let m1 = old(self).maf_or_fresh();
                let full = old(self).window_or_empty().len() + features@.len() >= cap;
                &&& (final(self).cont() matches Some(st2) && st2.window() == w2
                    && st2.is_full_spec() == full)
                &&& r matches Ok(step)
                &&& (full ==> (step matches InferStep::EngineCall { samples, continuous, debug: dbg }
                    && samples@ == w2 && continuous && dbg == spec_debug_flag(
                    old(self).debug_spec(),
                    debug,
                )) && final(self).maf_or_fresh() == m1)
                &&& (!full ==> (step matches InferStep::Response(resp) && resp.success && resp.id
                    == 1 && (resp.result@ matches
                    crate::projection::InferenceResultView::Classification { classification: cl }
                    && cl == spec_smoothed(m1, spec_zero_classification(old(self).label_views()))
                    && cl.len() == old(self).label_views().len() && (forall|i: int|
                    0 <= i < cl.len() ==> (#[trigger] cl[i]).label == old(self).label_views()[i]
                        && cl[i].score.is_zero() && cl[i].score.wf())))
                    && final(self).maf_or_fresh() == spec_maf_after(
                    m1,
                    spec_zero_classification(old(self).label_views()),
                ))
            }),
    {
        if !self.initialized {
            return Err(EimError::ModelNotInitialized);
        }
        let debug_enabled = match debug {
            Some(d) => d,
            None => self.debug,
        };
        if self.requires_continuous_mode() {
            // continuous mode implies parameters are present, so the
            // rejecting arms below are unreachable
            let labels: Vec<String> = match &self.model_parameters {
                Some(p) => clone_labels(&p.labels),
                None => {
                    return Err(EimError::ModelNotInitialized);
                },
            };
            let slice: usize = match &self.model_parameters {
                Some(p) => p.slice_size as usize,
                None => {
                    return Err(EimError::ModelNotInitialized);
                },
            };
            if self.continuous_state.is_none() {
                let st = ContinuousState::new(clone_labels(&labels), slice);
                proof {
                    assert(st.maf() =~= fresh_maf(old(self).label_views()));
                }
                self.continuous_state = Some(st);
            }
            let ghost m1 = old(self).maf_or_fresh();
            match &mut self.continuous_state {
                Some(st) => {
                    proof {
                        assert(st.maf() == m1);
                    }
                    st.update_features(features.as_slice());
                    if !st.is_full() {
                        let zero_raw = make_zero_classification(&labels);
                        proof {
                            assert(raw_labels_of(zero_raw.deep_view())
                                =~= old(self).label_views());
                        }
                        let entries = st.apply_maf(&zero_raw);
                        proof {
                            let ghost zc = spec_zero_classification(old(self).label_views());
                            assert(zero_raw.deep_view() =~= zc);
                            // the filter bank still holds only zeros: the
                            // window was not yet at capacity before this
                            // update, or streaming has just begun
                            match old(self).cont() {
                                Some(st0) => {
                                    st0.lemma_wf_consequences();
                                    assert(!st0.is_full_spec());
                                    assert(maf_zeroed(m1));
                                },
                                None => {
                                    assert forall|t: int| 0 <= t < m1.len() implies all_zero(
                                        (#[trigger] m1[t]).1,
                                    ) && m1[t].1.len() <= MAF_WINDOW_SIZE by {
                                        assert(m1[t].1 == Seq::<i32>::empty());
                                    }
                                },
                            }
                            assert(forall|t: int|
                                0 <= t < m1.len() ==> (#[trigger] m1[t]).1.len()
                                    <= MAF_WINDOW_SIZE);
                            lemma_smoothed_zeroes(m1, zc);
                            lemma_maf_after_zeroes(m1, zc);
                        }
                        Ok(
                            InferStep::Response(
                                InferenceResponse {
                                    success: true,
                                    id: 1,
                                    result: InferenceResult::Classification {
                                        classification: entries,
                                    },
                                },
                            ),
                        )
                    } else {
                        let samples = st.window_samples();
                        Ok(
                            InferStep::EngineCall {
                                samples,
                                continuous: true,
                                debug: debug_enabled,
                            },
                        )
                    }
                },
                // unreachable: the state was just created above if absent
                None => Err(EimError::ModelNotInitialized),
            }
        } else {
            Ok(InferStep::EngineCall { samples: features, continuous: false, debug: debug_enabled })
        }
    }

    /// Complete one engine-backed inference step.
    ///
    /// Rejected with `ModelNotInitialized` when the lifecycle is closed. A
    /// failure status surfaces as its mapped error and leaves all buffered
    /// state unchanged — samples already appended remain appended, nothing
    /// is retried. A success status projects the raw result into exactly
    /// one variant; when the continuous window is serving, every per-label
    /// score first passes through its label's smoothing filter.
    pub fn complete_infer(&mut self, status: i32, raw: &RawResult) -> (r: Result<
        InferenceResponse,
        EimError,
    >)
        requires
            old(self).wf(),
            raw.wf(),
        ensures
            final(self).wf(),
            final(self).params() == old(self).params(),
            final(self).initialized() == old(self).initialized(),
            final(self).debug_spec() == old(self).debug_spec(),
            final(self).window_or_empty() == old(self).window_or_empty(),
            !old(self).initialized() ==> (r matches Err(e) && e == EimError::ModelNotInitialized
                && final(self).cont() == old(self).cont()),
            old(self).initialized() && !(spec_error_kind(status as int) is Okay) ==> (r matches
                Err(e) && spec_eim_error_of(spec_error_kind(status as int), e) && final(self).cont()
                == old(self).cont()),
            old(self).initialized() && spec_error_kind(status as int) is Okay ==> ({
                let smooth = old(self).continuous_mode() && (old(self).cont() matches Some(st)
                    && st.is_full_spec());
                let entries = if smooth {
                    spec_smoothed(old(self).maf_or_fresh(), raw.classification.deep_view())
                } else {
                    spec_raw_entries(raw.classification.deep_view())
                };
                &&& r matches Ok(resp)
                &&& resp.success == true
                &&& resp.id == 1
                &&& resp.result@ == spec_convert_result(
                    entries,
                    raw.bounding_boxes.deep_view(),
                    old(self).anomaly_capable(),
                )
                &&& (smooth ==> final(self).maf_or_fresh() == spec_maf_after(
                    old(self).maf_or_fresh(),
                    raw.classification.deep_view(),
                ))
                &&& (!smooth ==> final(self).cont() == old(self).cont())
            }),
    {
        if !self.initialized {
            return Err(EimError::ModelNotInitialized);
        }
        let kind = EdgeImpulseError::from_status(status);
        if !matches!(kind, EdgeImpulseError::Okay) {
            return Err(EimError::from(kind));
        }
        let use_maf = self.requires_continuous_mode();
        let mut entries_opt: Option<Vec<ClassEntry>> = None;
        if use_maf {
            match &mut self.continuous_state {
                Some(st) => {
                    if st.is_full() {
                        entries_opt = Some(st.apply_maf(&raw.classification));
                    }
                },
                None => {},
            }
        }
        let entries: Vec<ClassEntry> = match entries_opt {
            Some(e) => e,
            None => raw_entries(&raw.classification),
        };
        let anomaly_capable: bool = match &self.model_parameters {
            Some(p) => !matches!(p.has_anomaly, RunnerHelloHasAnomaly::NoAnomaly),
            None => false,
        };
        let result = convert_result(entries, &raw.bounding_boxes, anomaly_capable);
        Ok(InferenceResponse { success: true, id: 1, result })
    }

    /// Normalize visual-anomaly scores for display: each score is clamped
    /// into [0, `SCORE_UNIT`]; region coordinates pass through unchanged.
    pub fn normalize_visual_anomaly(
        &self,
        anomaly: i32,
        max: i32,
        mean: i32,
        regions: &[(i32, u32, u32, u32, u32)],
    ) -> (r: VisualAnomalyResult)
        ensures
            r.0 == spec_clamp_unit(anomaly as int),
            r.1 == spec_clamp_unit(max as int),
            r.2 == spec_clamp_unit(mean as int),
            r.3@.len() == regions@.len(),
            forall|i: int|
                0 <= i < regions@.len() ==> ((#[trigger] r.3@[i]).0 == spec_clamp_unit(
                    regions@[i].0 as int,
                ) && r.3@[i].1 == regions@[i].1 && r.3@[i].2 == regions@[i].2 && r.3@[i].3
                    == regions@[i].3 && r.3@[i].4 == regions@[i].4),
    {
        let normalized_anomaly = clamp_unit(anomaly);
        let normalized_max = clamp_unit(max);
        let normalized_mean = clamp_unit(mean);
        let mut normalized_regions: Vec<(i32, u32, u32, u32, u32)> = Vec::new();
        let mut i: usize = 0;
        while i < regions.len()
            invariant
                i <= regions@.len(),
                normalized_regions@.len() == i,
                forall|k: int|
                    0 <= k < i ==> ((#[trigger] normalized_regions@[k]).0 == spec_clamp_unit(
                        regions@[k].0 as int,
                    ) && normalized_regions@[k].1 == regions@[k].1 && normalized_regions@[k].2
                        == regions@[k].2 && normalized_regions@[k].3 == regions@[k].3
                        && normalized_regions@[k].4 == regions@[k].4),
            decreases regions@.len() - i,
        {
            let region = regions[i];
            normalized_regions.push(
                (clamp_unit(region.0), region.1, region.2, region.3, region.4),
            );
            i += 1;
        }
        (normalized_anomaly, normalized_max, normalized_mean, normalized_regions)
    }
}

/// Clamp a fixed-point score into [0, `SCORE_UNIT`].
fn clamp_unit(v: i32) -> (r: i32)
    ensures
        r == spec_clamp_unit(v as int),
{
    if v < 0 {
        0
    } else if v > SCORE_UNIT {
        SCORE_UNIT
    } else {
        v
    }
}

/// Copy a label list.
fn clone_labels(labels: &Vec<String>) -> (r: Vec<String>)
    ensures
        r.deep_view() == labels.deep_view(),
{
    let mut out: Vec<String> = Vec::new();
    let mut i: usize = 0;
    while i < labels.len()
        invariant
            i <= labels@.len(),
            out.deep_view().len() == i,
            forall|k: int| 0 <= k < i ==> (#[trigger] out.deep_view()[k]) == labels.deep_view()[k],
        decreases labels@.len() - i,
    {
        let ghost out0 = out.deep_view();
        out.push(labels[i].clone());
        proof {
            assert(out.deep_view()[i as int] == labels.deep_view()[i as int]);
            assert forall|k: int| 0 <= k < i implies (#[trigger] out.deep_view()[k])
                == labels.deep_view()[k] by {
                assert(out.deep_view()[k] == out0[k]);
            }
        }
        i += 1;
    }
    proof {
        assert(out.deep_view() =~= labels.deep_view());
    }
    out
}

/// Build the zero-valued classification over the given labels.
fn make_zero_classification(labels: &Vec<String>) -> (r: Vec<RawClassification>)
    ensures
        r.deep_view() == spec_zero_classification(labels.deep_view()),
{
    let mut out: Vec<RawClassification> = Vec::new();
    let mut i: usize = 0;
    while i < labels.len()
        invariant
            i <= labels@.len(),
            out.deep_view().len() == i,
            forall|k: int|
                0 <= k < i ==> (#[trigger] out.deep_view()[k]).label == labels.deep_view()[k]
                    && out.deep_view()[k].value == 0,
        decreases labels@.len() - i,
    {
        let ghost out0 = out.deep_view();
        out.push(RawClassification { label: labels[i].clone(), value: 0 });
        proof {
            assert(out.deep_view()[i as int].label == labels.deep_view()[i as int]);
            assert forall|k: int| 0 <= k < i implies (#[trigger] out.deep_view()[k]).label
                == labels.deep_view()[k] && out.deep_view()[k].value == 0 by {
                assert(out.deep_view()[k] == out0[k]);
            }
        }
        i += 1;
    }
    proof {
        assert(out.deep_view() =~= spec_zero_classification(labels.deep_view()));
    }
    out
}

/// Take a classification as it stands: every entry keeps its raw value.
fn raw_entries(classification: &Vec<RawClassification>) -> (r: Vec<ClassEntry>)
    ensures
        r.deep_view() == spec_raw_entries(classification.deep_view()),
{
    let mut out: Vec<ClassEntry> = Vec::new();
    let mut i: usize = 0;
    while i < classification.len()
        invariant
            i <= classification@.len(),
            out.deep_view().len() == i,
            forall|k: int|
                0 <= k < i ==> (#[trigger] out.deep_view()[k]).label
                    == classification.deep_view()[k].label && out.deep_view()[k].score == (Score {
                    num: classification.deep_view()[k].value as i64,
                    den: 1,
                }),
        decreases classification@.len() - i,
    {
        let entry = &classification[i];
        let ghost out0 = out.deep_view();
        out.push(ClassEntry { label: entry.label.clone(), score: Score::from_raw(entry.value) });
        proof {
            assert(out.deep_view()[i as int].label == classification.deep_view()[i as int].label);
            assert forall|k: int| 0 <= k < i implies (#[trigger] out.deep_view()[k]).label
                == classification.deep_view()[k].label && out.deep_view()[k].score == (Score {
                num: classification.deep_view()[k].value as i64,
                den: 1,
            }) by {
                assert(out.deep_view()[k] == out0[k]);
            }
        }
        i += 1;
    }
    proof {
        assert(out.deep_view() =~= spec_raw_entries(classification.deep_view()));
    }
    out
}

/// Smoothing a zero-valued classification through a zeroed filter bank
/// answers zero for every label.
proof fn lemma_smoothed_zeroes(m1: Seq<(Seq<char>, Seq<i32>)>, zc: Seq<RawClassificationView>)
    requires
        maf_zeroed(m1),
        forall|i: int| 0 <= i < m1.len() ==> (#[trigger] m1[i]).1.len() <= MAF_WINDOW_SIZE,
        forall|i: int| 0 <= i < zc.len() ==> (#[trigger] zc[i]).value == 0,
    ensures
        forall|i: int|
            0 <= i < zc.len() ==> (#[trigger] spec_smoothed(m1, zc)[i]).label == zc[i].label
                && spec_smoothed(m1, zc)[i].score.num == 0 && spec_smoothed(m1, zc)[i].score.den
                >= 1,
{
    assert forall|i: int| 0 <= i < zc.len() implies (#[trigger] spec_smoothed(m1, zc)[i]).label
        == zc[i].label && spec_smoothed(m1, zc)[i].score.num == 0 && spec_smoothed(
        m1,
        zc,
    )[i].score.den >= 1 by {
        let j = index_of_label(maf_label_seq(m1), zc[i].label);
        if j >= 0 {
            crate::labels::lemma_index_of_label(maf_label_seq(m1), zc[i].label);
            let nb = spec_next_window(m1[j].1, MAF_WINDOW_SIZE as int, zc[i].value);
            assert(all_zero(m1[j].1));
            assert forall|k: int| 0 <= k < nb.len() implies nb[k] == 0 by {
                if k < nb.len() - 1 {
                    if m1[j].1.len() >= MAF_WINDOW_SIZE {
                        assert(nb[k] == m1[j].1[k + 1]);
                    } else {
                        assert(nb[k] == m1[j].1[k]);
                    }
                }
            }
            lemma_seq_sum_constant(nb, 0);
        }
    }
}

/// Pushing a zero-valued classification through a zeroed filter bank
/// leaves it zeroed.
proof fn lemma_maf_after_zeroes(m1: Seq<(Seq<char>, Seq<i32>)>, zc: Seq<RawClassificationView>)
    requires
        maf_zeroed(m1),
        forall|i: int| 0 <= i < zc.len() ==> (#[trigger] zc[i]).value == 0,
    ensures
        maf_zeroed(spec_maf_after(m1, zc)),
{
    let m2 = spec_maf_after(m1, zc);
    assert forall|i: int| 0 <= i < m2.len() implies all_zero((#[trigger] m2[i]).1) by {
        let k = index_of_label(raw_labels_of(zc), m1[i].0);
        if k >= 0 {
            crate::labels::lemma_index_of_label(raw_labels_of(zc), m1[i].0);
            let nb = spec_next_window(m1[i].1, MAF_WINDOW_SIZE as int, zc[k].value);
            assert(all_zero(m1[i].1));
            assert forall|t: int| 0 <= t < nb.len() implies nb[t] == 0 by {
                if t < nb.len() - 1 {
                    if m1[i].1.len() >= MAF_WINDOW_SIZE {
                        assert(nb[t] == m1[i].1[t + 1]);
                    } else {
                        assert(nb[t] == m1[i].1[t]);
                    }
                }
            }
        }
    }
}

} // verus!
