//! Stand-in engine entry points and raw-boundary data shapes.
//!
//! The real inference engine is a precompiled artifact linked at build time.
//! When no engine is linked, these stubs take its place so that callers still
//! link and every call reports failure through the ordinary status-code
//! channel rather than by crashing.

use vstd::prelude::*;

verus! {

/// Status-code type of the engine boundary.
#[allow(non_camel_case_types)]
pub type EI_IMPULSE_ERROR = i32;

/// Raw signal shape the engine consumes: an opaque accessor block and the
/// total number of samples behind it.
#[allow(non_camel_case_types)]
pub struct ei_signal_t {
    pub get_data: [u64; 4],
    pub total_length: usize,
}

/// Raw per-stage timing block of one inference call, in milliseconds.
#[allow(non_camel_case_types)]
#[derive(Clone, Copy, Debug, PartialEq, Eq, Structural)]
pub struct ei_impulse_result_timing_t {
    pub dsp: u64,
    pub classification: u64,
    pub anomaly: u64,
}

/// Engine classifier initialization for builds with no engine linked:
/// always reports failure.
pub fn ei_ffi_run_classifier_init() -> (r: EI_IMPULSE_ERROR)
    ensures
        r == -1,
{
    -1
}

/// Engine classifier teardown for builds with no engine linked:
/// always reports failure.
pub fn ei_ffi_run_classifier_deinit() -> (r: EI_IMPULSE_ERROR)
    ensures
        r == -1,
{
    -1
}

} // verus!
