//! A verified runtime adapter for an externally supplied inference engine.
//!
//! The engine itself (signal processing, neural-network inference) is an
//! opaque collaborator linked at build time; this crate owns and verifies the
//! logic around it: the closed error taxonomy, the signal wrapper, the
//! fixed-window smoothing filter, the continuous-inference sliding window,
//! and the projection of raw engine results into caller-facing variants.
//!
//! Scores and samples are carried as fixed-point integers (`SCORE_UNIT`
//! units to one full confidence point), so that every transformation of
//! them can be stated and proved exactly.

pub mod bindings_dummy;
pub mod continuous;
pub mod error;
pub mod filter;
pub mod labels;
pub mod model;
pub mod projection;
pub mod signal;
pub mod types;

pub use error::EdgeImpulseError;
pub use error::EimError;
