//! The signal adapter: wraps a raw sample buffer into the representation
//! the engine consumes for one inference call.
//!
//! The engine's own signal-construction call reports a status code; the
//! wrapper here accepts the buffer exactly when that status is the success
//! code and fails with `InvalidInput` otherwise.

use vstd::prelude::*;
use crate::error::{spec_error_kind, EdgeImpulseError, EimError};

verus! {

/// The sample buffer behind one inference call.
#[derive(Debug)]
pub struct Signal {
    data: Vec<i32>,
}

impl View for Signal {
    type V = Seq<i32>;

    closed spec fn view(&self) -> Seq<i32> {
        self.data@
    }
}

impl Signal {
    /// Wrap a sample buffer, given the status the engine's
    /// signal-construction call reported for it. Succeeds with exactly the
    /// given samples when that status is the success code, and fails with
    /// `InvalidInput` otherwise.
    pub fn from_raw_data(data: &[i32], status: i32) -> (r: Result<Signal, EimError>)
        ensures
            spec_error_kind(status as int) is Okay ==> (r matches Ok(s) && s@ == data@),
            !(spec_error_kind(status as int) is Okay) ==> (r matches Err(e) && e matches
                EimError::InvalidInput(m) && m@ == "Signal construction failed"@),
    {
        let kind = EdgeImpulseError::from_status(status);
        if matches!(kind, EdgeImpulseError::Okay) {
            let mut samples: Vec<i32> = Vec::new();
            let mut i: usize = 0;
            while i < data.len()
                invariant
                    i <= data@.len(),
                    samples@ == data@.take(i as int),
                decreases data@.len() - i,
            {
                samples.push(data[i]);
                proof {
                    assert(data@.take(i + 1) =~= data@.take(i as int).push(data@[i as int]));
                }
                i += 1;
            }
            proof {
                assert(data@.take(data@.len() as int) =~= data@);
            }
            Ok(Signal { data: samples })
        } else {
            Err(EimError::InvalidInput("Signal construction failed".to_owned()))
        }
    }

    /// The number of samples behind the signal.
    pub fn total_length(&self) -> (r: usize)
        ensures
            r == self@.len(),
    {
        self.data.len()
    }
}

} // verus!
