//! A verified production-line engine: parts move through a fixed lifecycle
//! (Start, Prepared, Processed, Broken) while workers drive whole workstations
//! of parts through prepare/work/fix/remove operations. The probabilistic
//! outcome of every transition is injected by the caller, so the engine itself
//! is deterministic and fully specified.
#![verifier::loop_isolation(false)]

use vstd::prelude::*;

pub mod detail;
pub mod mech;
pub mod operator;
pub mod pipeline;

use detail::DetailInfo;

verus! {

/// Notification raised by a worker towards the controller loop.
#[derive(Clone, Copy, Debug, PartialEq, Eq, Structural)]
pub enum EventType {
    /// A part transition failed; carries the worker and part involved.
    Accident(DetailInfo),
    /// A part was removed from its workstation; carries the part identity.
    Removed(usize),
    /// A broken part was repaired.
    Fixed,
    /// The controller should solicit an operator decision.
    Ui,
}

/// Startup configuration: how many workers and how many parts to build.
#[derive(Clone, Copy, Debug, PartialEq, Eq, Structural)]
pub struct InitConfig {
    pub mech_count: usize,
    pub details_count: usize,
}

impl InitConfig {
    /// A configuration is usable when both counts are positive, the worker
    /// count does not exceed the part count, and there is room to hand out
    /// fresh identities for every worker, workstation and part.
    pub fn is_valid(&self) -> (r: bool)
        ensures
            r == (1 <= self.mech_count
                && self.mech_count <= self.details_count
                && self.details_count + 2 * self.mech_count <= usize::MAX),
    {
        1 <= self.mech_count && self.mech_count <= self.details_count
            && (self.details_count as u128) + 2 * (self.mech_count as u128)
                <= (usize::MAX as u128)
    }
}

/// Everything that can go wrong while driving the engine.
#[derive(Clone, Copy, Debug, PartialEq, Eq, Structural)]
pub enum PipelineError {
    /// The part failed during preparation; carries the part identity.
    PrepareFailed(usize),
    /// The part broke during processing; carries the part identity.
    WorkFailed(usize),
    /// The part was not fixed; carries the part identity.
    FixFailed(usize),
    /// A fix was requested for a part that is not broken.
    NotBroken(usize),
    /// The part is not present in the workstation.
    DetailNotFound,
    /// No worker with the requested identity exists.
    MechNotFound,
    /// No workstation holds the requested part.
    PlaceNotFound,
    /// The command is not available in the current prompt context.
    InvalidCommand,
    /// The operator asked to end the program; unwinds the controller loop.
    End,
}

impl PipelineError {
    /// The text shown for this error.
    pub open spec fn spec_message(self) -> Seq<char> {
        match self {
            PipelineError::PrepareFailed(_) => "Detail failed during preparation"@,
            PipelineError::WorkFailed(_) => "Detail broke during processing"@,
            PipelineError::FixFailed(_) => "Detail was not fixed"@,
            PipelineError::NotBroken(_) => "Detail is not broken"@,
            PipelineError::DetailNotFound => "Detail does not exist"@,
            PipelineError::MechNotFound => "Mech was not found"@,
            PipelineError::PlaceNotFound => "Exec place was not found"@,
            PipelineError::InvalidCommand => "Command is not available here"@,
            PipelineError::End => "End program"@,
        }
    }

    /// The text shown for this error.
    pub fn message(&self) -> (r: &'static str)
        ensures
            r@ == self.spec_message(),
    {
        match self {
            PipelineError::PrepareFailed(_) => "Detail failed during preparation",
            PipelineError::WorkFailed(_) => "Detail broke during processing",
            PipelineError::FixFailed(_) => "Detail was not fixed",
            PipelineError::NotBroken(_) => "Detail is not broken",
            PipelineError::DetailNotFound => "Detail does not exist",
            PipelineError::MechNotFound => "Mech was not found",
            PipelineError::PlaceNotFound => "Exec place was not found",
            PipelineError::InvalidCommand => "Command is not available here",
            PipelineError::End => "End program",
        }
    }
}

} // verus!
