//! Parts and their four-state lifecycle.

use vstd::prelude::*;

verus! {

/// Lifecycle state of a part. A part starts in `Start`, advances to
/// `Prepared` and then `Processed` on successful operations, and is diverted
/// to `Broken` when preparation or processing fails.
#[derive(Clone, Copy, Debug, PartialEq, Eq, Structural)]
pub enum DetailState {
    Start,
    Prepared,
    Processed,
    Broken,
}

/// A unit of work: a process-unique identity plus its lifecycle state.
#[derive(Clone, Copy, Debug, PartialEq, Eq, Structural)]
pub struct Detail {
    pub id: usize,
    pub state: DetailState,
}

/// Identifies a failed part and the worker that reported the failure.
#[derive(Clone, Copy, Debug, PartialEq, Eq, Structural)]
pub struct DetailInfo {
    pub mech_id: usize,
    pub detail_id: usize,
}

impl Detail {
    /// A fresh part begins its lifecycle in `Start`.
    pub fn new(id: usize) -> (d: Detail)
        ensures
            d.id == id,
            d.state == DetailState::Start,
    {
        Detail { id, state: DetailState::Start }
    }
}

/// The legal transition graph over part states: a state may stay put, advance
/// Start -> Prepared -> Processed on success, fall to Broken from Start or
/// Prepared on failure, or recover Broken -> Prepared through a repair.
pub open spec fn legal_step(pre: DetailState, post: DetailState) -> bool {
    ||| post == pre
    ||| (pre == DetailState::Start && post == DetailState::Prepared)
    ||| (pre == DetailState::Start && post == DetailState::Broken)
    ||| (pre == DetailState::Prepared && post == DetailState::Processed)
    ||| (pre == DetailState::Prepared && post == DetailState::Broken)
    ||| (pre == DetailState::Broken && post == DetailState::Prepared)
}

/// Whether a prepare attempt on a part in state `s` succeeds, given the
/// probabilistic outcome `success`. Prepare only acts on `Start`; on any
/// other state it is a successful no-op.
pub open spec fn prepare_ok(s: DetailState, success: bool) -> bool {
    s != DetailState::Start || success
}

/// State after a prepare attempt.
pub open spec fn prepare_next(s: DetailState, success: bool) -> DetailState {
    if s == DetailState::Start {
        if success {
            DetailState::Prepared
        } else {
            DetailState::Broken
        }
    } else {
        s
    }
}

/// Whether a work attempt on a part in state `s` succeeds. Work only acts on
/// `Prepared`; on any other state — including `Processed` — it is a
/// successful no-op.
pub open spec fn work_ok(s: DetailState, success: bool) -> bool {
    s != DetailState::Prepared || success
}

/// State after a work attempt.
pub open spec fn work_next(s: DetailState, success: bool) -> DetailState {
    if s == DetailState::Prepared {
        if success {
            DetailState::Processed
        } else {
            DetailState::Broken
        }
    } else {
        s
    }
}

/// Whether a fix attempt succeeds: only a broken part can be fixed, and only
/// when the probabilistic outcome allows it.
pub open spec fn fix_ok(s: DetailState, success: bool) -> bool {
    s == DetailState::Broken && success
}

/// State after a fix attempt: a successful repair returns the part to
/// `Prepared`; otherwise the state is unchanged.
pub open spec fn fix_next(s: DetailState, success: bool) -> DetailState {
    if s == DetailState::Broken && success {
        DetailState::Prepared
    } else {
        s
    }
}

/// Every operation steps within the legal transition graph, whatever the
/// probabilistic outcome.
pub proof fn lemma_operations_step_legally(s: DetailState, success: bool)
    ensures
        legal_step(s, prepare_next(s, success)),
        legal_step(s, work_next(s, success)),
        legal_step(s, fix_next(s, success)),
{
}

/// The legal transition graph never jumps a part straight from `Start` to
/// `Processed`, nor from `Broken` to `Processed`.
pub proof fn lemma_no_transition_shortcut(pre: DetailState, post: DetailState)
    requires
        legal_step(pre, post),
    ensures
        !(pre == DetailState::Start && post == DetailState::Processed),
        !(pre == DetailState::Broken && post == DetailState::Processed),
{
}

/// Work is idempotent on a processed part: the attempt always succeeds and
/// the state is unchanged.
pub proof fn lemma_work_idempotent_on_processed(success: bool)
    ensures
        work_next(DetailState::Processed, success) == DetailState::Processed,
        work_ok(DetailState::Processed, success),
{
}

} // verus!
