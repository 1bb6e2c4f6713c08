//! Workstations and the workers that drive them.
//!
//! A worker fans a prepare or work operation out over every part of its
//! workstation, collects the per-part failures as accident events, and sets
//! the station's aggregate flag to whether every attempt succeeded. The
//! probabilistic outcome of each attempt is injected by the caller, one
//! boolean per part.

use vstd::prelude::*;
use vstd::pervasive::VecAdditionalExecFns;

use crate::detail::{Detail, DetailInfo, DetailState};
use crate::detail::{fix_next, fix_ok, prepare_next, prepare_ok, work_next, work_ok};
use crate::{EventType, PipelineError};

verus! {

/// Pairwise-distinct part identities.
pub open spec fn unique_detail_ids(ds: Seq<Detail>) -> bool {
    forall|i: int, j: int| 0 <= i < j < ds.len() ==> ds[i].id != ds[j].id
}

/// The index of the part with identity `detail_id`; meaningful only when the
/// sequence contains it and its identities are unique.
pub open spec fn index_of_id(ds: Seq<Detail>, detail_id: usize) -> int {
    choose|i: int| 0 <= i < ds.len() && ds[i].id == detail_id
}

/// With unique identities, `index_of_id` is the one position that holds the
/// requested identity.
pub proof fn lemma_index_of_id_unique(ds: Seq<Detail>, detail_id: usize, k: int)
    requires
        unique_detail_ids(ds),
        0 <= k < ds.len(),
        ds[k].id == detail_id,
    ensures
        index_of_id(ds, detail_id) == k,
{
    assert(exists|i: int| 0 <= i < ds.len() && ds[i].id == detail_id);
    let i = index_of_id(ds, detail_id);
    if i != k {
        if i < k {
            assert(ds[i].id != ds[k].id);
        } else {
            assert(ds[k].id != ds[i].id);
        }
        assert(false);
    }
}

/// The accident event a worker emits for a failed part.
pub open spec fn accident(mech_id: usize, detail_id: usize) -> EventType {
    EventType::Accident(DetailInfo { mech_id, detail_id })
}

/// Whether every prepare attempt in a fan-out over `ds` with outcomes `outs`
/// succeeds.
pub open spec fn prepare_all_ok(ds: Seq<Detail>, outs: Seq<bool>) -> bool {
    forall|k: int| 0 <= k < ds.len() ==> prepare_ok(ds[k].state, outs[k])
}

/// The parts after a prepare fan-out: identities kept, states advanced
/// pointwise.
pub open spec fn prepare_states(ds: Seq<Detail>, outs: Seq<bool>) -> Seq<Detail> {
    Seq::new(ds.len(), |k: int| Detail { id: ds[k].id, state: prepare_next(ds[k].state, outs[k]) })
}

/// The accident events a prepare fan-out emits: one per failed part, in
/// station order.
pub open spec fn prepare_faults(mech_id: usize, ds: Seq<Detail>, outs: Seq<bool>) -> Seq<EventType>
    decreases ds.len(),
{
    if ds.len() == 0 {
        Seq::empty()
    } else {
        prepare_faults(mech_id, ds.drop_last(), outs.drop_last()) + (if prepare_ok(
            ds.last().state,
            outs.last(),
        ) {
            Seq::<EventType>::empty()
        } else {
            seq![accident(mech_id, ds.last().id)]
        })
    }
}

/// Whether every work attempt in a fan-out succeeds.
pub open spec fn work_all_ok(ds: Seq<Detail>, outs: Seq<bool>) -> bool {
    forall|k: int| 0 <= k < ds.len() ==> work_ok(ds[k].state, outs[k])
}

/// The parts after a work fan-out.
pub open spec fn work_states(ds: Seq<Detail>, outs: Seq<bool>) -> Seq<Detail> {
    Seq::new(ds.len(), |k: int| Detail { id: ds[k].id, state: work_next(ds[k].state, outs[k]) })
}

/// The accident events a work fan-out emits.
pub open spec fn work_faults(mech_id: usize, ds: Seq<Detail>, outs: Seq<bool>) -> Seq<EventType>
    decreases ds.len(),
{
    if ds.len() == 0 {
        Seq::empty()
    } else {
        work_faults(mech_id, ds.drop_last(), outs.drop_last()) + (if work_ok(
            ds.last().state,
            outs.last(),
        ) {
            Seq::<EventType>::empty()
        } else {
            seq![accident(mech_id, ds.last().id)]
        })
    }
}

/// Every part of a fan-out steps within the legal transition graph: what a
/// prepare or work phase does to each part is a legal step from its old
/// state, whatever the injected outcomes.
pub proof fn lemma_fanout_steps_legal(ds: Seq<Detail>, outs: Seq<bool>, k: int)
    requires
        0 <= k < ds.len(),
    ensures
        crate::detail::legal_step(ds[k].state, prepare_states(ds, outs)[k].state),
        crate::detail::legal_step(ds[k].state, work_states(ds, outs)[k].state),
{
}

/// A work fan-out over parts that are all already processed is a no-op and
/// emits no fault event, whatever the injected outcomes.
pub proof fn lemma_work_processed_no_fault(mech_id: usize, ds: Seq<Detail>, outs: Seq<bool>)
    requires
        forall|k: int| 0 <= k < ds.len() ==> ds[k].state == DetailState::Processed,
    ensures
        work_faults(mech_id, ds, outs) == Seq::<EventType>::empty(),
        work_states(ds, outs) == ds,
        work_all_ok(ds, outs),
    decreases ds.len(),
{
    if ds.len() == 0 {
        assert(work_faults(mech_id, ds, outs) =~= Seq::<EventType>::empty());
        assert(work_states(ds, outs) =~= ds);
    } else {
        lemma_work_processed_no_fault(mech_id, ds.drop_last(), outs.drop_last());
        assert(ds.last() == ds[ds.len() - 1]);
        assert(work_faults(mech_id, ds, outs) =~= Seq::<EventType>::empty());
        assert(work_states(ds, outs) =~= ds);
    }
}

/// One prepare attempt on a single part. Acts only on a part in `Start`:
/// success advances it to `Prepared`, failure breaks it and reports an error
/// carrying the part identity; any other state is left alone.
pub fn process_prepare(detail: &mut Detail, success: bool) -> (r: Result<(), PipelineError>)
    ensures
        final(detail).id == old(detail).id,
        final(detail).state == prepare_next(old(detail).state, success),
        r == (if prepare_ok(old(detail).state, success) {
            Ok::<(), PipelineError>(())
        } else {
            Err::<(), PipelineError>(PipelineError::PrepareFailed(old(detail).id))
        }),
{
    if detail.state == DetailState::Start {
        if success {
            detail.state = DetailState::Prepared;
            Ok(())
        } else {
            detail.state = DetailState::Broken;
            Err(PipelineError::PrepareFailed(detail.id))
        }
    } else {
        Ok(())
    }
}

/// One work attempt on a single part. Acts only on a part in `Prepared`:
/// success advances it to `Processed`, failure breaks it and reports an
/// error; any other state — including `Processed` — is a successful no-op.
pub fn process_work(detail: &mut Detail, success: bool) -> (r: Result<(), PipelineError>)
    ensures
        final(detail).id == old(detail).id,
        final(detail).state == work_next(old(detail).state, success),
        r == (if work_ok(old(detail).state, success) {
            Ok::<(), PipelineError>(())
        } else {
            Err::<(), PipelineError>(PipelineError::WorkFailed(old(detail).id))
        }),
{
    if detail.state == DetailState::Prepared {
        if success {
            detail.state = DetailState::Processed;
            Ok(())
        } else {
            detail.state = DetailState::Broken;
            Err(PipelineError::WorkFailed(detail.id))
        }
    } else {
        Ok(())
    }
}

/// One fix attempt on a single part. Only a broken part can be repaired; a
/// successful repair returns it to `Prepared`, a failed one leaves it broken,
/// and a part that is not broken is rejected.
pub fn process_fix(detail: &mut Detail, success: bool) -> (r: Result<(), PipelineError>)
    ensures
        final(detail).id == old(detail).id,
        final(detail).state == fix_next(old(detail).state, success),
        r == (if old(detail).state != DetailState::Broken {
            Err::<(), PipelineError>(PipelineError::NotBroken(old(detail).id))
        } else if success {
            Ok::<(), PipelineError>(())
        } else {
            Err::<(), PipelineError>(PipelineError::FixFailed(old(detail).id))
        }),
{
    if detail.state == DetailState::Broken {
        if success {
            detail.state = DetailState::Prepared;
            Ok(())
        } else {
            Err(PipelineError::FixFailed(detail.id))
        }
    } else {
        Err(PipelineError::NotBroken(detail.id))
    }
}

/// A bounded group of parts assigned to one worker, with the aggregate
/// outcome flags of the last prepare and work fan-outs.
#[derive(Debug)]
pub struct ExecPlace {
    pub id: usize,
    pub is_prepared: bool,
    pub is_processed: bool,
    pub details: Vec<Detail>,
}

impl ExecPlace {
    /// Part identities are unique within the station, and the station can
    /// only count as processed once it counts as prepared.
    pub open spec fn wf(self) -> bool {
        unique_detail_ids(self.details@) && (self.is_processed ==> self.is_prepared)
    }

    /// Whether the station holds a part with identity `detail_id`.
    pub open spec fn spec_contains(self, detail_id: usize) -> bool {
        exists|i: int| 0 <= i < self.details@.len() && self.details@[i].id == detail_id
    }

    /// A fresh station holds the given parts and has both aggregate flags
    /// cleared.
    pub fn new(id: usize, details: Vec<Detail>) -> (p: ExecPlace)
        requires
            unique_detail_ids(details@),
        ensures
            p.id == id,
            p.details@ == details@,
            !p.is_prepared,
            !p.is_processed,
            p.wf(),
    {
        ExecPlace { id, is_prepared: false, is_processed: false, details }
    }

    /// The position of the part with identity `detail_id`, if any.
    pub fn index_of(&self, detail_id: usize) -> (r: Option<usize>)
        ensures
            match r {
                Some(i) => 0 <= i < self.details@.len() && self.details@[i as int].id
                    == detail_id,
                None => !self.spec_contains(detail_id),
            },
    {
        let n = self.details.len();
        let mut k: usize = 0;
        while k < n
            invariant
                k <= n,
                n == self.details@.len(),
                forall|j: int| 0 <= j < k ==> self.details@[j].id != detail_id,
            decreases n - k,
        {
            if self.details[k].id == detail_id {
                return Some(k);
            }
            k += 1;
        }
        None
    }

    /// Whether the station holds a part with identity `detail_id`.
    pub fn contain_detail(&self, detail_id: usize) -> (r: bool)
        ensures
            r == self.spec_contains(detail_id),
    {
        let n = self.details.len();
        let mut k: usize = 0;
        while k < n
            invariant
                k <= n,
                n == self.details@.len(),
                forall|j: int| 0 <= j < k ==> self.details@[j].id != detail_id,
            decreases n - k,
        {
            if self.details[k].id == detail_id {
                proof {
                    assert(0 <= k < self.details@.len() && self.details@[k as int].id
                        == detail_id);
                }
                return true;
            }
            k += 1;
        }
        false
    }
}

/// A worker: the active agent that drives one workstation's parts through
/// their transitions and reports failures as events.
#[derive(Clone, Copy, Debug)]
pub struct ExecMech {
    pub id: usize,
}

impl ExecMech {
    pub fn new(id: usize) -> (m: ExecMech)
        ensures
            m.id == id,
    {
        ExecMech { id }
    }

    /// Remove the part with identity `detail_id` from the station. Succeeds
    /// with a `Removed` event exactly when the part is present; a second
    /// removal of the same identity therefore fails.
    pub fn remove_detail(&self, exec_place: &mut ExecPlace, detail_id: usize) -> (r: Result<
        EventType,
        PipelineError,
    >)
        requires
            old(exec_place).wf(),
        ensures
            final(exec_place).id == old(exec_place).id,
            final(exec_place).is_prepared == old(exec_place).is_prepared,
            final(exec_place).is_processed == old(exec_place).is_processed,
            final(exec_place).wf(),
            old(exec_place).spec_contains(detail_id) ==> r == Ok::<EventType, PipelineError>(
                EventType::Removed(detail_id),
            ) && final(exec_place).details@ == old(exec_place).details@.remove(
                index_of_id(old(exec_place).details@, detail_id),
            ),
            !old(exec_place).spec_contains(detail_id) ==> r == Err::<EventType, PipelineError>(
                PipelineError::DetailNotFound,
            ) && final(exec_place).details@ == old(exec_place).details@,
            !final(exec_place).spec_contains(detail_id),
    {
        let n = exec_place.details.len();
        let mut k: usize = 0;
        while k < n
            invariant
                k <= n,
                n == exec_place.details@.len(),
                *exec_place == *old(exec_place),
                forall|j: int| 0 <= j < k ==> exec_place.details@[j].id != detail_id,
            decreases n - k,
        {
            if exec_place.details[k].id == detail_id {
                proof {
                    let ghost ds = exec_place.details@;
                    assert(0 <= k < ds.len() && ds[k as int].id == detail_id);
                    let i = index_of_id(ds, detail_id);
                    assert(0 <= i < ds.len() && ds[i].id == detail_id);
                    if i != k {
                        assert(ds[i].id != ds[k as int].id);
                    }
                }
                exec_place.details.remove(k);
                proof {
                    let ghost ds = old(exec_place).details@;
                    assert forall|j: int|
                        0 <= j < exec_place.details@.len() implies exec_place.details@[j].id
                        != detail_id by {
                        if j < k {
                            assert(exec_place.details@[j] == ds[j]);
                        } else {
                            assert(exec_place.details@[j] == ds[j + 1]);
                            assert(ds[j + 1].id != ds[k as int].id);
                        }
                    }
                    assert forall|i1: int, j1: int|
                        0 <= i1 < j1 < exec_place.details@.len() implies exec_place.details@[i1].id
                        != exec_place.details@[j1].id by {
                        let a: int = if i1 < k { i1 } else { i1 + 1 };
                        let b: int = if j1 < k { j1 } else { j1 + 1 };
                        assert(exec_place.details@[i1] == ds[a]);
                        assert(exec_place.details@[j1] == ds[b]);
                    }
                }
                return Ok(EventType::Removed(detail_id));
            }
            k += 1;
        }
        Err(PipelineError::DetailNotFound)
    }

    /// Fix one part. On a successful repair of a broken part a `Fixed` event
    /// is returned; in every other case the same part is re-reported as an
    /// accident so the controller can retry or remove it.
    pub fn fix(&self, detail: &mut Detail, success: bool) -> (event: EventType)
        ensures
            final(detail).id == old(detail).id,
            final(detail).state == fix_next(old(detail).state, success),
            event == (if fix_ok(old(detail).state, success) {
                EventType::Fixed
            } else {
                accident(self.id, old(detail).id)
            }),
    {
        let id = detail.id;
        match process_fix(detail, success) {
            Ok(_) => EventType::Fixed,
            Err(_) => EventType::Accident(DetailInfo { mech_id: self.id, detail_id: id }),
        }
    }

    /// Prepare every part of the station with the given per-part outcomes.
    /// Each failed part yields one accident event, in station order, and the
    /// station counts as prepared exactly when every attempt succeeded.
    pub fn prepare(&self, exec_place: &mut ExecPlace, outcomes: &Vec<bool>) -> (events: Vec<
        EventType,
    >)
        requires
            old(exec_place).wf(),
            !old(exec_place).is_prepared,
            outcomes@.len() == old(exec_place).details@.len(),
        ensures
            final(exec_place).id == old(exec_place).id,
            final(exec_place).is_processed == old(exec_place).is_processed,
            final(exec_place).details@ == prepare_states(old(exec_place).details@, outcomes@),
            final(exec_place).is_prepared == prepare_all_ok(old(exec_place).details@, outcomes@),
            events@ == prepare_faults(self.id, old(exec_place).details@, outcomes@),
            final(exec_place).wf(),
    {
        let ghost ds0 = exec_place.details@;
        let mut events: Vec<EventType> = Vec::new();
        let mut all_ok: bool = true;
        let n = exec_place.details.len();
        let mut k: usize = 0;
        while k < n
            invariant
                k <= n,
                n == ds0.len(),
                exec_place.id == old(exec_place).id,
                exec_place.is_prepared == old(exec_place).is_prepared,
                exec_place.is_processed == old(exec_place).is_processed,
                exec_place.details@.len() == ds0.len(),
                forall|j: int| k <= j < n ==> exec_place.details@[j] == ds0[j],
                forall|j: int| 0 <= j < k ==> exec_place.details@[j] == prepare_states(
                    ds0,
                    outcomes@,
                )[j],
                all_ok == prepare_all_ok(ds0.take(k as int), outcomes@.take(k as int)),
                events@ == prepare_faults(self.id, ds0.take(k as int), outcomes@.take(k as int)),
            decreases n - k,
        {
            let mut d = exec_place.details[k];
            let success = outcomes[k];
            let r = process_prepare(&mut d, success);
            exec_place.details.set(k, d);
            if r.is_err() {
                all_ok = false;
                events.push(EventType::Accident(DetailInfo { mech_id: self.id, detail_id: d.id }));
            }
            proof {
                assert(ds0.take(k as int + 1).drop_last() =~= ds0.take(k as int));
                assert(outcomes@.take(k as int + 1).drop_last() =~= outcomes@.take(k as int));
                assert(ds0.take(k as int + 1).last() == ds0[k as int]);
                assert(outcomes@.take(k as int + 1).last() == outcomes@[k as int]);
                assert(events@ == prepare_faults(
                    self.id,
                    ds0.take(k as int + 1),
                    outcomes@.take(k as int + 1),
                ));
            }
            k += 1;
        }
        proof {
            assert(ds0.take(n as int) =~= ds0);
            assert(outcomes@.take(n as int) =~= outcomes@);
            assert(exec_place.details@ =~= prepare_states(ds0, outcomes@));
        }
        exec_place.is_prepared = all_ok;
        events
    }

    /// Work every part of the station with the given per-part outcomes. The
    /// station must already count as prepared; it counts as processed exactly
    /// when every attempt succeeded.
    pub fn work(&self, exec_place: &mut ExecPlace, outcomes: &Vec<bool>) -> (events: Vec<EventType>)
        requires
            old(exec_place).wf(),
            old(exec_place).is_prepared,
            outcomes@.len() == old(exec_place).details@.len(),
        ensures
            final(exec_place).id == old(exec_place).id,
            final(exec_place).is_prepared == old(exec_place).is_prepared,
            final(exec_place).details@ == work_states(old(exec_place).details@, outcomes@),
            final(exec_place).is_processed == work_all_ok(old(exec_place).details@, outcomes@),
            events@ == work_faults(self.id, old(exec_place).details@, outcomes@),
            final(exec_place).wf(),
    {
        let ghost ds0 = exec_place.details@;
        let mut events: Vec<EventType> = Vec::new();
        let mut all_ok: bool = true;
        let n = exec_place.details.len();
        let mut k: usize = 0;
        while k < n
            invariant
                k <= n,
                n == ds0.len(),
                exec_place.id == old(exec_place).id,
                exec_place.is_prepared == old(exec_place).is_prepared,
                exec_place.is_processed == old(exec_place).is_processed,
                exec_place.details@.len() == ds0.len(),
                forall|j: int| k <= j < n ==> exec_place.details@[j] == ds0[j],
                forall|j: int| 0 <= j < k ==> exec_place.details@[j] == work_states(
                    ds0,
                    outcomes@,
                )[j],
                all_ok == work_all_ok(ds0.take(k as int), outcomes@.take(k as int)),
                events@ == work_faults(self.id, ds0.take(k as int), outcomes@.take(k as int)),
            decreases n - k,
        {
            let mut d = exec_place.details[k];
            let success = outcomes[k];
            let r = process_work(&mut d, success);
            exec_place.details.set(k, d);
            if r.is_err() {
                all_ok = false;
                events.push(EventType::Accident(DetailInfo { mech_id: self.id, detail_id: d.id }));
            }
            proof {
                assert(ds0.take(k as int + 1).drop_last() =~= ds0.take(k as int));
                assert(outcomes@.take(k as int + 1).drop_last() =~= outcomes@.take(k as int));
                assert(ds0.take(k as int + 1).last() == ds0[k as int]);
                assert(outcomes@.take(k as int + 1).last() == outcomes@[k as int]);
                assert(events@ == work_faults(
                    self.id,
                    ds0.take(k as int + 1),
                    outcomes@.take(k as int + 1),
                ));
            }
            k += 1;
        }
        proof {
            assert(ds0.take(n as int) =~= ds0);
            assert(outcomes@.take(n as int) =~= outcomes@);
            assert(exec_place.details@ =~= work_states(ds0, outcomes@));
        }
        exec_place.is_processed = all_ok;
        events
    }
}

} // verus!
