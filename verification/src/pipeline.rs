//! The pipeline engine: owns the workers and workstations, hands out fresh
//! part identities, and runs one scheduling phase per tick according to its
//! mode.

use vstd::prelude::*;
use vstd::arithmetic::div_mod::lemma_fundamental_div_mod;
use vstd::arithmetic::div_mod::lemma_mod_bound;
use vstd::arithmetic::mul::lemma_mul_inequality;

use crate::detail::{fix_next, fix_ok, Detail, DetailState};
use crate::mech::{
    accident, index_of_id, lemma_index_of_id_unique, prepare_all_ok, prepare_faults,
    prepare_states, unique_detail_ids, work_all_ok, work_faults, work_states, ExecMech, ExecPlace,
};
use crate::{EventType, PipelineError};

verus! {

/// Mathematical model of a workstation: its fields with the part vector
/// abstracted to a sequence.
#[verifier::ext_equal]
pub struct PlaceModel {
    pub id: usize,
    pub is_prepared: bool,
    pub is_processed: bool,
    pub details: Seq<Detail>,
}

/// The model of one workstation.
pub open spec fn place_model(p: ExecPlace) -> PlaceModel {
    PlaceModel { id: p.id, is_prepared: p.is_prepared, is_processed: p.is_processed, details: p.details@ }
}

/// The models of a whole workstation pool.
pub open spec fn places_model(ps: Seq<ExecPlace>) -> Seq<PlaceModel> {
    ps.map_values(|p: ExecPlace| place_model(p))
}

/// A prepare fan-out is skipped on a station that already counts as
/// prepared; otherwise it advances every part and recomputes the aggregate
/// flag.
pub open spec fn prepare_place_model(p: PlaceModel, outs: Seq<bool>) -> PlaceModel {
    if p.is_prepared {
        p
    } else {
        PlaceModel {
            id: p.id,
            is_prepared: prepare_all_ok(p.details, outs),
            is_processed: p.is_processed,
            details: prepare_states(p.details, outs),
        }
    }
}

/// The workstation pool after a prepare phase.
pub open spec fn prepare_places_model(ps: Seq<PlaceModel>, oss: Seq<Vec<bool>>) -> Seq<PlaceModel> {
    Seq::new(ps.len(), |i: int| prepare_place_model(ps[i], oss[i]@))
}

/// The events a prepare phase emits: the fault events of every station that
/// takes part, in station order.
pub open spec fn pipeline_prepare_events(
    ms: Seq<ExecMech>,
    ps: Seq<PlaceModel>,
    oss: Seq<Vec<bool>>,
) -> Seq<EventType>
    decreases ps.len(),
{
    if ps.len() == 0 {
        Seq::empty()
    } else {
        pipeline_prepare_events(ms.drop_last(), ps.drop_last(), oss.drop_last()) + (if ps.last().is_prepared {
            Seq::<EventType>::empty()
        } else {
            prepare_faults(ms.last().id, ps.last().details, oss.last()@)
        })
    }
}

/// A work fan-out runs only on a station that counts as prepared and not yet
/// as processed.
pub open spec fn work_eligible(p: PlaceModel) -> bool {
    p.is_prepared && !p.is_processed
}

/// A work fan-out on one station, skipped when the station is not eligible.
pub open spec fn work_place_model(p: PlaceModel, outs: Seq<bool>) -> PlaceModel {
    if work_eligible(p) {
        PlaceModel {
            id: p.id,
            is_prepared: p.is_prepared,
            is_processed: work_all_ok(p.details, outs),
            details: work_states(p.details, outs),
        }
    } else {
        p
    }
}

/// The workstation pool after a work phase.
pub open spec fn work_places_model(ps: Seq<PlaceModel>, oss: Seq<Vec<bool>>) -> Seq<PlaceModel> {
    Seq::new(ps.len(), |i: int| work_place_model(ps[i], oss[i]@))
}

/// The events a work phase emits.
pub open spec fn pipeline_work_events(
    ms: Seq<ExecMech>,
    ps: Seq<PlaceModel>,
    oss: Seq<Vec<bool>>,
) -> Seq<EventType>
    decreases ps.len(),
{
    if ps.len() == 0 {
        Seq::empty()
    } else {
        pipeline_work_events(ms.drop_last(), ps.drop_last(), oss.drop_last()) + (if work_eligible(
            ps.last(),
        ) {
            work_faults(ms.last().id, ps.last().details, oss.last()@)
        } else {
            Seq::<EventType>::empty()
        })
    }
}

/// An outcome grid fits a workstation pool when it has one outcome vector
/// per station, each as long as the station's part vector.
pub open spec fn outcomes_fit(oss: Seq<Vec<bool>>, ps: Seq<ExecPlace>) -> bool {
    oss.len() == ps.len() && (forall|i: int|
        0 <= i < oss.len() ==> oss[i]@.len() == ps[i].details@.len())
}

/// Scheduling mode of the engine. `Automatic` cycles prepare, work and a
/// pipeline shift on every tick; `PrepareOnce` and `WorkOnce` run a single
/// fan-out and fall back to `Idle`; an `Idle` tick performs no work.
#[derive(Clone, Copy, Debug, PartialEq, Eq, Structural)]
pub enum PipelineState {
    Idle,
    Automatic,
    PrepareOnce,
    WorkOnce,
}

/// The pipeline engine. Workers and workstations are index-aligned: worker
/// `i` drives workstation `i`. `next_id` is the engine-scoped source of fresh
/// identities: every identity ever handed out is below it.
pub struct Pipeline {
    pub exec_mechs: Vec<ExecMech>,
    pub exec_places: Vec<ExecPlace>,
    pub mechs_count: usize,
    pub details_count: usize,
    pub state: PipelineState,
    pub next_id: usize,
}

impl Pipeline {
    /// Worker identities are pairwise distinct.
    pub open spec fn mechs_unique(self) -> bool {
        forall|i: int, j: int|
            0 <= i < j < self.exec_mechs@.len() ==> self.exec_mechs@[i].id
                != self.exec_mechs@[j].id
    }

    /// No part identity appears in two different workstations.
    pub open spec fn places_disjoint(self) -> bool {
        forall|i: int, j: int, k: int, l: int|
            0 <= i < self.exec_places@.len() && 0 <= j < self.exec_places@.len() && i != j && 0 <= k
                < self.exec_places@[i].details@.len() && 0 <= l
                < self.exec_places@[j].details@.len()
                ==> self.exec_places@[i].details@[k].id != self.exec_places@[j].details@[l].id
    }

    /// Every live part identity is below `bound`.
    pub open spec fn ids_below(self, bound: int) -> bool {
        forall|i: int, k: int|
            0 <= i < self.exec_places@.len() && 0 <= k < self.exec_places@[i].details@.len()
                ==> self.exec_places@[i].details@[k].id < bound
    }

    /// Engine invariant: as many workstations as workers, positive worker
    /// count not exceeding the configured part count, unique worker and part
    /// identities, well-formed stations, and every live identity below the
    /// identity counter.
    pub open spec fn wf(self) -> bool {
        &&& self.mechs_count >= 1
        &&& self.details_count >= self.mechs_count
        &&& self.exec_mechs@.len() == self.mechs_count
        &&& self.exec_places@.len() == self.mechs_count
        &&& self.mechs_unique()
        &&& (forall|i: int| 0 <= i < self.exec_places@.len() ==> self.exec_places@[i].wf())
        &&& self.places_disjoint()
        &&& self.ids_below(self.next_id as int)
    }

    /// Whether some workstation holds a part with identity `detail_id`.
    pub open spec fn spec_contains_id(self, detail_id: usize) -> bool {
        exists|i: int|
            0 <= i < self.exec_places@.len() && self.exec_places@[i].spec_contains(detail_id)
    }

    /// Whether a worker with identity `mech_id` exists.
    pub open spec fn spec_has_mech(self, mech_id: usize) -> bool {
        exists|i: int| 0 <= i < self.exec_mechs@.len() && self.exec_mechs@[i].id == mech_id
    }

    /// The index of the workstation holding the part with identity
    /// `detail_id`; meaningful only when the engine contains it, and then
    /// unique because no identity is in two stations.
    pub open spec fn place_index_of(self, detail_id: usize) -> int {
        choose|i: int|
            0 <= i < self.exec_places@.len() && self.exec_places@[i].spec_contains(detail_id)
    }
}

/// In a well-formed engine, the station holding an identity is unique.
proof fn lemma_place_index_unique(p: Pipeline, detail_id: usize, i: int)
    requires
        p.wf(),
        0 <= i < p.exec_places@.len(),
        p.exec_places@[i].spec_contains(detail_id),
    ensures
        p.spec_contains_id(detail_id),
        p.place_index_of(detail_id) == i,
{
    assert(p.spec_contains_id(detail_id));
    let pc = p.place_index_of(detail_id);
    assert(0 <= pc < p.exec_places@.len() && p.exec_places@[pc].spec_contains(detail_id));
    if pc != i {
        let k = choose|k: int|
            0 <= k < p.exec_places@[i].details@.len() && p.exec_places@[i].details@[k].id
                == detail_id;
        let l = choose|l: int|
            0 <= l < p.exec_places@[pc].details@.len() && p.exec_places@[pc].details@[l].id
                == detail_id;
        assert(p.exec_places@[i].details@[k].id != p.exec_places@[pc].details@[l].id);
        assert(false);
    }
}

/// Shrinking or rewriting one station while keeping its identities a subset
/// of what it held keeps the whole engine well-formed.
proof fn lemma_wf_after_place_shrink(pre: Pipeline, post: Pipeline, pi: int)
    requires
        pre.wf(),
        post.mechs_count == pre.mechs_count,
        post.details_count == pre.details_count,
        post.next_id == pre.next_id,
        post.exec_mechs@ == pre.exec_mechs@,
        post.exec_places@.len() == pre.exec_places@.len(),
        0 <= pi < post.exec_places@.len(),
        forall|j: int|
            #![trigger post.exec_places@[j]]
            0 <= j < post.exec_places@.len() && j != pi ==> post.exec_places@[j]
                == pre.exec_places@[j],
        post.exec_places@[pi].wf(),
        forall|k: int|
            #![trigger post.exec_places@[pi].details@[k]]
            0 <= k < post.exec_places@[pi].details@.len() ==> exists|k0: int|
                0 <= k0 < pre.exec_places@[pi].details@.len()
                    && pre.exec_places@[pi].details@[k0].id
                    == post.exec_places@[pi].details@[k].id,
    ensures
        post.wf(),
{
    assert forall|i: int, j: int, k: int, l: int|
        0 <= i < post.exec_places@.len() && 0 <= j < post.exec_places@.len() && i != j && 0 <= k
            < post.exec_places@[i].details@.len() && 0 <= l
            < post.exec_places@[j].details@.len() implies post.exec_places@[i].details@[k].id
        != post.exec_places@[j].details@[l].id by {
        if i == pi {
            let k0 = choose|k0: int|
                0 <= k0 < pre.exec_places@[pi].details@.len()
                    && pre.exec_places@[pi].details@[k0].id == post.exec_places@[i].details@[k].id;
            assert(pre.exec_places@[i].details@[k0].id != pre.exec_places@[j].details@[l].id);
        } else if j == pi {
            let l0 = choose|l0: int|
                0 <= l0 < pre.exec_places@[pi].details@.len()
                    && pre.exec_places@[pi].details@[l0].id == post.exec_places@[j].details@[l].id;
            assert(pre.exec_places@[i].details@[k].id != pre.exec_places@[j].details@[l0].id);
        } else {
            assert(pre.exec_places@[i].details@[k].id != pre.exec_places@[j].details@[l].id);
        }
    }
    assert forall|i: int, k: int|
        0 <= i < post.exec_places@.len() && 0 <= k
            < post.exec_places@[i].details@.len() implies post.exec_places@[i].details@[k].id
        < post.next_id by {
        if i == pi {
            let k0 = choose|k0: int|
                0 <= k0 < pre.exec_places@[pi].details@.len()
                    && pre.exec_places@[pi].details@[k0].id == post.exec_places@[i].details@[k].id;
            assert(pre.exec_places@[i].details@[k0].id < pre.next_id);
        } else {
            assert(pre.exec_places@[i].details@[k].id < pre.next_id);
        }
    }
}

impl Pipeline {
    /// The worker with identity `mech_id`, if any.
    fn find_mech(&self, mech_id: usize) -> (r: Option<ExecMech>)
        ensures
            match r {
                Some(m) => self.spec_has_mech(mech_id) && m.id == mech_id,
                None => !self.spec_has_mech(mech_id),
            },
    {
        let n = self.exec_mechs.len();
        let mut i: usize = 0;
        while i < n
            invariant
                i <= n,
                n == self.exec_mechs@.len(),
                forall|j: int| 0 <= j < i ==> self.exec_mechs@[j].id != mech_id,
            decreases n - i,
        {
            if self.exec_mechs[i].id == mech_id {
                proof {
                    assert(0 <= i < self.exec_mechs@.len() && self.exec_mechs@[i as int].id
                        == mech_id);
                }
                return Some(self.exec_mechs[i]);
            }
            i += 1;
        }
        None
    }

    /// The index of the workstation holding the part `detail_id`, if any.
    fn find_place_index(&self, detail_id: usize) -> (r: Option<usize>)
        ensures
            match r {
                Some(i) => 0 <= i < self.exec_places@.len() && self.exec_places@[
                    i as int
                ].spec_contains(detail_id),
                None => !self.spec_contains_id(detail_id),
            },
    {
        let n = self.exec_places.len();
        let mut i: usize = 0;
        while i < n
            invariant
                i <= n,
                n == self.exec_places@.len(),
                forall|j: int| 0 <= j < i ==> !self.exec_places@[j].spec_contains(detail_id),
            decreases n - i,
        {
            if self.exec_places[i].contain_detail(detail_id) {
                return Some(i);
            }
            i += 1;
        }
        None
    }
}

proof fn lemma_mul_distributes_one(a: int, b: int)
    ensures
        (a + 1) * b == a * b + b,
{
    assert((a + 1) * b == a * b + b) by (nonlinear_arith);
}

proof fn lemma_div_mul_le(n: int, m: int)
    requires
        m >= 1,
        n >= 0,
    ensures
        m * (n / m) <= n,
{
    lemma_fundamental_div_mod(n, m);
    lemma_mod_bound(n, m);
}

impl Pipeline {
    /// Replace the workstation pool: partition fresh parts into
    /// `mechs_count` stations of `detail_count / mechs_count` parts each,
    /// every part in `Start` with an identity the engine never used before.
    /// Identities beyond the last full station are never created, so the new
    /// part total is `mechs_count * (detail_count / mechs_count)`.
    fn build_places(&mut self, detail_count: usize)
        requires
            old(self).mechs_count >= 1,
            detail_count >= old(self).mechs_count,
            old(self).next_id + detail_count + old(self).mechs_count <= usize::MAX,
        ensures
            final(self).exec_mechs@ == old(self).exec_mechs@,
            final(self).mechs_count == old(self).mechs_count,
            final(self).details_count == old(self).details_count,
            final(self).state == old(self).state,
            final(self).next_id >= old(self).next_id,
            final(self).exec_places@.len() == old(self).mechs_count,
            forall|i: int|
                #![trigger final(self).exec_places@[i]]
                0 <= i < final(self).exec_places@.len() ==> {
                    &&& final(self).exec_places@[i].wf()
                    &&& !final(self).exec_places@[i].is_prepared
                    &&& !final(self).exec_places@[i].is_processed
                    &&& final(self).exec_places@[i].details@.len() == detail_count as int / old(self).mechs_count as int
                    &&& forall|k: int|
                        #![trigger final(self).exec_places@[i].details@[k]]
                        0 <= k < final(self).exec_places@[i].details@.len() ==> {
                            &&& final(self).exec_places@[i].details@[k].state
                                == DetailState::Start
                            &&& old(self).next_id <= final(self).exec_places@[i].details@[k].id
                            &&& final(self).exec_places@[i].details@[k].id < final(self).next_id
                        }
                },
            final(self).places_disjoint(),
    {
        let m = self.mechs_count;
        let c = detail_count / m;
        let ghost base0 = self.next_id as int;
        proof {
            lemma_div_mul_le(detail_count as int, m as int);
        }
        let mut places: Vec<ExecPlace> = Vec::new();
        let mut i: usize = 0;
        while i < m
            invariant
                i <= m,
                m == self.mechs_count,
                c as int == detail_count as int / m as int,
                m as int * (c as int) <= detail_count as int,
                places@.len() == i,
                self.next_id as int == base0 + i as int * (c as int + 1),
                base0 <= self.next_id as int,
                self.next_id as int <= base0 + detail_count as int + m as int,
                self.exec_mechs@ == old(self).exec_mechs@,
                self.exec_places@ == old(self).exec_places@,
                self.mechs_count == old(self).mechs_count,
                self.details_count == old(self).details_count,
                self.state == old(self).state,
                forall|j: int|
                    #![trigger places@[j]]
                    0 <= j < i ==> {
                        &&& places@[j].wf()
                        &&& !places@[j].is_prepared
                        &&& !places@[j].is_processed
                        &&& places@[j].details@.len() == c as int
                        &&& forall|k: int|
                            #![trigger places@[j].details@[k]]
                            0 <= k < places@[j].details@.len() ==> {
                                &&& places@[j].details@[k].state == DetailState::Start
                                &&& places@[j].details@[k].id as int == base0 + j * (c as int + 1)
                                    + 1 + k
                                &&& base0 <= places@[j].details@[k].id
                                &&& (places@[j].details@[k].id as int) < self.next_id as int
                            }
                    },
            decreases m - i,
        {
            proof {
                lemma_mul_distributes_one(i as int, c as int + 1);
                lemma_mul_inequality(i as int + 1, m as int, c as int + 1);
                assert(m as int * (c as int + 1) == m as int * (c as int) + m as int)
                    by (nonlinear_arith);
            }
            let place_id = self.next_id;
            self.next_id = self.next_id + 1;
            let ghost base_i = self.next_id as int;
            let mut details: Vec<Detail> = Vec::new();
            let mut k: usize = 0;
            while k < c
                invariant
                    k <= c,
                    details@.len() == k,
                    self.next_id as int == base_i + k as int,
                    base_i + c as int <= base0 + detail_count + m,
                    self.exec_mechs@ == old(self).exec_mechs@,
                    self.exec_places@ == old(self).exec_places@,
                    self.mechs_count == old(self).mechs_count,
                    self.details_count == old(self).details_count,
                    self.state == old(self).state,
                    forall|k2: int|
                        #![trigger details@[k2]]
                        0 <= k2 < k ==> details@[k2].id as int == base_i + k2
                            && details@[k2].state == DetailState::Start,
                decreases c - k,
            {
                details.push(Detail::new(self.next_id));
                self.next_id = self.next_id + 1;
                k += 1;
            }
            proof {
                assert(unique_detail_ids(details@));
            }
            let place = ExecPlace::new(place_id, details);
            places.push(place);
            i += 1;
        }
        self.exec_places = places;
        proof {
            assert forall|i1: int, j1: int, k1: int, l1: int|
                0 <= i1 < self.exec_places@.len() && 0 <= j1 < self.exec_places@.len() && i1 != j1
                    && 0 <= k1 < self.exec_places@[i1].details@.len() && 0 <= l1
                    < self.exec_places@[j1].details@.len() implies self.exec_places@[i1].details@[k1].id
                != self.exec_places@[j1].details@[l1].id by {
                lemma_build_ids_distinct(base0, c as int, i1, k1, j1, l1);
            }
        }
    }
}

impl Pipeline {
    /// Build an engine with `mech_count` workers, each paired with one
    /// freshly filled workstation, in `Automatic` mode. Identities are handed
    /// out by the engine itself, starting from zero.
    pub fn new(mech_count: usize, details_count: usize) -> (p: Pipeline)
        requires
            1 <= mech_count,
            mech_count <= details_count,
            details_count + 2 * mech_count <= usize::MAX,
        ensures
            p.wf(),
            p.mechs_count == mech_count,
            p.details_count == details_count,
            p.state == PipelineState::Automatic,
            p.exec_mechs@.len() == mech_count,
            p.exec_places@.len() == mech_count,
            forall|i: int|
                #![trigger p.exec_places@[i]]
                0 <= i < p.exec_places@.len() ==> {
                    &&& !p.exec_places@[i].is_prepared
                    &&& !p.exec_places@[i].is_processed
                    &&& p.exec_places@[i].details@.len() == details_count as int
                        / mech_count as int
                    &&& forall|k: int|
                        #![trigger p.exec_places@[i].details@[k]]
                        0 <= k < p.exec_places@[i].details@.len()
                            ==> p.exec_places@[i].details@[k].state == DetailState::Start
                },
    {
        let mut p = Pipeline {
            exec_mechs: Vec::new(),
            exec_places: Vec::new(),
            mechs_count: mech_count,
            details_count,
            state: PipelineState::Automatic,
            next_id: 0,
        };
        let mut i: usize = 0;
        while i < mech_count
            invariant
                i <= mech_count,
                p.exec_mechs@.len() == i,
                p.next_id == i,
                p.mechs_count == mech_count,
                p.details_count == details_count,
                p.state == PipelineState::Automatic,
                p.exec_places@.len() == 0,
                forall|j: int|
                    #![trigger p.exec_mechs@[j]]
                    0 <= j < i ==> p.exec_mechs@[j].id == j,
            decreases mech_count - i,
        {
            p.exec_mechs.push(ExecMech::new(p.next_id));
            p.next_id = p.next_id + 1;
            i += 1;
        }
        p.build_places(details_count);
        p
    }

    /// Replace every workstation with fresh stations built by partitioning
    /// `detail_count` new parts into groups of `detail_count / mechs_count`;
    /// identities past the last full group are truncated. No identity that
    /// was live before the shift is live after it.
    pub fn shift_pipeline(&mut self, detail_count: usize)
        requires
            old(self).wf(),
            detail_count >= old(self).mechs_count,
            old(self).next_id + detail_count + old(self).mechs_count <= usize::MAX,
        ensures
            final(self).wf(),
            final(self).exec_mechs@ == old(self).exec_mechs@,
            final(self).mechs_count == old(self).mechs_count,
            final(self).details_count == old(self).details_count,
            final(self).state == old(self).state,
            final(self).exec_places@.len() == old(self).mechs_count,
            forall|i: int|
                #![trigger final(self).exec_places@[i]]
                0 <= i < final(self).exec_places@.len() ==> {
                    &&& !final(self).exec_places@[i].is_prepared
                    &&& !final(self).exec_places@[i].is_processed
                    &&& final(self).exec_places@[i].details@.len() == detail_count as int / old(self).mechs_count as int
                    &&& forall|k: int|
                        #![trigger final(self).exec_places@[i].details@[k]]
                        0 <= k < final(self).exec_places@[i].details@.len() ==> {
                            &&& final(self).exec_places@[i].details@[k].state
                                == DetailState::Start
                            &&& final(self).exec_places@[i].details@[k].id >= old(self).next_id
                        }
                },
            forall|id: usize|
                old(self).spec_contains_id(id) ==> !final(self).spec_contains_id(id),
    {
        self.build_places(detail_count);
        proof {
            assert forall|id: usize| old(self).spec_contains_id(id) implies !self.spec_contains_id(
                id,
            ) by {
                if self.spec_contains_id(id) {
                    let i = choose|i: int|
                        0 <= i < self.exec_places@.len() && self.exec_places@[i].spec_contains(id);
                    let k = choose|k: int|
                        0 <= k < self.exec_places@[i].details@.len()
                            && self.exec_places@[i].details@[k].id == id;
                    assert(id >= old(self).next_id);
                    let i0 = choose|i0: int|
                        0 <= i0 < old(self).exec_places@.len()
                            && old(self).exec_places@[i0].spec_contains(id);
                    let k0 = choose|k0: int|
                        0 <= k0 < old(self).exec_places@[i0].details@.len()
                            && old(self).exec_places@[i0].details@[k0].id == id;
                    assert(old(self).exec_places@[i0].details@[k0].id < old(self).next_id);
                }
            }
        }
    }

    /// Set the scheduling mode; nothing else changes.
    pub fn set_state(&mut self, state: PipelineState)
        ensures
            final(self).state == state,
            final(self).exec_mechs@ == old(self).exec_mechs@,
            final(self).exec_places@ == old(self).exec_places@,
            final(self).mechs_count == old(self).mechs_count,
            final(self).details_count == old(self).details_count,
            final(self).next_id == old(self).next_id,
            old(self).wf() ==> final(self).wf(),
    {
        self.state = state;
    }

    /// The current scheduling mode.
    pub fn get_state(&self) -> (s: PipelineState)
        ensures
            s == self.state,
    {
        self.state
    }

    /// Whether the engine cycles on its own, without operator decisions.
    pub fn is_automatic(&self) -> (r: bool)
        ensures
            r == (self.state == PipelineState::Automatic),
    {
        self.state == PipelineState::Automatic
    }
}

/// A fan-out that keeps every station well-formed, every part count, and
/// every part identity keeps the whole engine well-formed.
proof fn lemma_wf_after_fanout(pre: Pipeline, post: Pipeline)
    requires
        pre.wf(),
        post.mechs_count == pre.mechs_count,
        post.details_count == pre.details_count,
        post.next_id == pre.next_id,
        post.exec_mechs@ == pre.exec_mechs@,
        post.exec_places@.len() == pre.exec_places@.len(),
        forall|i: int|
            #![trigger post.exec_places@[i]]
            0 <= i < post.exec_places@.len() ==> post.exec_places@[i].wf()
                && post.exec_places@[i].details@.len() == pre.exec_places@[i].details@.len(),
        forall|i: int, k: int|
            #![trigger post.exec_places@[i].details@[k]]
            0 <= i < post.exec_places@.len() && 0 <= k < post.exec_places@[i].details@.len()
                ==> post.exec_places@[i].details@[k].id == pre.exec_places@[i].details@[k].id,
    ensures
        post.wf(),
{
    assert forall|i: int, j: int, k: int, l: int|
        0 <= i < post.exec_places@.len() && 0 <= j < post.exec_places@.len() && i != j && 0 <= k
            < post.exec_places@[i].details@.len() && 0 <= l
            < post.exec_places@[j].details@.len() implies post.exec_places@[i].details@[k].id
        != post.exec_places@[j].details@[l].id by {
        assert(pre.exec_places@[i].details@[k].id != pre.exec_places@[j].details@[l].id);
    }
    assert forall|i: int, k: int|
        0 <= i < post.exec_places@.len() && 0 <= k
            < post.exec_places@[i].details@.len() implies post.exec_places@[i].details@[k].id
        < post.next_id by {
        assert(pre.exec_places@[i].details@[k].id < pre.next_id);
    }
}

impl Pipeline {
    /// Run a prepare fan-out over every workstation not already prepared,
    /// pairing worker `i` with workstation `i`. Returns the fault events of
    /// every station that took part, in station order.
    pub fn prepare(&mut self, outcomes: &Vec<Vec<bool>>) -> (events: Vec<EventType>)
        requires
            old(self).wf(),
            outcomes_fit(outcomes@, old(self).exec_places@),
        ensures
            final(self).wf(),
            final(self).exec_mechs@ == old(self).exec_mechs@,
            final(self).mechs_count == old(self).mechs_count,
            final(self).details_count == old(self).details_count,
            final(self).state == old(self).state,
            final(self).next_id == old(self).next_id,
            final(self).exec_places@.len() == old(self).exec_places@.len(),
            places_model(final(self).exec_places@) == prepare_places_model(
                places_model(old(self).exec_places@),
                outcomes@,
            ),
            events@ == pipeline_prepare_events(
                old(self).exec_mechs@,
                places_model(old(self).exec_places@),
                outcomes@,
            ),
    {
        let ghost ms0 = self.exec_mechs@;
        let ghost ps0 = self.exec_places@;
        let ghost pm0 = places_model(ps0);
        let mut events: Vec<EventType> = Vec::new();
        let n = self.exec_places.len();
        let mut i: usize = 0;
        while i < n
            invariant
                i <= n,
                n == ps0.len(),
                self.exec_mechs@ == ms0,
                self.exec_places@.len() == n,
                self.mechs_count == old(self).mechs_count,
                self.details_count == old(self).details_count,
                self.state == old(self).state,
                self.next_id == old(self).next_id,
                forall|j: int|
                    #![trigger self.exec_places@[j]]
                    i <= j < n ==> self.exec_places@[j] == ps0[j],
                forall|j: int|
                    #![trigger self.exec_places@[j]]
                    0 <= j < i ==> self.exec_places@[j].wf() && place_model(self.exec_places@[j])
                        == prepare_place_model(pm0[j], outcomes@[j]@),
                events@ == pipeline_prepare_events(
                    ms0.take(i as int),
                    pm0.take(i as int),
                    outcomes@.take(i as int),
                ),
            decreases n - i,
        {
            let mech = self.exec_mechs[i];
            let mut place = ExecPlace {
                id: 0,
                is_prepared: false,
                is_processed: false,
                details: Vec::new(),
            };
            self.exec_places.set_and_swap(i, &mut place);
            if !place.is_prepared {
                let mut evs = mech.prepare(&mut place, &outcomes[i]);
                events.append(&mut evs);
            }
            self.exec_places.set_and_swap(i, &mut place);
            proof {
                assert(pm0[i as int] == place_model(ps0[i as int]));
                assert(place_model(self.exec_places@[i as int]) =~= prepare_place_model(
                    pm0[i as int],
                    outcomes@[i as int]@,
                ));
                assert(ms0.take(i as int + 1).drop_last() =~= ms0.take(i as int));
                assert(pm0.take(i as int + 1).drop_last() =~= pm0.take(i as int));
                assert(outcomes@.take(i as int + 1).drop_last() =~= outcomes@.take(i as int));
                assert(events@ == pipeline_prepare_events(
                    ms0.take(i as int + 1),
                    pm0.take(i as int + 1),
                    outcomes@.take(i as int + 1),
                ));
            }
            i += 1;
        }
        proof {
            assert(ms0.take(n as int) =~= ms0);
            assert(pm0.take(n as int) =~= pm0);
            assert(outcomes@.take(n as int) =~= outcomes@);
            assert(places_model(self.exec_places@) =~~= prepare_places_model(pm0, outcomes@));
            assert forall|j: int|
                0 <= j < self.exec_places@.len() implies self.exec_places@[j].details@.len()
                == ps0[j].details@.len() && (forall|k: int|
                #![trigger self.exec_places@[j].details@[k]]
                0 <= k < self.exec_places@[j].details@.len() ==> self.exec_places@[j].details@[k].id
                    == ps0[j].details@[k].id) by {
                assert(place_model(self.exec_places@[j]) == prepare_place_model(
                    pm0[j],
                    outcomes@[j]@,
                ));
                assert(pm0[j] == place_model(ps0[j]));
                if !ps0[j].is_prepared {
                    assert(self.exec_places@[j].details@ == prepare_states(
                        ps0[j].details@,
                        outcomes@[j]@,
                    ));
                }
            }
            lemma_wf_after_fanout(*old(self), *self);
        }
        events
    }

    /// Run a work fan-out over every workstation that counts as prepared and
    /// not yet as processed. Returns the fault events of every station that
    /// took part, in station order.
    pub fn work(&mut self, outcomes: &Vec<Vec<bool>>) -> (events: Vec<EventType>)
        requires
            old(self).wf(),
            outcomes_fit(outcomes@, old(self).exec_places@),
        ensures
            final(self).wf(),
            final(self).exec_mechs@ == old(self).exec_mechs@,
            final(self).mechs_count == old(self).mechs_count,
            final(self).details_count == old(self).details_count,
            final(self).state == old(self).state,
            final(self).next_id == old(self).next_id,
            final(self).exec_places@.len() == old(self).exec_places@.len(),
            places_model(final(self).exec_places@) == work_places_model(
                places_model(old(self).exec_places@),
                outcomes@,
            ),
            events@ == pipeline_work_events(
                old(self).exec_mechs@,
                places_model(old(self).exec_places@),
                outcomes@,
            ),
    {
        let ghost ms0 = self.exec_mechs@;
        let ghost ps0 = self.exec_places@;
        let ghost pm0 = places_model(ps0);
        let mut events: Vec<EventType> = Vec::new();
        let n = self.exec_places.len();
        let mut i: usize = 0;
        while i < n
            invariant
                i <= n,
                n == ps0.len(),
                self.exec_mechs@ == ms0,
                self.exec_places@.len() == n,
                self.mechs_count == old(self).mechs_count,
                self.details_count == old(self).details_count,
                self.state == old(self).state,
                self.next_id == old(self).next_id,
                forall|j: int|
                    #![trigger self.exec_places@[j]]
                    i <= j < n ==> self.exec_places@[j] == ps0[j],
                forall|j: int|
                    #![trigger self.exec_places@[j]]
                    0 <= j < i ==> self.exec_places@[j].wf() && place_model(self.exec_places@[j])
                        == work_place_model(pm0[j], outcomes@[j]@),
                events@ == pipeline_work_events(
                    ms0.take(i as int),
                    pm0.take(i as int),
                    outcomes@.take(i as int),
                ),
            decreases n - i,
        {
            let mech = self.exec_mechs[i];
            let mut place = ExecPlace {
                id: 0,
                is_prepared: false,
                is_processed: false,
                details: Vec::new(),
            };
            self.exec_places.set_and_swap(i, &mut place);
            if place.is_prepared && !place.is_processed {
                let mut evs = mech.work(&mut place, &outcomes[i]);
                events.append(&mut evs);
            }
            self.exec_places.set_and_swap(i, &mut place);
            proof {
                assert(pm0[i as int] == place_model(ps0[i as int]));
                assert(place_model(self.exec_places@[i as int]) =~= work_place_model(
                    pm0[i as int],
                    outcomes@[i as int]@,
                ));
                assert(ms0.take(i as int + 1).drop_last() =~= ms0.take(i as int));
                assert(pm0.take(i as int + 1).drop_last() =~= pm0.take(i as int));
                assert(outcomes@.take(i as int + 1).drop_last() =~= outcomes@.take(i as int));
                assert(events@ == pipeline_work_events(
                    ms0.take(i as int + 1),
                    pm0.take(i as int + 1),
                    outcomes@.take(i as int + 1),
                ));
            }
            i += 1;
        }
        proof {
            assert(ms0.take(n as int) =~= ms0);
            assert(pm0.take(n as int) =~= pm0);
            assert(outcomes@.take(n as int) =~= outcomes@);
            assert(places_model(self.exec_places@) =~~= work_places_model(pm0, outcomes@));
            assert forall|j: int|
                0 <= j < self.exec_places@.len() implies self.exec_places@[j].details@.len()
                == ps0[j].details@.len() && (forall|k: int|
                #![trigger self.exec_places@[j].details@[k]]
                0 <= k < self.exec_places@[j].details@.len() ==> self.exec_places@[j].details@[k].id
                    == ps0[j].details@[k].id) by {
                assert(place_model(self.exec_places@[j]) == work_place_model(
                    pm0[j],
                    outcomes@[j]@,
                ));
                assert(pm0[j] == place_model(ps0[j]));
                if work_eligible(place_model(ps0[j])) {
                    assert(self.exec_places@[j].details@ == work_states(
                        ps0[j].details@,
                        outcomes@[j]@,
                    ));
                }
            }
            lemma_wf_after_fanout(*old(self), *self);
        }
        events
    }
}

impl Pipeline {
    /// Engine-level repair dispatch: locate the addressed worker, then the
    /// workstation currently holding the part, and run one fix attempt on it
    /// with the given outcome. The returned event is `Fixed` exactly when the
    /// part was broken and the attempt succeeded; otherwise the part is
    /// re-reported as an accident.
    pub fn fix_detail(&mut self, mech_id: usize, detail_id: usize, success: bool) -> (r: Result<
        EventType,
        PipelineError,
    >)
        requires
            old(self).wf(),
        ensures
            final(self).wf(),
            final(self).exec_mechs@ == old(self).exec_mechs@,
            final(self).mechs_count == old(self).mechs_count,
            final(self).details_count == old(self).details_count,
            final(self).state == old(self).state,
            final(self).next_id == old(self).next_id,
            final(self).exec_places@.len() == old(self).exec_places@.len(),
            !old(self).spec_has_mech(mech_id) ==> r == Err::<EventType, PipelineError>(
                PipelineError::MechNotFound,
            ) && final(self).exec_places@ == old(self).exec_places@,
            old(self).spec_has_mech(mech_id) && !old(self).spec_contains_id(detail_id) ==> r
                == Err::<EventType, PipelineError>(PipelineError::PlaceNotFound) && final(self).exec_places@ == old(self).exec_places@,
            old(self).spec_has_mech(mech_id) && old(self).spec_contains_id(detail_id) ==> {
                let pi = old(self).place_index_of(detail_id);
                let di = index_of_id(old(self).exec_places@[pi].details@, detail_id);
                let s0 = old(self).exec_places@[pi].details@[di].state;
                &&& r == Ok::<EventType, PipelineError>(
                    if fix_ok(s0, success) {
                        EventType::Fixed
                    } else {
                        accident(mech_id, detail_id)
                    },
                )
                &&& forall|j: int|
                    #![trigger final(self).exec_places@[j]]
                    0 <= j < final(self).exec_places@.len() && j != pi ==> final(self).exec_places@[j] == old(self).exec_places@[j]
                &&& final(self).exec_places@[pi].id == old(self).exec_places@[pi].id
                &&& final(self).exec_places@[pi].is_prepared == old(self).exec_places@[pi].is_prepared
                &&& final(self).exec_places@[pi].is_processed == old(self).exec_places@[pi].is_processed
                &&& final(self).exec_places@[pi].details@ == old(self).exec_places@[pi].details@.update(
                    di,
                    (Detail { id: detail_id, state: fix_next(s0, success) }),
                )
            },
    {
        let mech = match self.find_mech(mech_id) {
            Some(m) => m,
            None => {
                return Err(PipelineError::MechNotFound);
            },
        };
        let pi = match self.find_place_index(detail_id) {
            Some(i) => i,
            None => {
                return Err(PipelineError::PlaceNotFound);
            },
        };
        proof {
            lemma_place_index_unique(*self, detail_id, pi as int);
        }
        let ghost ps0 = self.exec_places@;
        let mut place = ExecPlace {
            id: 0,
            is_prepared: false,
            is_processed: false,
            details: Vec::new(),
        };
        self.exec_places.set_and_swap(pi, &mut place);
        let k = match place.index_of(detail_id) {
            Some(k) => k,
            None => {
                // Unreachable: the workstation was found because it holds the part.
                self.exec_places.set_and_swap(pi, &mut place);
                return Err(PipelineError::PlaceNotFound);
            },
        };
        proof {
            lemma_index_of_id_unique(ps0[pi as int].details@, detail_id, k as int);
        }
        let mut d = place.details[k];
        let ev = mech.fix(&mut d, success);
        place.details.set(k, d);
        self.exec_places.set_and_swap(pi, &mut place);
        proof {
            let post = self.exec_places@[pi as int];
            let pre = ps0[pi as int];
            assert(post.details@ == pre.details@.update(
                k as int,
                (Detail { id: detail_id, state: fix_next(pre.details@[k as int].state, success) }),
            ));
            assert forall|i1: int, j1: int|
                0 <= i1 < j1 < post.details@.len() implies post.details@[i1].id
                != post.details@[j1].id by {
                assert(post.details@[i1].id == pre.details@[i1].id);
                assert(post.details@[j1].id == pre.details@[j1].id);
            }
            assert(post.wf());
            assert forall|k1: int| #![trigger post.details@[k1]]
                 0 <= k1 < post.details@.len() implies exists|k0: int|
                0 <= k0 < pre.details@.len() && pre.details@[k0].id == post.details@[k1].id by {
                assert(pre.details@[k1].id == post.details@[k1].id);
            }
            lemma_wf_after_place_shrink(*old(self), *self, pi as int);
        }
        Ok(ev)
    }

    /// Engine-level removal dispatch: locate the workstation holding the
    /// part, then the addressed worker, and remove the part. Succeeds with a
    /// `Removed` event exactly when both lookups succeed; afterwards the
    /// identity is live nowhere in the engine.
    pub fn remove_detail(&mut self, mech_id: usize, detail_id: usize) -> (r: Result<
        EventType,
        PipelineError,
    >)
        requires
            old(self).wf(),
        ensures
            final(self).wf(),
            final(self).exec_mechs@ == old(self).exec_mechs@,
            final(self).mechs_count == old(self).mechs_count,
            final(self).details_count == old(self).details_count,
            final(self).state == old(self).state,
            final(self).next_id == old(self).next_id,
            final(self).exec_places@.len() == old(self).exec_places@.len(),
            !old(self).spec_contains_id(detail_id) ==> r == Err::<EventType, PipelineError>(
                PipelineError::PlaceNotFound,
            ) && final(self).exec_places@ == old(self).exec_places@,
            old(self).spec_contains_id(detail_id) && !old(self).spec_has_mech(mech_id) ==> r
                == Err::<EventType, PipelineError>(PipelineError::MechNotFound) && final(self).exec_places@ == old(self).exec_places@,
            old(self).spec_contains_id(detail_id) && old(self).spec_has_mech(mech_id) ==> {
                let pi = old(self).place_index_of(detail_id);
                &&& r == Ok::<EventType, PipelineError>(EventType::Removed(detail_id))
                &&& forall|j: int|
                    #![trigger final(self).exec_places@[j]]
                    0 <= j < final(self).exec_places@.len() && j != pi ==> final(self).exec_places@[j] == old(self).exec_places@[j]
                &&& final(self).exec_places@[pi].id == old(self).exec_places@[pi].id
                &&& final(self).exec_places@[pi].is_prepared == old(self).exec_places@[pi].is_prepared
                &&& final(self).exec_places@[pi].is_processed == old(self).exec_places@[pi].is_processed
                &&& final(self).exec_places@[pi].details@ == old(self).exec_places@[pi].details@.remove(
                    index_of_id(old(self).exec_places@[pi].details@, detail_id),
                )
            },
            r == Ok::<EventType, PipelineError>(EventType::Removed(detail_id)) ==> !final(self).spec_contains_id(detail_id),
            !old(self).spec_contains_id(detail_id) ==> !final(self).spec_contains_id(detail_id),
    {
        let pi = match self.find_place_index(detail_id) {
            Some(i) => i,
            None => {
                return Err(PipelineError::PlaceNotFound);
            },
        };
        proof {
            lemma_place_index_unique(*self, detail_id, pi as int);
        }
        let mech = match self.find_mech(mech_id) {
            Some(m) => m,
            None => {
                return Err(PipelineError::MechNotFound);
            },
        };
        let ghost ps0 = self.exec_places@;
        let mut place = ExecPlace {
            id: 0,
            is_prepared: false,
            is_processed: false,
            details: Vec::new(),
        };
        self.exec_places.set_and_swap(pi, &mut place);
        let res = mech.remove_detail(&mut place, detail_id);
        self.exec_places.set_and_swap(pi, &mut place);
        proof {
            let post = self.exec_places@[pi as int];
            let pre = ps0[pi as int];
            let di = index_of_id(pre.details@, detail_id);
            assert(0 <= di < pre.details@.len() && pre.details@[di].id == detail_id);
            pre.details@.remove_ensures(di);
            assert(post.details@ == pre.details@.remove(di));
            assert forall|k1: int| #![trigger post.details@[k1]]
                 0 <= k1 < post.details@.len() implies exists|k0: int|
                0 <= k0 < pre.details@.len() && pre.details@[k0].id == post.details@[k1].id by {
                if k1 < di {
                    assert(post.details@[k1] == pre.details@[k1]);
                } else {
                    assert(post.details@[k1] == pre.details@[k1 + 1]);
                }
            }
            lemma_wf_after_place_shrink(*old(self), *self, pi as int);
            assert forall|j: int|
                0 <= j < self.exec_places@.len() implies !self.exec_places@[j].spec_contains(
                detail_id,
            ) by {
                if j == pi {
                    assert(!post.spec_contains(detail_id));
                } else {
                    if self.exec_places@[j].spec_contains(detail_id) {
                        lemma_place_index_unique(*old(self), detail_id, j);
                    }
                }
            }
        }
        match res {
            Ok(ev) => Ok(ev),
            Err(_) => {
                // Unreachable: the workstation was found because it holds the part.
                Err(PipelineError::PlaceNotFound)
            },
        }
    }
}

/// The events of one `Automatic` tick: a prepare phase over the pool, then a
/// work phase over the pool the prepare phase left behind.
pub open spec fn automatic_tick_events(
    ms: Seq<ExecMech>,
    ps: Seq<PlaceModel>,
    pos: Seq<Vec<bool>>,
    wos: Seq<Vec<bool>>,
) -> Seq<EventType> {
    pipeline_prepare_events(ms, ps, pos) + pipeline_work_events(
        ms,
        prepare_places_model(ps, pos),
        wos,
    )
}

/// Only the scheduling mode changed, and it is now `s`.
pub open spec fn state_set_only(pre: Pipeline, post: Pipeline, s: PipelineState) -> bool {
    &&& post.state == s
    &&& post.exec_mechs@ == pre.exec_mechs@
    &&& post.exec_places@ == pre.exec_places@
    &&& post.mechs_count == pre.mechs_count
    &&& post.details_count == pre.details_count
    &&& post.next_id == pre.next_id
}

/// What a pipeline shift guarantees: a full pool of fresh stations, every
/// part in `Start` with a never-used identity, and no previously live
/// identity left anywhere.
pub open spec fn shift_pipeline_post(pre: Pipeline, post: Pipeline, detail_count: usize) -> bool {
    &&& post.wf()
    &&& post.exec_mechs@ == pre.exec_mechs@
    &&& post.mechs_count == pre.mechs_count
    &&& post.details_count == pre.details_count
    &&& post.state == pre.state
    &&& post.exec_places@.len() == pre.mechs_count
    &&& (forall|i: int|
        #![trigger post.exec_places@[i]]
        0 <= i < post.exec_places@.len() ==> {
            &&& !post.exec_places@[i].is_prepared
            &&& !post.exec_places@[i].is_processed
            &&& post.exec_places@[i].details@.len() == detail_count as int
                / pre.mechs_count as int
            &&& forall|k: int|
                #![trigger post.exec_places@[i].details@[k]]
                0 <= k < post.exec_places@[i].details@.len() ==> {
                    &&& post.exec_places@[i].details@[k].state == DetailState::Start
                    &&& post.exec_places@[i].details@[k].id >= pre.next_id
                }
        })
    &&& (forall|id: usize| pre.spec_contains_id(id) ==> !post.spec_contains_id(id))
}

/// What an engine-level fix dispatch guarantees, for every lookup outcome.
pub open spec fn fix_detail_post(
    pre: Pipeline,
    post: Pipeline,
    r: Result<EventType, PipelineError>,
    mech_id: usize,
    detail_id: usize,
    success: bool,
) -> bool {
    &&& post.wf()
    &&& post.exec_mechs@ == pre.exec_mechs@
    &&& post.mechs_count == pre.mechs_count
    &&& post.details_count == pre.details_count
    &&& post.state == pre.state
    &&& post.next_id == pre.next_id
    &&& post.exec_places@.len() == pre.exec_places@.len()
    &&& (!pre.spec_has_mech(mech_id) ==> r == Err::<EventType, PipelineError>(
        PipelineError::MechNotFound,
    ) && post.exec_places@ == pre.exec_places@)
    &&& (pre.spec_has_mech(mech_id) && !pre.spec_contains_id(detail_id) ==> r == Err::<
        EventType,
        PipelineError,
    >(PipelineError::PlaceNotFound) && post.exec_places@ == pre.exec_places@)
    &&& (pre.spec_has_mech(mech_id) && pre.spec_contains_id(detail_id) ==> {
        let pi = pre.place_index_of(detail_id);
        let di = index_of_id(pre.exec_places@[pi].details@, detail_id);
        let s0 = pre.exec_places@[pi].details@[di].state;
        &&& r == Ok::<EventType, PipelineError>(
            if fix_ok(s0, success) {
                EventType::Fixed
            } else {
                accident(mech_id, detail_id)
            },
        )
        &&& forall|j: int|
            #![trigger post.exec_places@[j]]
            0 <= j < post.exec_places@.len() && j != pi ==> post.exec_places@[j]
                == pre.exec_places@[j]
        &&& post.exec_places@[pi].id == pre.exec_places@[pi].id
        &&& post.exec_places@[pi].is_prepared == pre.exec_places@[pi].is_prepared
        &&& post.exec_places@[pi].is_processed == pre.exec_places@[pi].is_processed
        &&& post.exec_places@[pi].details@ == pre.exec_places@[pi].details@.update(
            di,
            (Detail { id: detail_id, state: fix_next(s0, success) }),
        )
    })
}

/// What an engine-level removal dispatch guarantees, for every lookup
/// outcome; on success the identity is live nowhere afterwards.
pub open spec fn remove_detail_post(
    pre: Pipeline,
    post: Pipeline,
    r: Result<EventType, PipelineError>,
    mech_id: usize,
    detail_id: usize,
) -> bool {
    &&& post.wf()
    &&& post.exec_mechs@ == pre.exec_mechs@
    &&& post.mechs_count == pre.mechs_count
    &&& post.details_count == pre.details_count
    &&& post.state == pre.state
    &&& post.next_id == pre.next_id
    &&& post.exec_places@.len() == pre.exec_places@.len()
    &&& (!pre.spec_contains_id(detail_id) ==> r == Err::<EventType, PipelineError>(
        PipelineError::PlaceNotFound,
    ) && post.exec_places@ == pre.exec_places@)
    &&& (pre.spec_contains_id(detail_id) && !pre.spec_has_mech(mech_id) ==> r == Err::<
        EventType,
        PipelineError,
    >(PipelineError::MechNotFound) && post.exec_places@ == pre.exec_places@)
    &&& (pre.spec_contains_id(detail_id) && pre.spec_has_mech(mech_id) ==> {
        let pi = pre.place_index_of(detail_id);
        &&& r == Ok::<EventType, PipelineError>(EventType::Removed(detail_id))
        &&& forall|j: int|
            #![trigger post.exec_places@[j]]
            0 <= j < post.exec_places@.len() && j != pi ==> post.exec_places@[j]
                == pre.exec_places@[j]
        &&& post.exec_places@[pi].id == pre.exec_places@[pi].id
        &&& post.exec_places@[pi].is_prepared == pre.exec_places@[pi].is_prepared
        &&& post.exec_places@[pi].is_processed == pre.exec_places@[pi].is_processed
        &&& post.exec_places@[pi].details@ == pre.exec_places@[pi].details@.remove(
            index_of_id(pre.exec_places@[pi].details@, detail_id),
        )
    })
    &&& (r == Ok::<EventType, PipelineError>(EventType::Removed(detail_id))
        ==> !post.spec_contains_id(detail_id))
    &&& (!pre.spec_contains_id(detail_id) ==> !post.spec_contains_id(detail_id))
}

/// Every part steps within the legal transition graph across a whole
/// prepare or work phase of the engine, whatever the injected outcomes: no
/// part is ever taken straight from `Start` or `Broken` to `Processed`.
pub proof fn lemma_phase_steps_legal(ps: Seq<PlaceModel>, oss: Seq<Vec<bool>>, i: int, k: int)
    requires
        0 <= i < ps.len(),
        0 <= k < ps[i].details.len(),
    ensures
        crate::detail::legal_step(
            ps[i].details[k].state,
            prepare_places_model(ps, oss)[i].details[k].state,
        ),
        crate::detail::legal_step(
            ps[i].details[k].state,
            work_places_model(ps, oss)[i].details[k].state,
        ),
{
    assert(prepare_places_model(ps, oss)[i] == prepare_place_model(ps[i], oss[i]@));
    assert(work_places_model(ps, oss)[i] == work_place_model(ps[i], oss[i]@));
}

/// Removal is exactly-once: when removing an identity succeeded, removing
/// the same identity again fails because no workstation holds it any more.
pub proof fn lemma_removal_exactly_once(
    p0: Pipeline,
    p1: Pipeline,
    p2: Pipeline,
    r1: Result<EventType, PipelineError>,
    r2: Result<EventType, PipelineError>,
    mech_id: usize,
    detail_id: usize,
)
    requires
        remove_detail_post(p0, p1, r1, mech_id, detail_id),
        remove_detail_post(p1, p2, r2, mech_id, detail_id),
        r1 == Ok::<EventType, PipelineError>(EventType::Removed(detail_id)),
    ensures
        r2 == Err::<EventType, PipelineError>(PipelineError::PlaceNotFound),
        !p2.spec_contains_id(detail_id),
{
}

impl Pipeline {
    /// One scheduler tick. In `Automatic` the engine runs a prepare phase,
    /// then a work phase, then shifts the whole pool and stays `Automatic`;
    /// `PrepareOnce` and `WorkOnce` run their single phase and fall back to
    /// `Idle`; an `Idle` tick changes nothing and emits nothing. The outcome
    /// grids supply one probabilistic outcome per part for each phase that
    /// runs.
    pub fn process(&mut self, prepare_outcomes: &Vec<Vec<bool>>, work_outcomes: &Vec<Vec<bool>>)
        -> (events: Vec<EventType>)
        requires
            old(self).wf(),
            old(self).state == PipelineState::Automatic || old(self).state
                == PipelineState::PrepareOnce ==> outcomes_fit(
                prepare_outcomes@,
                old(self).exec_places@,
            ),
            old(self).state == PipelineState::Automatic || old(self).state
                == PipelineState::WorkOnce ==> outcomes_fit(work_outcomes@, old(self).exec_places@),
            old(self).state == PipelineState::Automatic ==> old(self).next_id + old(self).details_count + old(self).mechs_count <= usize::MAX,
        ensures
            final(self).wf(),
            final(self).exec_mechs@ == old(self).exec_mechs@,
            final(self).mechs_count == old(self).mechs_count,
            final(self).details_count == old(self).details_count,
            old(self).state == PipelineState::Idle ==> final(self).state == PipelineState::Idle
                && final(self).exec_places@ == old(self).exec_places@ && final(self).next_id == old(self).next_id && events@ == Seq::<EventType>::empty(),
            old(self).state == PipelineState::PrepareOnce ==> final(self).state
                == PipelineState::Idle && final(self).next_id == old(self).next_id && places_model(
                final(self).exec_places@,
            ) == prepare_places_model(places_model(old(self).exec_places@), prepare_outcomes@)
                && events@ == pipeline_prepare_events(
                old(self).exec_mechs@,
                places_model(old(self).exec_places@),
                prepare_outcomes@,
            ),
            old(self).state == PipelineState::WorkOnce ==> final(self).state == PipelineState::Idle
                && final(self).next_id == old(self).next_id && places_model(
                final(self).exec_places@,
            ) == work_places_model(places_model(old(self).exec_places@), work_outcomes@)
                && events@ == pipeline_work_events(
                old(self).exec_mechs@,
                places_model(old(self).exec_places@),
                work_outcomes@,
            ),
            old(self).state == PipelineState::Automatic ==> final(self).state
                == PipelineState::Automatic && events@ == automatic_tick_events(
                old(self).exec_mechs@,
                places_model(old(self).exec_places@),
                prepare_outcomes@,
                work_outcomes@,
            ) && final(self).exec_places@.len() == old(self).mechs_count && (forall|i: int|
                #![trigger final(self).exec_places@[i]]
                0 <= i < final(self).exec_places@.len() ==> {
                    &&& !final(self).exec_places@[i].is_prepared
                    &&& !final(self).exec_places@[i].is_processed
                    &&& final(self).exec_places@[i].details@.len() == old(self).details_count as int
                        / old(self).mechs_count as int
                    &&& forall|k: int|
                        #![trigger final(self).exec_places@[i].details@[k]]
                        0 <= k < final(self).exec_places@[i].details@.len() ==> final(self).exec_places@[i].details@[k].state == DetailState::Start && final(self).exec_places@[i].details@[k].id >= old(self).next_id
                }) && (forall|id: usize|
                old(self).spec_contains_id(id) ==> !final(self).spec_contains_id(id)),
    {
        let ghost ms0 = self.exec_mechs@;
        let ghost pm0 = places_model(self.exec_places@);
        match self.get_state() {
            PipelineState::Automatic => {
                let mut events = self.prepare(prepare_outcomes);
                proof {
                    assert forall|i: int|
                        0 <= i < work_outcomes@.len() implies work_outcomes@[i]@.len()
                        == self.exec_places@[i].details@.len() by {
                        assert(places_model(self.exec_places@)[i] == prepare_places_model(
                            pm0,
                            prepare_outcomes@,
                        )[i]);
                        assert(place_model(self.exec_places@[i]) == prepare_place_model(
                            pm0[i],
                            prepare_outcomes@[i]@,
                        ));
                        assert(pm0[i] == place_model(old(self).exec_places@[i]));
                    }
                }
                let mut work_events = self.work(work_outcomes);
                events.append(&mut work_events);
                proof {
                    assert(places_model(old(self).exec_places@) == pm0);
                }
                let count = self.details_count;
                self.shift_pipeline(count);
                proof {
                    assert forall|id: usize| old(self).spec_contains_id(id) implies !self
                        .spec_contains_id(id) by {
                        if self.spec_contains_id(id) {
                            let i = choose|i: int|
                                0 <= i < self.exec_places@.len()
                                    && self.exec_places@[i].spec_contains(id);
                            let k = choose|k: int|
                                0 <= k < self.exec_places@[i].details@.len()
                                    && self.exec_places@[i].details@[k].id == id;
                            assert(id >= old(self).next_id);
                            let i0 = choose|i0: int|
                                0 <= i0 < old(self).exec_places@.len() && old(self).exec_places@[i0].spec_contains(id);
                            let k0 = choose|k0: int|
                                0 <= k0 < old(self).exec_places@[i0].details@.len() && old(self).exec_places@[i0].details@[k0].id == id;
                            assert(old(self).exec_places@[i0].details@[k0].id < old(self).next_id);
                        }
                    }
                }
                events
            },
            PipelineState::PrepareOnce => {
                let events = self.prepare(prepare_outcomes);
                self.set_state(PipelineState::Idle);
                events
            },
            PipelineState::WorkOnce => {
                let events = self.work(work_outcomes);
                self.set_state(PipelineState::Idle);
                events
            },
            PipelineState::Idle => {
                let events: Vec<EventType> = Vec::new();
                proof {
                    assert(events@ =~= Seq::<EventType>::empty());
                }
                events
            },
        }
    }
}

/// In the freshly built pool, part `k` of station `i` has identity
/// `base + i * (c + 1) + 1 + k`; identities of different slots differ.
proof fn lemma_build_ids_distinct(base: int, c: int, i: int, k: int, j: int, l: int)
    requires
        i != j,
        0 <= i,
        0 <= j,
        0 <= k < c,
        0 <= l < c,
    ensures
        base + i * (c + 1) + 1 + k != base + j * (c + 1) + 1 + l,
{
    assert(i * (c + 1) + k != j * (c + 1) + l) by (nonlinear_arith)
        requires
            i != j,
            0 <= i,
            0 <= j,
            0 <= k < c,
            0 <= l < c,
    ;
}

} // verus!

