//! Scenario tests driving the whole engine through its public API.

use conveyor::detail::DetailState;
use conveyor::pipeline::{Pipeline, PipelineState};
use conveyor::EventType;

fn uniform_grid(p: &Pipeline, value: bool) -> Vec<Vec<bool>> {
    p.exec_places.iter().map(|pl| vec![value; pl.details.len()]).collect()
}

fn all_ids(p: &Pipeline) -> Vec<usize> {
    let mut ids = Vec::new();
    for pl in &p.exec_places {
        for d in &pl.details {
            ids.push(d.id);
        }
    }
    ids
}

#[test]
fn construction_partitions_parts() {
    let p = Pipeline::new(2, 4);
    assert_eq!(p.mechs_count, 2);
    assert_eq!(p.details_count, 4);
    assert_eq!(p.exec_mechs.len(), 2);
    assert_eq!(p.exec_places.len(), 2);
    for pl in &p.exec_places {
        assert_eq!(pl.details.len(), 2);
        assert!(!pl.is_prepared);
        assert!(!pl.is_processed);
        for d in &pl.details {
            assert_eq!(d.state, DetailState::Start);
        }
    }
    assert_eq!(p.get_state(), PipelineState::Automatic);
    assert!(p.is_automatic());
    let mut ids = all_ids(&p);
    ids.sort();
    ids.dedup();
    assert_eq!(ids.len(), 4);
}

#[test]
fn construction_truncates_remainder() {
    let p = Pipeline::new(2, 5);
    assert_eq!(p.exec_places.len(), 2);
    for pl in &p.exec_places {
        assert_eq!(pl.details.len(), 2);
    }
}

#[test]
fn prepare_once_all_success() {
    let mut p = Pipeline::new(2, 4);
    p.set_state(PipelineState::PrepareOnce);
    let pos = uniform_grid(&p, true);
    let wos = uniform_grid(&p, true);
    let events = p.process(&pos, &wos);
    assert!(events.is_empty());
    for pl in &p.exec_places {
        assert!(pl.is_prepared);
        assert!(!pl.is_processed);
        for d in &pl.details {
            assert_eq!(d.state, DetailState::Prepared);
        }
    }
    assert_eq!(p.get_state(), PipelineState::Idle);
}

#[test]
fn prepare_once_all_failures() {
    let mut p = Pipeline::new(2, 4);
    p.set_state(PipelineState::PrepareOnce);
    let pos = uniform_grid(&p, false);
    let wos = uniform_grid(&p, true);
    let expected: Vec<(usize, usize)> = vec![
        (p.exec_mechs[0].id, p.exec_places[0].details[0].id),
        (p.exec_mechs[0].id, p.exec_places[0].details[1].id),
        (p.exec_mechs[1].id, p.exec_places[1].details[0].id),
        (p.exec_mechs[1].id, p.exec_places[1].details[1].id),
    ];
    let events = p.process(&pos, &wos);
    assert_eq!(events.len(), 4);
    for (event, (mech_id, detail_id)) in events.iter().zip(expected.iter()) {
        match event {
            EventType::Accident(info) => {
                assert_eq!(info.mech_id, *mech_id);
                assert_eq!(info.detail_id, *detail_id);
            }
            other => panic!("expected an accident event, got {:?}", other),
        }
    }
    for pl in &p.exec_places {
        assert!(!pl.is_prepared);
        assert!(!pl.is_processed);
        for d in &pl.details {
            assert_eq!(d.state, DetailState::Broken);
        }
    }
    assert_eq!(p.get_state(), PipelineState::Idle);
}

#[test]
fn partial_failure_flips_station_flag_only() {
    let mut p = Pipeline::new(1, 2);
    p.set_state(PipelineState::PrepareOnce);
    let pos = vec![vec![true, false]];
    let wos = vec![vec![true, true]];
    let events = p.process(&pos, &wos);
    assert_eq!(events.len(), 1);
    let pl = &p.exec_places[0];
    assert!(!pl.is_prepared);
    assert_eq!(pl.details[0].state, DetailState::Prepared);
    assert_eq!(pl.details[1].state, DetailState::Broken);
}

#[test]
fn work_once_processes_prepared_stations() {
    let mut p = Pipeline::new(2, 4);
    p.set_state(PipelineState::PrepareOnce);
    let all_true = uniform_grid(&p, true);
    p.process(&all_true, &all_true);
    p.set_state(PipelineState::WorkOnce);
    let events = p.process(&all_true, &all_true);
    assert!(events.is_empty());
    for pl in &p.exec_places {
        assert!(pl.is_prepared);
        assert!(pl.is_processed);
        for d in &pl.details {
            assert_eq!(d.state, DetailState::Processed);
        }
    }
    assert_eq!(p.get_state(), PipelineState::Idle);
}

#[test]
fn work_failure_breaks_parts() {
    let mut p = Pipeline::new(2, 4);
    p.set_state(PipelineState::PrepareOnce);
    let all_true = uniform_grid(&p, true);
    let all_false = uniform_grid(&p, false);
    p.process(&all_true, &all_true);
    p.set_state(PipelineState::WorkOnce);
    let events = p.process(&all_true, &all_false);
    assert_eq!(events.len(), 4);
    for pl in &p.exec_places {
        assert!(pl.is_prepared);
        assert!(!pl.is_processed);
        for d in &pl.details {
            assert_eq!(d.state, DetailState::Broken);
        }
    }
}

#[test]
fn work_skips_unprepared_stations() {
    let mut p = Pipeline::new(2, 4);
    p.set_state(PipelineState::WorkOnce);
    let grid = uniform_grid(&p, false);
    let events = p.process(&grid, &grid);
    assert!(events.is_empty());
    for pl in &p.exec_places {
        assert!(!pl.is_prepared);
        assert!(!pl.is_processed);
        for d in &pl.details {
            assert_eq!(d.state, DetailState::Start);
        }
    }
}

#[test]
fn prepare_skips_stations_already_prepared() {
    let mut p = Pipeline::new(2, 4);
    p.set_state(PipelineState::PrepareOnce);
    let all_true = uniform_grid(&p, true);
    p.process(&all_true, &all_true);
    // A second prepare phase must skip the prepared stations entirely, so
    // even all-failure outcomes change nothing and emit nothing.
    p.set_state(PipelineState::PrepareOnce);
    let all_false = uniform_grid(&p, false);
    let events = p.process(&all_false, &all_false);
    assert!(events.is_empty());
    for pl in &p.exec_places {
        assert!(pl.is_prepared);
        for d in &pl.details {
            assert_eq!(d.state, DetailState::Prepared);
        }
    }
}

#[test]
fn single_worker_single_part_runs_through() {
    let mut p = Pipeline::new(1, 1);
    assert_eq!(p.exec_places.len(), 1);
    assert_eq!(p.exec_places[0].details.len(), 1);
    p.set_state(PipelineState::PrepareOnce);
    p.process(&vec![vec![true]], &vec![vec![true]]);
    p.set_state(PipelineState::WorkOnce);
    p.process(&vec![vec![true]], &vec![vec![true]]);
    assert_eq!(p.exec_places[0].details[0].state, DetailState::Processed);
    assert!(p.exec_places[0].is_prepared);
    assert!(p.exec_places[0].is_processed);
}

#[test]
fn idle_tick_does_nothing() {
    let mut p = Pipeline::new(2, 4);
    p.set_state(PipelineState::Idle);
    let ids_before = all_ids(&p);
    let grid = uniform_grid(&p, true);
    let events = p.process(&grid, &grid);
    assert!(events.is_empty());
    assert_eq!(all_ids(&p), ids_before);
    assert_eq!(p.get_state(), PipelineState::Idle);
}

#[test]
fn automatic_tick_prepares_works_and_shifts() {
    let mut p = Pipeline::new(2, 4);
    let ids_before = all_ids(&p);
    let grid = uniform_grid(&p, true);
    let events = p.process(&grid, &grid);
    assert!(events.is_empty());
    assert_eq!(p.get_state(), PipelineState::Automatic);
    assert_eq!(p.exec_places.len(), 2);
    for pl in &p.exec_places {
        assert_eq!(pl.details.len(), 2);
        assert!(!pl.is_prepared);
        assert!(!pl.is_processed);
        for d in &pl.details {
            assert_eq!(d.state, DetailState::Start);
            assert!(!ids_before.contains(&d.id));
        }
    }
}

#[test]
fn automatic_tick_with_failed_prepare_reports_and_still_shifts() {
    let mut p = Pipeline::new(2, 4);
    let ids_before = all_ids(&p);
    let all_false = uniform_grid(&p, false);
    let all_true = uniform_grid(&p, true);
    let events = p.process(&all_false, &all_true);
    // Every prepare attempt fails, so four accidents are reported; the
    // broken stations are not eligible for the work phase, and the shift
    // still replaces the whole pool.
    assert_eq!(events.len(), 4);
    for event in &events {
        assert!(matches!(event, EventType::Accident(_)));
    }
    assert_eq!(p.get_state(), PipelineState::Automatic);
    for pl in &p.exec_places {
        assert!(!pl.is_prepared);
        assert!(!pl.is_processed);
        for d in &pl.details {
            assert_eq!(d.state, DetailState::Start);
            assert!(!ids_before.contains(&d.id));
        }
    }
}

#[test]
fn shift_replaces_every_identity() {
    let mut p = Pipeline::new(2, 4);
    let ids_before = all_ids(&p);
    p.shift_pipeline(4);
    let ids_after = all_ids(&p);
    assert_eq!(ids_after.len(), 4);
    for id in &ids_after {
        assert!(!ids_before.contains(id));
    }
    for pl in &p.exec_places {
        assert_eq!(pl.details.len(), 2);
        assert!(!pl.is_prepared);
        assert!(!pl.is_processed);
        for d in &pl.details {
            assert_eq!(d.state, DetailState::Start);
        }
    }
}

#[test]
fn shift_truncates_remainder_group() {
    let mut p = Pipeline::new(2, 4);
    p.shift_pipeline(5);
    assert_eq!(p.exec_places.len(), 2);
    let total: usize = p.exec_places.iter().map(|pl| pl.details.len()).sum();
    assert_eq!(total, 4);
}

#[test]
fn removal_succeeds_once_then_reports_missing() {
    let mut p = Pipeline::new(2, 4);
    let mech_id = p.exec_mechs[0].id;
    let detail_id = p.exec_places[1].details[0].id;
    let first = p.remove_detail(mech_id, detail_id);
    assert_eq!(first, Ok(EventType::Removed(detail_id)));
    assert_eq!(p.exec_places[1].details.len(), 1);
    let second = p.remove_detail(mech_id, detail_id);
    assert_eq!(second, Err(conveyor::PipelineError::PlaceNotFound));
    assert_eq!(p.exec_places[1].details.len(), 1);
}

#[test]
fn remove_with_unknown_mech_fails() {
    let mut p = Pipeline::new(2, 4);
    let detail_id = p.exec_places[0].details[0].id;
    let r = p.remove_detail(usize::MAX, detail_id);
    assert_eq!(r, Err(conveyor::PipelineError::MechNotFound));
    assert_eq!(p.exec_places[0].details.len(), 2);
}

#[test]
fn fix_broken_part_with_forced_success() {
    let mut p = Pipeline::new(2, 4);
    p.set_state(PipelineState::PrepareOnce);
    let all_false = uniform_grid(&p, false);
    let all_true = uniform_grid(&p, true);
    p.process(&all_false, &all_true);
    let mech_id = p.exec_mechs[0].id;
    let detail_id = p.exec_places[0].details[0].id;
    let r = p.fix_detail(mech_id, detail_id, true);
    assert_eq!(r, Ok(EventType::Fixed));
    assert_eq!(p.exec_places[0].details[0].state, DetailState::Prepared);
}

#[test]
fn fix_failure_keeps_part_broken_and_reports_accident() {
    let mut p = Pipeline::new(2, 4);
    p.set_state(PipelineState::PrepareOnce);
    let all_false = uniform_grid(&p, false);
    let all_true = uniform_grid(&p, true);
    p.process(&all_false, &all_true);
    let mech_id = p.exec_mechs[1].id;
    let detail_id = p.exec_places[0].details[1].id;
    let r = p.fix_detail(mech_id, detail_id, false);
    match r {
        Ok(EventType::Accident(info)) => {
            assert_eq!(info.mech_id, mech_id);
            assert_eq!(info.detail_id, detail_id);
        }
        other => panic!("expected an accident event, got {:?}", other),
    }
    assert_eq!(p.exec_places[0].details[1].state, DetailState::Broken);
}

#[test]
fn fix_part_that_is_not_broken_reports_accident() {
    let mut p = Pipeline::new(2, 4);
    let mech_id = p.exec_mechs[0].id;
    let detail_id = p.exec_places[0].details[0].id;
    let r = p.fix_detail(mech_id, detail_id, true);
    match r {
        Ok(EventType::Accident(info)) => {
            assert_eq!(info.mech_id, mech_id);
            assert_eq!(info.detail_id, detail_id);
        }
        other => panic!("expected an accident event, got {:?}", other),
    }
    assert_eq!(p.exec_places[0].details[0].state, DetailState::Start);
}

#[test]
fn fix_with_unknown_mech_fails() {
    let mut p = Pipeline::new(2, 4);
    let detail_id = p.exec_places[0].details[0].id;
    let r = p.fix_detail(usize::MAX, detail_id, true);
    assert_eq!(r, Err(conveyor::PipelineError::MechNotFound));
}

#[test]
fn fix_with_unknown_detail_fails() {
    let mut p = Pipeline::new(2, 4);
    let mech_id = p.exec_mechs[0].id;
    let r = p.fix_detail(mech_id, usize::MAX, true);
    assert_eq!(r, Err(conveyor::PipelineError::PlaceNotFound));
}

#[test]
fn mode_accessors_round_trip() {
    let mut p = Pipeline::new(1, 1);
    assert!(p.is_automatic());
    p.set_state(PipelineState::WorkOnce);
    assert_eq!(p.get_state(), PipelineState::WorkOnce);
    assert!(!p.is_automatic());
    p.set_state(PipelineState::Automatic);
    assert!(p.is_automatic());
}
