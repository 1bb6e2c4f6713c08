//! Tests for the part state machine, single workstations, the operator
//! decision layer, and the configuration check.

use conveyor::detail::{Detail, DetailState};
use conveyor::mech::{process_fix, process_prepare, process_work, ExecMech, ExecPlace};
use conveyor::operator::{Operator, OperatorCommand};
use conveyor::pipeline::{Pipeline, PipelineState};
use conveyor::{EventType, InitConfig, PipelineError};

#[test]
fn detail_starts_in_start_state() {
    let d = Detail::new(7);
    assert_eq!(d.id, 7);
    assert_eq!(d.state, DetailState::Start);
}

#[test]
fn prepare_transitions() {
    let mut d = Detail::new(1);
    assert_eq!(process_prepare(&mut d, true), Ok(()));
    assert_eq!(d.state, DetailState::Prepared);

    let mut d = Detail::new(2);
    assert_eq!(process_prepare(&mut d, false), Err(PipelineError::PrepareFailed(2)));
    assert_eq!(d.state, DetailState::Broken);

    // Prepare is a successful no-op away from Start.
    assert_eq!(process_prepare(&mut d, false), Ok(()));
    assert_eq!(d.state, DetailState::Broken);
}

#[test]
fn work_transitions() {
    let mut d = Detail { id: 3, state: DetailState::Prepared };
    assert_eq!(process_work(&mut d, true), Ok(()));
    assert_eq!(d.state, DetailState::Processed);

    let mut d = Detail { id: 4, state: DetailState::Prepared };
    assert_eq!(process_work(&mut d, false), Err(PipelineError::WorkFailed(4)));
    assert_eq!(d.state, DetailState::Broken);
}

#[test]
fn work_is_idempotent_on_processed_parts() {
    let mut d = Detail { id: 5, state: DetailState::Processed };
    assert_eq!(process_work(&mut d, false), Ok(()));
    assert_eq!(d.state, DetailState::Processed);
    assert_eq!(process_work(&mut d, true), Ok(()));
    assert_eq!(d.state, DetailState::Processed);
}

#[test]
fn fix_transitions() {
    let mut d = Detail { id: 6, state: DetailState::Broken };
    assert_eq!(process_fix(&mut d, true), Ok(()));
    assert_eq!(d.state, DetailState::Prepared);

    let mut d = Detail { id: 7, state: DetailState::Broken };
    assert_eq!(process_fix(&mut d, false), Err(PipelineError::FixFailed(7)));
    assert_eq!(d.state, DetailState::Broken);

    let mut d = Detail { id: 8, state: DetailState::Start };
    assert_eq!(process_fix(&mut d, true), Err(PipelineError::NotBroken(8)));
    assert_eq!(d.state, DetailState::Start);
}

#[test]
fn station_prepare_collects_faults_in_order() {
    let mech = ExecMech::new(40);
    let details = vec![Detail::new(10), Detail::new(11), Detail::new(12)];
    let mut place = ExecPlace::new(90, details);
    let events = mech.prepare(&mut place, &vec![false, true, false]);
    assert_eq!(events.len(), 2);
    match (&events[0], &events[1]) {
        (EventType::Accident(a), EventType::Accident(b)) => {
            assert_eq!((a.mech_id, a.detail_id), (40, 10));
            assert_eq!((b.mech_id, b.detail_id), (40, 12));
        }
        other => panic!("expected two accident events, got {:?}", other),
    }
    assert!(!place.is_prepared);
    assert_eq!(place.details[0].state, DetailState::Broken);
    assert_eq!(place.details[1].state, DetailState::Prepared);
    assert_eq!(place.details[2].state, DetailState::Broken);
}

#[test]
fn station_work_ignores_already_processed_parts() {
    let mech = ExecMech::new(41);
    let details = vec![
        Detail { id: 20, state: DetailState::Processed },
        Detail { id: 21, state: DetailState::Processed },
    ];
    let mut place = ExecPlace::new(91, details);
    place.is_prepared = true;
    let events = mech.work(&mut place, &vec![false, false]);
    assert!(events.is_empty());
    assert!(place.is_processed);
    assert_eq!(place.details[0].state, DetailState::Processed);
    assert_eq!(place.details[1].state, DetailState::Processed);
}

#[test]
fn station_remove_is_exactly_once() {
    let mech = ExecMech::new(42);
    let details = vec![Detail::new(30), Detail::new(31)];
    let mut place = ExecPlace::new(92, details);
    assert_eq!(place.contain_detail(30), true);
    assert_eq!(mech.remove_detail(&mut place, 30), Ok(EventType::Removed(30)));
    assert_eq!(place.contain_detail(30), false);
    assert_eq!(place.details.len(), 1);
    assert_eq!(mech.remove_detail(&mut place, 30), Err(PipelineError::DetailNotFound));
    assert_eq!(place.details.len(), 1);
    assert_eq!(place.details[0].id, 31);
}

#[test]
fn station_fix_emits_fixed_or_accident() {
    let mech = ExecMech::new(43);
    let mut d = Detail { id: 50, state: DetailState::Broken };
    assert_eq!(mech.fix(&mut d, true), EventType::Fixed);
    assert_eq!(d.state, DetailState::Prepared);

    let mut d = Detail { id: 51, state: DetailState::Broken };
    match mech.fix(&mut d, false) {
        EventType::Accident(info) => assert_eq!((info.mech_id, info.detail_id), (43, 51)),
        other => panic!("expected an accident event, got {:?}", other),
    }
    assert_eq!(d.state, DetailState::Broken);
}

#[test]
fn operator_menus_match_prompt_contexts() {
    let op = Operator::new();
    assert_eq!(
        op.general_menu(),
        vec![
            OperatorCommand::ShiftPipeline,
            OperatorCommand::Prepare,
            OperatorCommand::Process,
            OperatorCommand::EnableAutomatic,
            OperatorCommand::DisableAutomatic,
            OperatorCommand::End,
        ]
    );
    assert_eq!(
        op.accident_menu(),
        vec![OperatorCommand::Fix, OperatorCommand::RemoveDetail, OperatorCommand::End]
    );
    assert_eq!(
        op.fixed_menu(),
        vec![
            OperatorCommand::Process,
            OperatorCommand::Prepare,
            OperatorCommand::EnableAutomatic,
            OperatorCommand::End,
        ]
    );
}

#[test]
fn operator_general_commands_set_modes() {
    let op = Operator::new();
    let mut p = Pipeline::new(2, 4);
    assert_eq!(op.show_ui(&mut p, OperatorCommand::Prepare), Ok(()));
    assert_eq!(p.get_state(), PipelineState::PrepareOnce);
    assert_eq!(op.show_ui(&mut p, OperatorCommand::Process), Ok(()));
    assert_eq!(p.get_state(), PipelineState::WorkOnce);
    assert_eq!(op.show_ui(&mut p, OperatorCommand::DisableAutomatic), Ok(()));
    assert_eq!(p.get_state(), PipelineState::Idle);
    assert_eq!(op.show_ui(&mut p, OperatorCommand::EnableAutomatic), Ok(()));
    assert_eq!(p.get_state(), PipelineState::Automatic);
    assert_eq!(op.show_ui(&mut p, OperatorCommand::End), Err(PipelineError::End));
    assert_eq!(p.get_state(), PipelineState::Automatic);
}

#[test]
fn operator_shift_command_rebuilds_pool() {
    let op = Operator::new();
    let mut p = Pipeline::new(2, 4);
    let old_id = p.exec_places[0].details[0].id;
    assert_eq!(op.show_ui_removed(&mut p, OperatorCommand::ShiftPipeline), Ok(()));
    for pl in &p.exec_places {
        for d in &pl.details {
            assert_ne!(d.id, old_id);
            assert_eq!(d.state, DetailState::Start);
        }
    }
}

#[test]
fn operator_rejects_command_outside_context() {
    let op = Operator::new();
    let mut p = Pipeline::new(2, 4);
    assert_eq!(op.show_ui(&mut p, OperatorCommand::Fix), Err(PipelineError::InvalidCommand));
    assert_eq!(
        op.show_ui_fixed(&mut p, OperatorCommand::ShiftPipeline),
        Err(PipelineError::InvalidCommand)
    );
    let mech_id = p.exec_mechs[0].id;
    let detail_id = p.exec_places[0].details[0].id;
    assert_eq!(
        op.show_ui_accident(&mut p, mech_id, detail_id, OperatorCommand::Prepare, true),
        Err(PipelineError::InvalidCommand)
    );
    assert_eq!(p.get_state(), PipelineState::Automatic);
}

#[test]
fn operator_accident_commands_dispatch() {
    let op = Operator::new();
    let mut p = Pipeline::new(2, 4);
    p.set_state(PipelineState::PrepareOnce);
    let all_false: Vec<Vec<bool>> = vec![vec![false, false], vec![false, false]];
    let all_true: Vec<Vec<bool>> = vec![vec![true, true], vec![true, true]];
    p.process(&all_false, &all_true);
    let mech_id = p.exec_mechs[0].id;
    let fix_id = p.exec_places[0].details[0].id;
    let remove_id = p.exec_places[0].details[1].id;
    assert_eq!(
        op.show_ui_accident(&mut p, mech_id, fix_id, OperatorCommand::Fix, true),
        Ok(EventType::Fixed)
    );
    assert_eq!(p.exec_places[0].details[0].state, DetailState::Prepared);
    assert_eq!(
        op.show_ui_accident(&mut p, mech_id, remove_id, OperatorCommand::RemoveDetail, true),
        Ok(EventType::Removed(remove_id))
    );
    assert_eq!(p.exec_places[0].details.len(), 1);
    assert_eq!(
        op.show_ui_accident(&mut p, mech_id, fix_id, OperatorCommand::End, true),
        Err(PipelineError::End)
    );
}

#[test]
fn operator_fixed_commands_set_modes() {
    let op = Operator::new();
    let mut p = Pipeline::new(2, 4);
    assert_eq!(op.show_ui_fixed(&mut p, OperatorCommand::Process), Ok(()));
    assert_eq!(p.get_state(), PipelineState::WorkOnce);
    assert_eq!(op.show_ui_fixed(&mut p, OperatorCommand::Prepare), Ok(()));
    assert_eq!(p.get_state(), PipelineState::PrepareOnce);
    assert_eq!(op.show_ui_fixed(&mut p, OperatorCommand::EnableAutomatic), Ok(()));
    assert_eq!(p.get_state(), PipelineState::Automatic);
    assert_eq!(op.show_ui_fixed(&mut p, OperatorCommand::End), Err(PipelineError::End));
}

#[test]
fn command_labels_match_prompts() {
    assert_eq!(OperatorCommand::Fix.label(), "Fix detail");
    assert_eq!(OperatorCommand::RemoveDetail.label(), "Remove detail from pipeline");
    assert_eq!(OperatorCommand::Prepare.label(), "Prepare details");
    assert_eq!(OperatorCommand::Process.label(), "Process detail");
    assert_eq!(OperatorCommand::End.label(), "End program");
    assert_eq!(
        OperatorCommand::ShiftPipeline.label(),
        "Shift pipeline (generate new details on pipeline)"
    );
    assert_eq!(OperatorCommand::EnableAutomatic.label(), "Enable automatic pipeline process");
    assert_eq!(OperatorCommand::DisableAutomatic.label(), "Disable automatic pipeline process");
}

#[test]
fn error_messages_name_the_failure() {
    assert_eq!(PipelineError::PrepareFailed(1).message(), "Detail failed during preparation");
    assert_eq!(PipelineError::WorkFailed(1).message(), "Detail broke during processing");
    assert_eq!(PipelineError::FixFailed(1).message(), "Detail was not fixed");
    assert_eq!(PipelineError::NotBroken(1).message(), "Detail is not broken");
    assert_eq!(PipelineError::DetailNotFound.message(), "Detail does not exist");
    assert_eq!(PipelineError::MechNotFound.message(), "Mech was not found");
    assert_eq!(PipelineError::PlaceNotFound.message(), "Exec place was not found");
    assert_eq!(PipelineError::InvalidCommand.message(), "Command is not available here");
    assert_eq!(PipelineError::End.message(), "End program");
}

#[test]
fn config_validity() {
    assert!(InitConfig { mech_count: 2, details_count: 4 }.is_valid());
    assert!(InitConfig { mech_count: 1, details_count: 1 }.is_valid());
    assert!(!InitConfig { mech_count: 0, details_count: 4 }.is_valid());
    assert!(!InitConfig { mech_count: 5, details_count: 4 }.is_valid());
    assert!(!InitConfig { mech_count: 2, details_count: usize::MAX }.is_valid());
}
