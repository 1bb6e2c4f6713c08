//! Operator decisions. The console itself is an external collaborator: it
//! shows a prompt, offers one of the fixed menus below, and hands back the
//! selected command. This module holds what can be decided without the
//! console: which commands each prompt context offers, and what applying a
//! selected command does to the engine. A command outside its context's menu
//! is rejected rather than silently ignored.

use vstd::prelude::*;

use crate::pipeline::{
    fix_detail_post, remove_detail_post, shift_pipeline_post, state_set_only, Pipeline,
    PipelineState,
};
use crate::{EventType, PipelineError};

verus! {

/// The fixed set of commands an operator can select.
#[derive(Clone, Copy, Debug, PartialEq, Eq, Structural)]
pub enum OperatorCommand {
    Fix,
    RemoveDetail,
    End,
    Prepare,
    Process,
    ShiftPipeline,
    EnableAutomatic,
    DisableAutomatic,
}

impl OperatorCommand {
    /// The text shown for this command in a menu.
    pub open spec fn spec_label(self) -> Seq<char> {
        match self {
            OperatorCommand::Fix => "Fix detail"@,
            OperatorCommand::RemoveDetail => "Remove detail from pipeline"@,
            OperatorCommand::Prepare => "Prepare details"@,
            OperatorCommand::Process => "Process detail"@,
            OperatorCommand::End => "End program"@,
            OperatorCommand::ShiftPipeline => "Shift pipeline (generate new details on pipeline)"@,
            OperatorCommand::EnableAutomatic => "Enable automatic pipeline process"@,
            OperatorCommand::DisableAutomatic => "Disable automatic pipeline process"@,
        }
    }

    /// The text shown for this command in a menu.
    pub fn label(&self) -> (r: &'static str)
        ensures
            r@ == self.spec_label(),
    {
        match self {
            OperatorCommand::Fix => "Fix detail",
            OperatorCommand::RemoveDetail => "Remove detail from pipeline",
            OperatorCommand::Prepare => "Prepare details",
            OperatorCommand::Process => "Process detail",
            OperatorCommand::End => "End program",
            OperatorCommand::ShiftPipeline => "Shift pipeline (generate new details on pipeline)",
            OperatorCommand::EnableAutomatic => "Enable automatic pipeline process",
            OperatorCommand::DisableAutomatic => "Disable automatic pipeline process",
        }
    }
}

/// The ordered menu of the general prompt, shown after an idle tick and
/// after a removal.
pub open spec fn general_menu_spec() -> Seq<OperatorCommand> {
    seq![
        OperatorCommand::ShiftPipeline,
        OperatorCommand::Prepare,
        OperatorCommand::Process,
        OperatorCommand::EnableAutomatic,
        OperatorCommand::DisableAutomatic,
        OperatorCommand::End,
    ]
}

/// The ordered menu of the accident prompt.
pub open spec fn accident_menu_spec() -> Seq<OperatorCommand> {
    seq![OperatorCommand::Fix, OperatorCommand::RemoveDetail, OperatorCommand::End]
}

/// The ordered menu of the prompt shown after a successful repair.
pub open spec fn fixed_menu_spec() -> Seq<OperatorCommand> {
    seq![
        OperatorCommand::Process,
        OperatorCommand::Prepare,
        OperatorCommand::EnableAutomatic,
        OperatorCommand::End,
    ]
}

/// The single-threaded decision core behind every console prompt.
#[derive(Clone, Copy, Debug, PartialEq, Eq, Structural)]
pub struct Operator;

impl Operator {
    pub fn new() -> (op: Operator) {
        Operator
    }

    /// The commands the general prompt offers, in display order.
    pub fn general_menu(&self) -> (menu: Vec<OperatorCommand>)
        ensures
            menu@ == general_menu_spec(),
    {
        let mut menu: Vec<OperatorCommand> = Vec::new();
        menu.push(OperatorCommand::ShiftPipeline);
        menu.push(OperatorCommand::Prepare);
        menu.push(OperatorCommand::Process);
        menu.push(OperatorCommand::EnableAutomatic);
        menu.push(OperatorCommand::DisableAutomatic);
        menu.push(OperatorCommand::End);
        proof {
            assert(menu@ =~= general_menu_spec());
        }
        menu
    }

    /// The commands the accident prompt offers, in display order.
    pub fn accident_menu(&self) -> (menu: Vec<OperatorCommand>)
        ensures
            menu@ == accident_menu_spec(),
    {
        let mut menu: Vec<OperatorCommand> = Vec::new();
        menu.push(OperatorCommand::Fix);
        menu.push(OperatorCommand::RemoveDetail);
        menu.push(OperatorCommand::End);
        proof {
            assert(menu@ =~= accident_menu_spec());
        }
        menu
    }

    /// The commands the after-repair prompt offers, in display order.
    pub fn fixed_menu(&self) -> (menu: Vec<OperatorCommand>)
        ensures
            menu@ == fixed_menu_spec(),
    {
        let mut menu: Vec<OperatorCommand> = Vec::new();
        menu.push(OperatorCommand::Process);
        menu.push(OperatorCommand::Prepare);
        menu.push(OperatorCommand::EnableAutomatic);
        menu.push(OperatorCommand::End);
        proof {
            assert(menu@ =~= fixed_menu_spec());
        }
        menu
    }

    /// Apply the command selected at the general prompt. `End` unwinds the
    /// controller loop; a command the prompt does not offer is rejected.
    pub fn show_ui(&self, pipeline: &mut Pipeline, command: OperatorCommand) -> (r: Result<
        (),
        PipelineError,
    >)
        requires
            old(pipeline).wf(),
            command == OperatorCommand::ShiftPipeline ==> old(pipeline).next_id + old(
                pipeline,
            ).details_count + old(pipeline).mechs_count <= usize::MAX,
        ensures
            final(pipeline).wf(),
            command == OperatorCommand::End ==> r == Err::<(), PipelineError>(PipelineError::End)
                && state_set_only(*old(pipeline), *final(pipeline), old(pipeline).state),
            command == OperatorCommand::Prepare ==> r == Ok::<(), PipelineError>(())
                && state_set_only(*old(pipeline), *final(pipeline), PipelineState::PrepareOnce),
            command == OperatorCommand::Process ==> r == Ok::<(), PipelineError>(())
                && state_set_only(*old(pipeline), *final(pipeline), PipelineState::WorkOnce),
            command == OperatorCommand::EnableAutomatic ==> r == Ok::<(), PipelineError>(())
                && state_set_only(*old(pipeline), *final(pipeline), PipelineState::Automatic),
            command == OperatorCommand::DisableAutomatic ==> r == Ok::<(), PipelineError>(())
                && state_set_only(*old(pipeline), *final(pipeline), PipelineState::Idle),
            command == OperatorCommand::ShiftPipeline ==> r == Ok::<(), PipelineError>(())
                && shift_pipeline_post(
                *old(pipeline),
                *final(pipeline),
                old(pipeline).details_count,
            ),
            command == OperatorCommand::Fix || command == OperatorCommand::RemoveDetail ==> r
                == Err::<(), PipelineError>(PipelineError::InvalidCommand) && state_set_only(
                *old(pipeline),
                *final(pipeline),
                old(pipeline).state,
            ),
    {
        match command {
            OperatorCommand::End => Err(PipelineError::End),
            OperatorCommand::ShiftPipeline => {
                let count = pipeline.details_count;
                pipeline.shift_pipeline(count);
                Ok(())
            },
            OperatorCommand::EnableAutomatic => {
                pipeline.set_state(PipelineState::Automatic);
                Ok(())
            },
            OperatorCommand::DisableAutomatic => {
                pipeline.set_state(PipelineState::Idle);
                Ok(())
            },
            OperatorCommand::Prepare => {
                pipeline.set_state(PipelineState::PrepareOnce);
                Ok(())
            },
            OperatorCommand::Process => {
                pipeline.set_state(PipelineState::WorkOnce);
                Ok(())
            },
            _ => Err(PipelineError::InvalidCommand),
        }
    }

    /// Apply the command selected at the prompt shown after a removal; the
    /// menu is the general one.
    pub fn show_ui_removed(&self, pipeline: &mut Pipeline, command: OperatorCommand) -> (r: Result<
        (),
        PipelineError,
    >)
        requires
            old(pipeline).wf(),
            command == OperatorCommand::ShiftPipeline ==> old(pipeline).next_id + old(
                pipeline,
            ).details_count + old(pipeline).mechs_count <= usize::MAX,
        ensures
            final(pipeline).wf(),
            command == OperatorCommand::End ==> r == Err::<(), PipelineError>(PipelineError::End)
                && state_set_only(*old(pipeline), *final(pipeline), old(pipeline).state),
            command == OperatorCommand::Prepare ==> r == Ok::<(), PipelineError>(())
                && state_set_only(*old(pipeline), *final(pipeline), PipelineState::PrepareOnce),
            command == OperatorCommand::Process ==> r == Ok::<(), PipelineError>(())
                && state_set_only(*old(pipeline), *final(pipeline), PipelineState::WorkOnce),
            command == OperatorCommand::EnableAutomatic ==> r == Ok::<(), PipelineError>(())
                && state_set_only(*old(pipeline), *final(pipeline), PipelineState::Automatic),
            command == OperatorCommand::DisableAutomatic ==> r == Ok::<(), PipelineError>(())
                && state_set_only(*old(pipeline), *final(pipeline), PipelineState::Idle),
            command == OperatorCommand::ShiftPipeline ==> r == Ok::<(), PipelineError>(())
                && shift_pipeline_post(
                *old(pipeline),
                *final(pipeline),
                old(pipeline).details_count,
            ),
            command == OperatorCommand::Fix || command == OperatorCommand::RemoveDetail ==> r
                == Err::<(), PipelineError>(PipelineError::InvalidCommand) && state_set_only(
                *old(pipeline),
                *final(pipeline),
                old(pipeline).state,
            ),
    {
        self.show_ui(pipeline, command)
    }

    /// Apply the command selected at the accident prompt: repair the part,
    /// remove it, or end the program.
    pub fn show_ui_accident(
        &self,
        pipeline: &mut Pipeline,
        mech_id: usize,
        detail_id: usize,
        command: OperatorCommand,
        success: bool,
    ) -> (r: Result<EventType, PipelineError>)
        requires
            old(pipeline).wf(),
        ensures
            final(pipeline).wf(),
            command == OperatorCommand::End ==> r == Err::<EventType, PipelineError>(
                PipelineError::End,
            ) && state_set_only(*old(pipeline), *final(pipeline), old(pipeline).state),
            command == OperatorCommand::Fix ==> fix_detail_post(
                *old(pipeline),
                *final(pipeline),
                r,
                mech_id,
                detail_id,
                success,
            ),
            command == OperatorCommand::RemoveDetail ==> remove_detail_post(
                *old(pipeline),
                *final(pipeline),
                r,
                mech_id,
                detail_id,
            ),
            !(command == OperatorCommand::Fix || command == OperatorCommand::RemoveDetail || command
                == OperatorCommand::End) ==> r == Err::<EventType, PipelineError>(
                PipelineError::InvalidCommand,
            ) && state_set_only(*old(pipeline), *final(pipeline), old(pipeline).state),
    {
        match command {
            OperatorCommand::Fix => pipeline.fix_detail(mech_id, detail_id, success),
            OperatorCommand::RemoveDetail => pipeline.remove_detail(mech_id, detail_id),
            OperatorCommand::End => Err(PipelineError::End),
            _ => Err(PipelineError::InvalidCommand),
        }
    }

    /// Apply the command selected at the prompt shown after a successful
    /// repair.
    pub fn show_ui_fixed(&self, pipeline: &mut Pipeline, command: OperatorCommand) -> (r: Result<
        (),
        PipelineError,
    >)
        requires
            old(pipeline).wf(),
        ensures
            final(pipeline).wf(),
            command == OperatorCommand::End ==> r == Err::<(), PipelineError>(PipelineError::End)
                && state_set_only(*old(pipeline), *final(pipeline), old(pipeline).state),
            command == OperatorCommand::Prepare ==> r == Ok::<(), PipelineError>(())
                && state_set_only(*old(pipeline), *final(pipeline), PipelineState::PrepareOnce),
            command == OperatorCommand::Process ==> r == Ok::<(), PipelineError>(())
                && state_set_only(*old(pipeline), *final(pipeline), PipelineState::WorkOnce),
            command == OperatorCommand::EnableAutomatic ==> r == Ok::<(), PipelineError>(())
                && state_set_only(*old(pipeline), *final(pipeline), PipelineState::Automatic),
            !(command == OperatorCommand::Prepare || command == OperatorCommand::Process || command
                == OperatorCommand::EnableAutomatic || command == OperatorCommand::End) ==> r
                == Err::<(), PipelineError>(PipelineError::InvalidCommand) && state_set_only(
                *old(pipeline),
                *final(pipeline),
                old(pipeline).state,
            ),
    {
        match command {
            OperatorCommand::End => Err(PipelineError::End),
            OperatorCommand::EnableAutomatic => {
                pipeline.set_state(PipelineState::Automatic);
                Ok(())
            },
            OperatorCommand::Process => {
                pipeline.set_state(PipelineState::WorkOnce);
                Ok(())
            },
            OperatorCommand::Prepare => {
                pipeline.set_state(PipelineState::PrepareOnce);
                Ok(())
            },
            _ => Err(PipelineError::InvalidCommand),
        }
    }
}

} // verus!
