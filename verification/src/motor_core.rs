//! The orchestrator's decision core: the motor state machine, the active
//! feedback mode, the last configuration snapshot and the unsaved flag.
//!
//! Every state-dependent decision of the motor facade lives here as a
//! pure step: a *decision* method inspects the state and yields the wire
//! line to send (or the error to surface), and a *commit* method applies
//! the transition once the surrounding task has actually sent the line.
//! The async shell holds one `MotorCore` behind its state lock and calls
//! decision and commit under the same critical section, which makes each
//! transition atomic for outside observers.

use vstd::prelude::*;
use crate::MotorState;
use crate::command::MotorCalibrationCommand;
use crate::command::MotorConfigCommand;
use crate::command::MotorFeedbackCommand;
use crate::command::MotorRunCommand;
use crate::config_parser::MotorConfig;
use crate::error::MotorError;
use crate::feedback::MotorFeedbackState;

verus! {

/// Mathematical state of the core.
#[verifier::ext_equal]
pub ghost struct CoreView {
    pub state: MotorState,
    pub feedback: MotorFeedbackState,
    pub config: Option<MotorConfig>,
    pub unsaved: bool,
}

/// The state a fresh core starts in.
pub open spec fn init_core() -> CoreView {
    CoreView {
        state: MotorState::Stop,
        feedback: MotorFeedbackState::Off,
        config: None,
        unsaved: false,
    }
}

/// Effect of a successfully sent run command: `Stop` stops and clears
/// the feedback mode; the set commands enter a debug run streaming the
/// matching channel.
pub open spec fn apply_run_spec(v: CoreView, cmd: &MotorRunCommand) -> CoreView {
    match cmd {
        MotorRunCommand::Stop => CoreView {
            state: MotorState::Stop,
            feedback: MotorFeedbackState::Off,
            ..v
        },
        MotorRunCommand::SetSpeed(_) => CoreView {
            state: MotorState::DebugRun,
            feedback: MotorFeedbackState::Speed,
            ..v
        },
        MotorRunCommand::SetPosition(_) => CoreView {
            state: MotorState::DebugRun,
            feedback: MotorFeedbackState::Position,
            ..v
        },
    }
}

pub open spec fn set_feedback_spec(v: CoreView, mode: MotorFeedbackState) -> CoreView {
    CoreView { feedback: mode, ..v }
}

pub open spec fn store_config_spec(v: CoreView, cfg: MotorConfig) -> CoreView {
    CoreView { config: Some(cfg), ..v }
}

pub open spec fn mark_unsaved_spec(v: CoreView) -> CoreView {
    CoreView { unsaved: true, ..v }
}

pub open spec fn mark_saved_spec(v: CoreView) -> CoreView {
    CoreView { unsaved: false, ..v }
}

pub open spec fn begin_calibration_spec(v: CoreView) -> CoreView {
    CoreView { state: MotorState::Test, ..v }
}

/// Leaving a calibration exchange: back to `Stop` and the configuration
/// is considered unsaved, whatever the exchange's outcome was.
pub open spec fn finish_calibration_spec(v: CoreView) -> CoreView {
    CoreView { state: MotorState::Stop, unsaved: true, ..v }
}

/// The feedback-selection line for a mode.
pub open spec fn feedback_line_for(mode: MotorFeedbackState) -> Seq<char> {
    match mode {
        MotorFeedbackState::Off => "get_none\r\n"@,
        MotorFeedbackState::Speed => "get_speed\r\n"@,
        MotorFeedbackState::Position => "get_position\r\n"@,
        MotorFeedbackState::Current => "get_current\r\n"@,
        MotorFeedbackState::Udc => "get_udc\r\n"@,
    }
}

/// Decision core of the motor facade.
pub struct MotorCore {
    state: MotorState,
    feedback: MotorFeedbackState,
    config: Option<MotorConfig>,
    unsaved: bool,
}

impl View for MotorCore {
    type V = CoreView;

    closed spec fn view(&self) -> CoreView {
        CoreView {
            state: self.state,
            feedback: self.feedback,
            config: self.config,
            unsaved: self.unsaved,
        }
    }
}

impl MotorCore {
    /// A core that is stopped, streams nothing, holds no snapshot and
    /// has nothing unsaved.
    pub fn new() -> (r: MotorCore)
        ensures
            r@ == init_core(),
    {
        let r = MotorCore {
            state: MotorState::Stop,
            feedback: MotorFeedbackState::Off,
            config: None,
            unsaved: false,
        };
        proof {
            assert(r@ =~= init_core());
        }
        r
    }

    pub fn state(&self) -> (r: MotorState)
        ensures
            r == self@.state,
    {
        self.state
    }

    pub fn feedback(&self) -> (r: MotorFeedbackState)
        ensures
            r == self@.feedback,
    {
        self.feedback
    }

    pub fn unsaved(&self) -> (r: bool)
        ensures
            r == self@.unsaved,
    {
        self.unsaved
    }

    /// The stored snapshot, if a config load has completed.
    pub fn config_ref(&self) -> (r: Option<&MotorConfig>)
        ensures
            r is Some <==> self@.config is Some,
            r is Some ==> self@.config == Some(*r.unwrap()),
    {
        match &self.config {
            Some(c) => Some(c),
            None => None,
        }
    }

    /// The line that switches the device to `mode`, or `None` when the
    /// mode is already active and nothing has to be sent.
    pub fn set_feedback_line(&self, mode: MotorFeedbackState) -> (r: Option<String>)
        ensures
            r is Some <==> mode != self@.feedback,
            r is Some ==> r.unwrap()@ == feedback_line_for(mode),
    {
        if self.feedback == mode {
            None
        } else {
            let cmd = match mode {
                MotorFeedbackState::Off => MotorFeedbackCommand::GetNone,
                MotorFeedbackState::Speed => MotorFeedbackCommand::GetSpeed,
                MotorFeedbackState::Position => MotorFeedbackCommand::GetPosition,
                MotorFeedbackState::Current => MotorFeedbackCommand::GetCurrent,
                MotorFeedbackState::Udc => MotorFeedbackCommand::GetUdc,
            };
            Some(cmd.to_string())
        }
    }

    /// Records that the device now streams `mode`; called once the
    /// selection line was sent successfully.
    pub fn commit_feedback(&mut self, mode: MotorFeedbackState)
        ensures
            final(self)@ == set_feedback_spec(old(self)@, mode),
    {
        self.feedback = mode;
        proof {
            assert(self@ =~= set_feedback_spec(old(self)@, mode));
        }
    }

    /// The request line that starts a configuration dump.
    pub fn config_request_line(&self) -> (r: String)
        ensures
            r@ == "get_config\r\n"@,
    {
        MotorFeedbackCommand::GetConfig.to_string()
    }

    /// Keeps the snapshot a completed config load produced.
    pub fn store_config(&mut self, cfg: MotorConfig)
        ensures
            final(self)@ == store_config_spec(old(self)@, cfg),
    {
        self.config = Some(cfg);
        proof {
            assert(self@ =~= store_config_spec(old(self)@, cfg));
        }
    }

    /// The wire line for a run command, or `InvalidState` when the
    /// command is illegal in the current state.
    pub fn run_command_line(&self, cmd: &MotorRunCommand) -> (r: Result<String, MotorError>)
        ensures
            r is Ok <==> cmd.legal_in(self@.state),
            r is Ok ==> r.unwrap()@ == cmd.line_spec(),
            r is Err ==> (r->Err_0 matches MotorError::InvalidState(m) && m@
                == "cannot send command in current state"@),
    {
        match cmd.to_string(&self.state) {
            Some(line) => Ok(line),
            None => Err(
                MotorError::InvalidState("cannot send command in current state".to_owned()),
            ),
        }
    }

    /// Applies the state and feedback transition of a run command that
    /// was sent successfully.
    pub fn apply_run_command(&mut self, cmd: &MotorRunCommand)
        requires
            cmd.legal_in(old(self)@.state),
        ensures
            final(self)@ == apply_run_spec(old(self)@, cmd),
    {
        match cmd {
            MotorRunCommand::Stop => {
                self.state = MotorState::Stop;
                self.feedback = MotorFeedbackState::Off;
            },
            MotorRunCommand::SetSpeed(_) => {
                self.state = MotorState::DebugRun;
                self.feedback = MotorFeedbackState::Speed;
            },
            MotorRunCommand::SetPosition(_) => {
                self.state = MotorState::DebugRun;
                self.feedback = MotorFeedbackState::Position;
            },
        }
        proof {
            assert(self@ =~= apply_run_spec(old(self)@, cmd));
        }
    }

    /// The wire line for a configuration command, or `InvalidState` when
    /// it is illegal in the current state or carries a non-positive
    /// `output_max`.
    pub fn config_command_line(&self, cmd: &MotorConfigCommand) -> (r: Result<
        String,
        MotorError,
    >)
        ensures
            r is Ok <==> cmd.legal_in(self@.state),
            r is Ok ==> r.unwrap()@ == cmd.line_spec(),
            r is Err ==> (r->Err_0 matches MotorError::InvalidState(m) && m@
                == "cannot send command in current state"@),
    {
        match cmd.to_string(&self.state) {
            Some(line) => Ok(line),
            None => Err(
                MotorError::InvalidState("cannot send command in current state".to_owned()),
            ),
        }
    }

    /// Records that a configuration command reached the device: the
    /// device-side configuration now differs from what was saved.
    pub fn mark_unsaved(&mut self)
        ensures
            final(self)@ == mark_unsaved_spec(old(self)@),
    {
        self.unsaved = true;
        proof {
            assert(self@ =~= mark_unsaved_spec(old(self)@));
        }
    }

    /// What saving requires now: nothing when nothing is unsaved, the
    /// save line while stopped, and an error otherwise.
    pub fn save_command_line(&self) -> (r: Result<Option<String>, MotorError>)
        ensures
            !self@.unsaved ==> r is Ok && r.unwrap() is None,
            self@.unsaved && self@.state == MotorState::Stop ==> r is Ok && r.unwrap() is Some
                && r.unwrap().unwrap()@ == "save\r\n"@,
            self@.unsaved && self@.state != MotorState::Stop ==> r is Err && (
            r->Err_0 matches MotorError::InvalidState(m) && m@
                == "cannot send command in current state"@),
    {
        if !self.unsaved {
            Ok(None)
        } else {
            match (MotorConfigCommand::Save).to_string(&self.state) {
                Some(line) => Ok(Some(line)),
                None => Err(
                    MotorError::InvalidState(
                        "cannot send command in current state".to_owned(),
                    ),
                ),
            }
        }
    }

    /// Records that the save line reached the device.
    pub fn mark_saved(&mut self)
        ensures
            final(self)@ == mark_saved_spec(old(self)@),
    {
        self.unsaved = false;
        proof {
            assert(self@ =~= mark_saved_spec(old(self)@));
        }
    }

    /// The calibration trigger line, or `InvalidState` outside `Stop`.
    pub fn calibration_line(&self) -> (r: Result<String, MotorError>)
        ensures
            r is Ok <==> self@.state == MotorState::Stop,
            r is Ok ==> r.unwrap()@ == "calibration\r\n"@,
            r is Err ==> (r->Err_0 matches MotorError::InvalidState(m) && m@
                == "cannot calibration in current state"@),
    {
        match (MotorCalibrationCommand::Calibration).to_string(&self.state) {
            Some(line) => Ok(line),
            None => Err(
                MotorError::InvalidState("cannot calibration in current state".to_owned()),
            ),
        }
    }

    /// Enters the Test state once the calibration trigger was sent.
    pub fn begin_calibration(&mut self)
        requires
            old(self)@.state == MotorState::Stop,
        ensures
            final(self)@ == begin_calibration_spec(old(self)@),
    {
        self.state = MotorState::Test;
        proof {
            assert(self@ =~= begin_calibration_spec(old(self)@));
        }
    }

    /// Leaves the Test state when the calibration exchange concludes,
    /// whether it succeeded, failed or timed out; the configuration is
    /// unsaved in every case.
    pub fn finish_calibration(&mut self)
        requires
            old(self)@.state == MotorState::Test,
        ensures
            final(self)@ == finish_calibration_spec(old(self)@),
    {
        self.state = MotorState::Stop;
        self.unsaved = true;
        proof {
            assert(self@ =~= finish_calibration_spec(old(self)@));
        }
    }
}

/// A calibration exchange begun in `Stop` ends back in `Stop` with the
/// configuration marked unsaved, whatever happened in between: the
/// commit on leaving the exchange does not depend on its outcome.
pub proof fn lemma_calibration_restores_stop(v: CoreView)
    requires
        v.state == MotorState::Stop,
    ensures
        finish_calibration_spec(begin_calibration_spec(v)).state == MotorState::Stop,
        finish_calibration_spec(begin_calibration_spec(v)).unsaved,
        finish_calibration_spec(begin_calibration_spec(v)).feedback == v.feedback,
        finish_calibration_spec(begin_calibration_spec(v)).config == v.config,
{
}

/// A speed command from `Stop` is legal and moves the core to `DebugRun`
/// streaming speed, in the one committed step.
pub proof fn lemma_set_speed_from_stop(v: CoreView, cmd: &MotorRunCommand)
    requires
        v.state == MotorState::Stop,
        cmd matches MotorRunCommand::SetSpeed(_),
    ensures
        cmd.legal_in(v.state),
        apply_run_spec(v, cmd).state == MotorState::DebugRun,
        apply_run_spec(v, cmd).feedback == MotorFeedbackState::Speed,
        apply_run_spec(v, cmd).config == v.config,
        apply_run_spec(v, cmd).unsaved == v.unsaved,
{
}

} // verus!
