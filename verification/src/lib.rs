//! Protocol engine for a line-oriented serial motor controller.
//!
//! The crate encodes host commands, reassembles and parses device replies
//! (telemetry, configuration dumps, calibration progress) and tracks the
//! operating-state machine that decides which commands may be sent.
//! Transport plumbing (the serial port itself, background tasks, timers)
//! lives outside this crate; everything here is pure logic over lines.

use vstd::prelude::*;

pub mod calibration;
pub mod command;
pub mod config_parser;
pub mod decimal;
pub mod error;
pub mod feedback;
pub mod line_assembler;
pub mod motor_core;
pub mod text;

verus! {

/// Operating state of the motor controller; commands are legal or not
/// depending on it.
#[derive(Debug, Clone, Copy, PartialEq, Eq, Structural)]
pub enum MotorState {
    Stop,
    DebugRun,
    Run,
    Test,
    Fault,
}

impl MotorState {
    /// Human-readable name of the state, for presentation layers.
    pub fn name(&self) -> (r: &'static str)
        ensures
            r@ == self.name_spec(),
    {
        match self {
            MotorState::Stop => "Stop",
            MotorState::DebugRun => "DebugRun",
            MotorState::Run => "Run",
            MotorState::Test => "Test",
            MotorState::Fault => "Fault",
        }
    }

    pub open spec fn name_spec(self) -> Seq<char> {
        match self {
            MotorState::Stop => "Stop"@,
            MotorState::DebugRun => "DebugRun"@,
            MotorState::Run => "Run"@,
            MotorState::Test => "Test"@,
            MotorState::Fault => "Fault"@,
        }
    }
}

} // verus!
