//! Error kinds surfaced by the protocol engine.

use vstd::prelude::*;
use vstd::string::StringExecFns;

verus! {

/// Typed failures of the engine's operations.
#[derive(Debug, Clone)]
pub enum MotorError {
    /// The transport could not be opened, written to, or read from.
    SerialError(String),
    /// A device reply was malformed or incomplete.
    ParseError(String),
    /// The command is not legal in the current motor state, or carries an
    /// invalid parameter.
    InvalidState(String),
    /// The device reported a fault condition.
    FaultDetected(String),
    /// A bounded exchange did not complete in time.
    Timeout,
}

impl MotorError {
    pub open spec fn message_spec(self) -> Seq<char> {
        match self {
            MotorError::SerialError(m) => "serial port error: "@ + m@,
            MotorError::ParseError(m) => "parse error: "@ + m@,
            MotorError::InvalidState(m) => "invalid state: "@ + m@,
            MotorError::FaultDetected(m) => "fault detected: "@ + m@,
            MotorError::Timeout => "timeout"@,
        }
    }

    /// Human-readable description of the failure.
    pub fn message(&self) -> (r: String)
        ensures
            r@ == self.message_spec(),
    {
        match self {
            MotorError::SerialError(m) => {
                let mut r = "serial port error: ".to_owned();
                r.append(m.as_str());
                r
            },
            MotorError::ParseError(m) => {
                let mut r = "parse error: ".to_owned();
                r.append(m.as_str());
                r
            },
            MotorError::InvalidState(m) => {
                let mut r = "invalid state: ".to_owned();
                r.append(m.as_str());
                r
            },
            MotorError::FaultDetected(m) => {
                let mut r = "fault detected: ".to_owned();
                r.append(m.as_str());
                r
            },
            MotorError::Timeout => "timeout".to_owned(),
        }
    }
}

} // verus!
