//! Parser for the device's calibration-progress lines.
//!
//! During a calibration exchange (Test state) the device reports its
//! progress line by line. The device documentation pins the exact
//! grammar; this parser models it minimally behind the narrow
//! `parse` / `is_done` interface the orchestrator relies on, so the line
//! interpreter can be extended without touching anything else: a
//! `calibration: <percent>` line updates the progress and `100` marks
//! completion, a `calibration:` line with anything else is a reported
//! failure, and any other line is telemetry noise to be ignored.

use vstd::prelude::*;
use crate::text;

verus! {

/// A calibration line the device reported as failed or that could not
/// be understood; carries the offending value text.
#[derive(Debug, Clone)]
pub enum CalibrationError {
    Invalid(String),
}

/// Progress state of one calibration exchange.
#[verifier::ext_equal]
pub ghost struct CalibrationView {
    /// Last reported percentage, 0 to 100.
    pub percent: u32,
    /// Whether completion (100) has been reported.
    pub done: bool,
}

/// Accumulates calibration progress from device lines.
pub struct CalibrationParser {
    percent: u32,
    done: bool,
}

impl View for CalibrationParser {
    type V = CalibrationView;

    closed spec fn view(&self) -> CalibrationView {
        CalibrationView { percent: self.percent, done: self.done }
    }
}

/// Whether the trimmed line carries a progress report, and its value.
pub open spec fn progress_of(t: Seq<char>) -> Option<int> {
    let val = text::key_value(t, "calibration:"@);
    if text::has_key(t, "calibration:"@) && val.len() > 0 && text::all_digits(val)
        && text::dec_value(val) <= 100 {
        Some(text::dec_value(val))
    } else {
        None
    }
}

/// A line with the calibration key but no readable percentage.
pub open spec fn is_bad_calibration_line(t: Seq<char>) -> bool {
    text::has_key(t, "calibration:"@) && progress_of(t) is None
}

impl CalibrationParser {
    /// A parser that has seen no progress.
    pub fn new() -> (r: CalibrationParser)
        ensures
            r@.percent == 0,
            !r@.done,
    {
        CalibrationParser { percent: 0, done: false }
    }

    /// Consumes one device line.
    ///
    /// A progress line updates the state and reports the new
    /// percentage; a malformed or failed calibration line is an error
    /// and leaves the state alone; any other line is ignored and
    /// reports the unchanged percentage.
    pub fn parse(&mut self, line: &str) -> (r: Result<u32, CalibrationError>)
        ensures
            ({
                let t = text::trim_spec(line@);
                match progress_of(t) {
                    Some(p) => {
                        &&& r is Ok
                        &&& r.unwrap() == p
                        &&& final(self)@.percent == p
                        &&& final(self)@.done == (old(self)@.done || p == 100)
                    },
                    None => {
                        &&& final(self)@ == old(self)@
                        &&& (r is Err <==> is_bad_calibration_line(t))
                        &&& (r is Ok ==> r.unwrap() == old(self)@.percent)
                        &&& (r is Err ==> (r->Err_0 matches CalibrationError::Invalid(m)
                            && m@ == text::key_value(t, "calibration:"@)))
                    },
                }
            }),
    {
        let t = text::trim(line);
        match text::key_value_of(t, "calibration:") {
            Some(val) => {
                match text::parse_u32(val) {
                    Some(p) => {
                        if p <= 100 {
                            self.percent = p;
                            if p == 100 {
                                self.done = true;
                            }
                            Ok(p)
                        } else {
                            Err(CalibrationError::Invalid(val.to_owned()))
                        }
                    },
                    None => {
                        proof {
                            if text::all_digits(val@) && val@.len() > 0 && text::dec_value(val@)
                                <= 100 {
                                assert(text::dec_value(val@) <= u32::MAX);
                            }
                        }
                        Err(CalibrationError::Invalid(val.to_owned()))
                    },
                }
            },
            None => Ok(self.percent),
        }
    }

    /// Whether the device has reported completion.
    pub fn is_done(&self) -> (r: bool)
        ensures
            r == self@.done,
    {
        self.done
    }

    /// The last reported percentage.
    pub fn percent(&self) -> (r: u32)
        ensures
            r == self@.percent,
    {
        self.percent
    }
}

} // verus!
