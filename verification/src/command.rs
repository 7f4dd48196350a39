//! Commands sent to the motor controller and their wire encoding.
//!
//! Each `to_string` method maps a semantic command and the current
//! [`MotorState`] to the wire line, terminator included, or to `None`
//! when the command is illegal in that state. The legality rules are the
//! `legal_in` spec functions; the encodings are the `line_spec` spec
//! functions; the methods' contracts tie both down exactly.

use vstd::prelude::*;
use vstd::string::StringExecFns;
use crate::MotorState;
use crate::decimal::Decimal;
use crate::line_assembler;
use crate::text;

verus! {

/// Feedback-channel selection commands; legal in every state.
pub enum MotorFeedbackCommand {
    GetSpeed,
    GetPosition,
    GetCurrent,
    GetUdc,
    GetConfig,
    GetNone,
}

impl MotorFeedbackCommand {
    pub open spec fn line_spec(self) -> Seq<char> {
        match self {
            MotorFeedbackCommand::GetSpeed => "get_speed\r\n"@,
            MotorFeedbackCommand::GetPosition => "get_position\r\n"@,
            MotorFeedbackCommand::GetCurrent => "get_current\r\n"@,
            MotorFeedbackCommand::GetUdc => "get_udc\r\n"@,
            MotorFeedbackCommand::GetConfig => "get_config\r\n"@,
            MotorFeedbackCommand::GetNone => "get_none\r\n"@,
        }
    }

    /// Wire line for this command, terminator included.
    pub fn to_string(&self) -> (r: String)
        ensures
            r@ == self.line_spec(),
    {
        match self {
            MotorFeedbackCommand::GetSpeed => "get_speed\r\n".to_owned(),
            MotorFeedbackCommand::GetPosition => "get_position\r\n".to_owned(),
            MotorFeedbackCommand::GetCurrent => "get_current\r\n".to_owned(),
            MotorFeedbackCommand::GetUdc => "get_udc\r\n".to_owned(),
            MotorFeedbackCommand::GetConfig => "get_config\r\n".to_owned(),
            MotorFeedbackCommand::GetNone => "get_none\r\n".to_owned(),
        }
    }
}

/// Run commands; `Stop` is always legal, the others only while stopped or
/// in a debug run.
pub enum MotorRunCommand {
    SetSpeed(Decimal),
    SetPosition(Decimal),
    Stop,
}

impl MotorRunCommand {
    pub open spec fn legal_in(&self, state: MotorState) -> bool {
        match self {
            MotorRunCommand::SetSpeed(_) => state == MotorState::Stop || state
                == MotorState::DebugRun,
            MotorRunCommand::SetPosition(_) => state == MotorState::Stop || state
                == MotorState::DebugRun,
            MotorRunCommand::Stop => true,
        }
    }

    pub open spec fn line_spec(&self) -> Seq<char> {
        match self {
            MotorRunCommand::SetSpeed(v) => "set_speed "@ + v@ + "\r\n"@,
            MotorRunCommand::SetPosition(v) => "set_position "@ + v@ + "\r\n"@,
            MotorRunCommand::Stop => "stop\r\n"@,
        }
    }

    /// Wire line for this command, or `None` when it is illegal in `state`.
    pub fn to_string(&self, state: &MotorState) -> (r: Option<String>)
        ensures
            r is Some <==> self.legal_in(*state),
            r is Some ==> r.unwrap()@ == self.line_spec(),
    {
        match self {
            MotorRunCommand::SetSpeed(v) => {
                match state {
                    MotorState::Stop | MotorState::DebugRun => {
                        let mut line = "set_speed ".to_owned();
                        line.append(v.as_text());
                        line.append("\r\n");
                        Some(line)
                    },
                    _ => None,
                }
            },
            MotorRunCommand::SetPosition(v) => {
                match state {
                    MotorState::Stop | MotorState::DebugRun => {
                        let mut line = "set_position ".to_owned();
                        line.append(v.as_text());
                        line.append("\r\n");
                        Some(line)
                    },
                    _ => None,
                }
            },
            MotorRunCommand::Stop => Some("stop\r\n".to_owned()),
        }
    }
}

/// Configuration commands; legal only while stopped, and the PID / PI
/// ones additionally demand a positive `output_max`.
pub enum MotorConfigCommand {
    ConfigPositionPid { kp: Decimal, ki: Decimal, kd: Decimal, output_max: Decimal },
    ConfigSpeedPi { kp: Decimal, ki: Decimal, output_max: Decimal },
    ConfigCurrentPi { kp: Decimal, ki: Decimal },
    ConfigIdqFilter(Decimal),
    ConfigEncoder { pole_pairs: u32, encoder_direct: i32, encoder_offset: Decimal, encoder_type: String },
    ConfigId(u8),
    ConfigUdc(Decimal),
    Save,
}

impl MotorConfigCommand {
    pub open spec fn legal_in(&self, state: MotorState) -> bool {
        match self {
            MotorConfigCommand::ConfigPositionPid { output_max, .. } => {
                !text::is_nonpositive_decimal(output_max@) && state == MotorState::Stop
            },
            MotorConfigCommand::ConfigSpeedPi { output_max, .. } => {
                !text::is_nonpositive_decimal(output_max@) && state == MotorState::Stop
            },
            _ => state == MotorState::Stop,
        }
    }

    pub open spec fn line_spec(&self) -> Seq<char> {
        match self {
            MotorConfigCommand::ConfigPositionPid { kp, ki, kd, output_max } => {
                "config_position_pid "@ + kp@ + " "@ + ki@ + " "@ + kd@ + " "@ + output_max@
                    + "\r\n"@
            },
            MotorConfigCommand::ConfigSpeedPi { kp, ki, output_max } => {
                "config_speed_pi "@ + kp@ + " "@ + ki@ + " "@ + output_max@ + "\r\n"@
            },
            MotorConfigCommand::ConfigCurrentPi { kp, ki } => {
                "config_current_pi "@ + kp@ + " "@ + ki@ + "\r\n"@
            },
            MotorConfigCommand::ConfigIdqFilter(fc) => "config_idq_filter "@ + fc@ + "\r\n"@,
            MotorConfigCommand::ConfigEncoder {
                pole_pairs,
                encoder_direct,
                encoder_offset,
                encoder_type,
            } => {
                "config_encoder "@ + text::u32_text(*pole_pairs as int) + " "@ + text::i32_text(
                    *encoder_direct as int,
                ) + " "@ + encoder_offset@ + " "@ + encoder_type@ + "\r\n"@
            },
            MotorConfigCommand::ConfigId(id) => "config_id "@ + text::u32_text(*id as int)
                + "\r\n"@,
            MotorConfigCommand::ConfigUdc(udc) => "config_udc "@ + udc@ + "\r\n"@,
            MotorConfigCommand::Save => "save\r\n"@,
        }
    }

    /// Wire line for this command, or `None` when it is illegal in `state`
    /// or carries a non-positive `output_max`.
    pub fn to_string(&self, state: &MotorState) -> (r: Option<String>)
        ensures
            r is Some <==> self.legal_in(*state),
            r is Some ==> r.unwrap()@ == self.line_spec(),
    {
        match self {
            MotorConfigCommand::ConfigPositionPid { kp, ki, kd, output_max } => {
                if output_max.nonpositive() {
                    None
                } else {
                    match state {
                        MotorState::Stop => {
                            let mut line = "config_position_pid ".to_owned();
                            line.append(kp.as_text());
                            line.append(" ");
                            line.append(ki.as_text());
                            line.append(" ");
                            line.append(kd.as_text());
                            line.append(" ");
                            line.append(output_max.as_text());
                            line.append("\r\n");
                            Some(line)
                        },
                        _ => None,
                    }
                }
            },
            MotorConfigCommand::ConfigSpeedPi { kp, ki, output_max } => {
                if output_max.nonpositive() {
                    None
                } else {
                    match state {
                        MotorState::Stop => {
                            let mut line = "config_speed_pi ".to_owned();
                            line.append(kp.as_text());
                            line.append(" ");
                            line.append(ki.as_text());
                            line.append(" ");
                            line.append(output_max.as_text());
                            line.append("\r\n");
                            Some(line)
                        },
                        _ => None,
                    }
                }
            },
            MotorConfigCommand::ConfigCurrentPi { kp, ki } => {
                match state {
                    MotorState::Stop => {
                        let mut line = "config_current_pi ".to_owned();
                        line.append(kp.as_text());
                        line.append(" ");
                        line.append(ki.as_text());
                        line.append("\r\n");
                        Some(line)
                    },
                    _ => None,
                }
            },
            MotorConfigCommand::ConfigIdqFilter(fc) => {
                match state {
                    MotorState::Stop => {
                        let mut line = "config_idq_filter ".to_owned();
                        line.append(fc.as_text());
                        line.append("\r\n");
                        Some(line)
                    },
                    _ => None,
                }
            },
            MotorConfigCommand::ConfigEncoder {
                pole_pairs,
                encoder_direct,
                encoder_offset,
                encoder_type,
            } => {
                match state {
                    MotorState::Stop => {
                        let mut line = "config_encoder ".to_owned();
                        let pp = text::u32_to_string(*pole_pairs);
                        line.append(pp.as_str());
                        line.append(" ");
                        let dir = text::i32_to_string(*encoder_direct);
                        line.append(dir.as_str());
                        line.append(" ");
                        line.append(encoder_offset.as_text());
                        line.append(" ");
                        line.append(encoder_type.as_str());
                        line.append("\r\n");
                        Some(line)
                    },
                    _ => None,
                }
            },
            MotorConfigCommand::ConfigId(id) => {
                match state {
                    MotorState::Stop => {
                        let mut line = "config_id ".to_owned();
                        let idt = text::u32_to_string(*id as u32);
                        line.append(idt.as_str());
                        line.append("\r\n");
                        Some(line)
                    },
                    _ => None,
                }
            },
            MotorConfigCommand::ConfigUdc(udc) => {
                match state {
                    MotorState::Stop => {
                        let mut line = "config_udc ".to_owned();
                        line.append(udc.as_text());
                        line.append("\r\n");
                        Some(line)
                    },
                    _ => None,
                }
            },
            MotorConfigCommand::Save => {
                match state {
                    MotorState::Stop => Some("save\r\n".to_owned()),
                    _ => None,
                }
            },
        }
    }
}

/// No character of a well-formed decimal is part of a terminator or is
/// whitespace.
proof fn lemma_decimal_no_specials(s: Seq<char>)
    requires
        text::is_decimal(s),
    ensures
        forall|i: int| 0 <= i < s.len() ==> (#[trigger] s[i]) != '\r' && s[i] != '\n' && !text::is_space(s[i]),
{
    text::lemma_decimal_chars(s);
}

/// Round trip of an encoded position-PID configuration command through
/// line reassembly: the encoder emits one terminated line, and feeding
/// exactly that line to a fresh assembler broadcasts the identical line
/// (terminator removed) and leaves nothing buffered.
pub proof fn lemma_position_pid_roundtrip(cmd: &MotorConfigCommand)
    requires
        cmd matches MotorConfigCommand::ConfigPositionPid { kp, ki, kd, output_max } && kp.wf()
            && ki.wf() && kd.wf() && output_max.wf() && !text::is_nonpositive_decimal(
            output_max@,
        ),
    ensures
        cmd.legal_in(MotorState::Stop),
        line_assembler::broadcast_lines(cmd.line_spec()) == seq![
            cmd.line_spec().subrange(0, cmd.line_spec().len() - 2),
        ],
        line_assembler::rest_after(cmd.line_spec()) == Seq::<char>::empty(),
{
    reveal_strlit("config_position_pid ");
    reveal_strlit(" ");
    reveal_strlit("\r\n");
    let kp = cmd->ConfigPositionPid_kp;
    let ki = cmd->ConfigPositionPid_ki;
    let kd = cmd->ConfigPositionPid_kd;
    let om = cmd->ConfigPositionPid_output_max;
    lemma_decimal_no_specials(kp@);
    lemma_decimal_no_specials(ki@);
    lemma_decimal_no_specials(kd@);
    lemma_decimal_no_specials(om@);
    text::lemma_decimal_last_digit(om@);
    let p = "config_position_pid "@;
    assert(forall|j: int| 0 <= j < p.len() ==> (#[trigger] p[j]) != '\r' && p[j] != '\n');
    let line = cmd.line_spec();
    let n = line.len() as int;
    let body = line.subrange(0, n - 2);
    assert(line[n - 2] == '\r' && line[n - 1] == '\n');
    assert(forall|k: int| 0 <= k < n - 2 ==> !((#[trigger] line[k]) == '\r' && line[k + 1]
        == '\n'));
    line_assembler::lemma_first_terminator_is(line, n - 2);
    assert(body[0] == 'c');
    assert(body[body.len() - 1] == om@[om@.len() - 1]);
    text::lemma_trim_id(body);
    let after = line.subrange(n - 2 + 2, n);
    assert(after =~= Seq::<char>::empty());
    assert(line_assembler::first_terminator(after) == -1);
    assert(line_assembler::broadcast_lines(after) =~= Seq::<Seq<char>>::empty());
    assert(line_assembler::rest_after(after) =~= Seq::<char>::empty());
    assert(line_assembler::broadcast_lines(line) =~= seq![body] + Seq::<Seq<char>>::empty());
    assert(line_assembler::broadcast_lines(line) =~= seq![body]);
    assert(line_assembler::rest_after(line) =~= Seq::<char>::empty());
}

/// The calibration trigger; legal only while stopped.
pub enum MotorCalibrationCommand {
    Calibration,
}

impl MotorCalibrationCommand {
    pub open spec fn legal_in(&self, state: MotorState) -> bool {
        state == MotorState::Stop
    }

    pub open spec fn line_spec(&self) -> Seq<char> {
        "calibration\r\n"@
    }

    /// Wire line for the trigger, or `None` outside the Stop state.
    pub fn to_string(&self, state: &MotorState) -> (r: Option<String>)
        ensures
            r is Some <==> self.legal_in(*state),
            r is Some ==> r.unwrap()@ == self.line_spec(),
    {
        match self {
            MotorCalibrationCommand::Calibration => {
                match state {
                    MotorState::Stop => Some("calibration\r\n".to_owned()),
                    _ => None,
                }
            },
        }
    }
}

} // verus!
