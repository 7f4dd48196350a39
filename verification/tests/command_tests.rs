use motorctl::MotorState;
use motorctl::command::{MotorCalibrationCommand, MotorConfigCommand, MotorFeedbackCommand, MotorRunCommand};
use motorctl::decimal::Decimal;

fn dec(s: &str) -> Decimal {
    Decimal::from_text(s.to_string()).unwrap()
}

fn all_states() -> [MotorState; 5] {
    [MotorState::Stop, MotorState::DebugRun, MotorState::Run, MotorState::Test, MotorState::Fault]
}

#[test]
fn feedback_commands_have_fixed_lines() {
    assert_eq!(MotorFeedbackCommand::GetSpeed.to_string(), "get_speed\r\n");
    assert_eq!(MotorFeedbackCommand::GetPosition.to_string(), "get_position\r\n");
    assert_eq!(MotorFeedbackCommand::GetCurrent.to_string(), "get_current\r\n");
    assert_eq!(MotorFeedbackCommand::GetUdc.to_string(), "get_udc\r\n");
    assert_eq!(MotorFeedbackCommand::GetConfig.to_string(), "get_config\r\n");
    assert_eq!(MotorFeedbackCommand::GetNone.to_string(), "get_none\r\n");
}

#[test]
fn run_command_legality_table() {
    for state in all_states() {
        let movable = matches!(state, MotorState::Stop | MotorState::DebugRun);
        let speed = MotorRunCommand::SetSpeed(dec("1200.0"));
        let position = MotorRunCommand::SetPosition(dec("-3.5"));
        let stop = MotorRunCommand::Stop;
        assert_eq!(speed.to_string(&state).is_some(), movable);
        assert_eq!(position.to_string(&state).is_some(), movable);
        assert!(stop.to_string(&state).is_some());
    }
}

#[test]
fn run_command_lines() {
    let s = MotorState::Stop;
    assert_eq!(
        MotorRunCommand::SetSpeed(dec("1200.0")).to_string(&s).unwrap(),
        "set_speed 1200.0\r\n"
    );
    assert_eq!(
        MotorRunCommand::SetPosition(dec("-3.5")).to_string(&s).unwrap(),
        "set_position -3.5\r\n"
    );
    assert_eq!(MotorRunCommand::Stop.to_string(&s).unwrap(), "stop\r\n");
}

#[test]
fn config_command_legality_table() {
    for state in all_states() {
        let stopped = matches!(state, MotorState::Stop);
        let pid = MotorConfigCommand::ConfigPositionPid {
            kp: dec("1.0"),
            ki: dec("0.1"),
            kd: dec("0.01"),
            output_max: dec("5.0"),
        };
        let pi = MotorConfigCommand::ConfigSpeedPi {
            kp: dec("2.0"),
            ki: dec("0.2"),
            output_max: dec("7.5"),
        };
        let cur = MotorConfigCommand::ConfigCurrentPi { kp: dec("0.5"), ki: dec("0.05") };
        let filt = MotorConfigCommand::ConfigIdqFilter(dec("100.0"));
        let enc = MotorConfigCommand::ConfigEncoder {
            pole_pairs: 7,
            encoder_direct: -1,
            encoder_offset: dec("0.25"),
            encoder_type: "MT6701".to_string(),
        };
        let id = MotorConfigCommand::ConfigId(3);
        let udc = MotorConfigCommand::ConfigUdc(dec("24.0"));
        let save = MotorConfigCommand::Save;
        assert_eq!(pid.to_string(&state).is_some(), stopped);
        assert_eq!(pi.to_string(&state).is_some(), stopped);
        assert_eq!(cur.to_string(&state).is_some(), stopped);
        assert_eq!(filt.to_string(&state).is_some(), stopped);
        assert_eq!(enc.to_string(&state).is_some(), stopped);
        assert_eq!(id.to_string(&state).is_some(), stopped);
        assert_eq!(udc.to_string(&state).is_some(), stopped);
        assert_eq!(save.to_string(&state).is_some(), stopped);
    }
}

#[test]
fn nonpositive_output_max_is_rejected_in_every_state() {
    for state in all_states() {
        for bad in ["0", "0.0", "-1.5", "-0.0", "00.00"] {
            let pid = MotorConfigCommand::ConfigPositionPid {
                kp: dec("1.0"),
                ki: dec("0.1"),
                kd: dec("0.01"),
                output_max: dec(bad),
            };
            let pi = MotorConfigCommand::ConfigSpeedPi {
                kp: dec("2.0"),
                ki: dec("0.2"),
                output_max: dec(bad),
            };
            assert!(pid.to_string(&state).is_none());
            assert!(pi.to_string(&state).is_none());
        }
    }
}

#[test]
fn config_command_lines() {
    let s = MotorState::Stop;
    let pid = MotorConfigCommand::ConfigPositionPid {
        kp: dec("1.0"),
        ki: dec("0.1"),
        kd: dec("0.01"),
        output_max: dec("5.0"),
    };
    assert_eq!(pid.to_string(&s).unwrap(), "config_position_pid 1.0 0.1 0.01 5.0\r\n");
    let pi = MotorConfigCommand::ConfigSpeedPi {
        kp: dec("2.0"),
        ki: dec("0.2"),
        output_max: dec("7.5"),
    };
    assert_eq!(pi.to_string(&s).unwrap(), "config_speed_pi 2.0 0.2 7.5\r\n");
    let cur = MotorConfigCommand::ConfigCurrentPi { kp: dec("0.5"), ki: dec("0.05") };
    assert_eq!(cur.to_string(&s).unwrap(), "config_current_pi 0.5 0.05\r\n");
    assert_eq!(
        MotorConfigCommand::ConfigIdqFilter(dec("100.0")).to_string(&s).unwrap(),
        "config_idq_filter 100.0\r\n"
    );
    let enc = MotorConfigCommand::ConfigEncoder {
        pole_pairs: 7,
        encoder_direct: -1,
        encoder_offset: dec("0.25"),
        encoder_type: "MT6701".to_string(),
    };
    assert_eq!(enc.to_string(&s).unwrap(), "config_encoder 7 -1 0.25 MT6701\r\n");
    assert_eq!(MotorConfigCommand::ConfigId(3).to_string(&s).unwrap(), "config_id 3\r\n");
    assert_eq!(
        MotorConfigCommand::ConfigUdc(dec("24.0")).to_string(&s).unwrap(),
        "config_udc 24.0\r\n"
    );
    assert_eq!(MotorConfigCommand::Save.to_string(&s).unwrap(), "save\r\n");
}

#[test]
fn calibration_legality_table() {
    for state in all_states() {
        let stopped = matches!(state, MotorState::Stop);
        let line = MotorCalibrationCommand::Calibration.to_string(&state);
        assert_eq!(line.is_some(), stopped);
        if let Some(line) = line {
            assert_eq!(line, "calibration\r\n");
        }
    }
}

#[test]
fn state_names() {
    assert_eq!(MotorState::Stop.name(), "Stop");
    assert_eq!(MotorState::DebugRun.name(), "DebugRun");
    assert_eq!(MotorState::Run.name(), "Run");
    assert_eq!(MotorState::Test.name(), "Test");
    assert_eq!(MotorState::Fault.name(), "Fault");
}
