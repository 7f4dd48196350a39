use motorctl::MotorState;
use motorctl::command::{MotorConfigCommand, MotorRunCommand};
use motorctl::config_parser::ConfigParser;
use motorctl::decimal::Decimal;
use motorctl::error::MotorError;
use motorctl::feedback::MotorFeedbackState;
use motorctl::motor_core::MotorCore;

fn dec(s: &str) -> Decimal {
    Decimal::from_text(s.to_string()).unwrap()
}

fn full_dump() -> Vec<&'static str> {
    vec![
        "id: 3",
        "udc: 24.0",
        "idq_filter_fc: 100.0",
        "position_pid:",
        "Kp: 1.0",
        "Ki: 0.1",
        "Kd: 0.01",
        "maxoutput: 5.0",
        "speed_pi:",
        "Kp: 2.0",
        "Ki: 0.2",
        "maxoutput: 7.5",
        "i_pi:",
        "id_Kp: 0.5",
        "id_Ki: 0.05",
        "iq_Kp: 0.6",
        "iq_Ki: 0.06",
        "encoder:",
        "pole_pairs: 7",
        "encoder_direct: -1",
        "encoder_offset: 0.25",
        "encoder_type: MT6701",
    ]
}

#[test]
fn fresh_core_is_stopped_and_saved() {
    let core = MotorCore::new();
    assert_eq!(core.state(), MotorState::Stop);
    assert_eq!(core.feedback(), MotorFeedbackState::Off);
    assert!(!core.unsaved());
    assert!(core.config_ref().is_none());
}

#[test]
fn set_speed_from_stop_enters_debug_run_streaming_speed() {
    let mut core = MotorCore::new();
    let cmd = MotorRunCommand::SetSpeed(dec("1200.0"));
    let line = core.run_command_line(&cmd).unwrap();
    assert_eq!(line, "set_speed 1200.0\r\n");
    core.apply_run_command(&cmd);
    assert_eq!(core.state(), MotorState::DebugRun);
    assert_eq!(core.feedback(), MotorFeedbackState::Speed);
}

#[test]
fn set_position_forces_position_feedback() {
    let mut core = MotorCore::new();
    let cmd = MotorRunCommand::SetPosition(dec("90.0"));
    core.run_command_line(&cmd).unwrap();
    core.apply_run_command(&cmd);
    assert_eq!(core.state(), MotorState::DebugRun);
    assert_eq!(core.feedback(), MotorFeedbackState::Position);
    let stop = MotorRunCommand::Stop;
    core.run_command_line(&stop).unwrap();
    core.apply_run_command(&stop);
    assert_eq!(core.state(), MotorState::Stop);
    assert_eq!(core.feedback(), MotorFeedbackState::Off);
}

#[test]
fn run_command_refused_outside_stop_and_debug_run() {
    let mut core = MotorCore::new();
    core.run_command_line(&MotorRunCommand::Stop).unwrap();
    core.begin_calibration();
    let err = core.run_command_line(&MotorRunCommand::SetSpeed(dec("1.0"))).unwrap_err();
    assert!(matches!(err, MotorError::InvalidState(_)));
    assert_eq!(err.message(), "invalid state: cannot send command in current state");
}

#[test]
fn config_command_marks_unsaved() {
    let mut core = MotorCore::new();
    let cmd = MotorConfigCommand::ConfigUdc(dec("24.0"));
    let line = core.config_command_line(&cmd).unwrap();
    assert_eq!(line, "config_udc 24.0\r\n");
    core.mark_unsaved();
    assert!(core.unsaved());
}

#[test]
fn save_is_a_no_op_when_nothing_is_unsaved() {
    let core = MotorCore::new();
    assert!(core.save_command_line().unwrap().is_none());
}

#[test]
fn save_sends_and_clears_the_flag() {
    let mut core = MotorCore::new();
    core.mark_unsaved();
    let line = core.save_command_line().unwrap().unwrap();
    assert_eq!(line, "save\r\n");
    core.mark_saved();
    assert!(!core.unsaved());
    assert!(core.save_command_line().unwrap().is_none());
}

#[test]
fn save_refused_while_not_stopped() {
    let mut core = MotorCore::new();
    core.mark_unsaved();
    core.begin_calibration();
    assert!(matches!(core.save_command_line(), Err(MotorError::InvalidState(_))));
}

#[test]
fn calibration_round_trip_ends_in_stop_and_unsaved() {
    // Whatever the exchange's outcome — completion, a device-reported
    // error, or no usable reply at all — the commits around it are the
    // same and the core ends stopped with the configuration unsaved.
    let outcomes: [&[&str]; 3] = [
        &["calibration: 50", "calibration: 100"],
        &["calibration: 50", "calibration: error"],
        &[],
    ];
    for device_lines in outcomes {
        let mut core = MotorCore::new();
        let line = core.calibration_line().unwrap();
        assert_eq!(line, "calibration\r\n");
        core.begin_calibration();
        assert_eq!(core.state(), MotorState::Test);
        let mut parser = motorctl::calibration::CalibrationParser::new();
        let mut failed = false;
        for l in device_lines {
            if parser.parse(l).is_err() {
                failed = true;
                break;
            }
        }
        let timed_out = !failed && !parser.is_done();
        core.finish_calibration();
        assert_eq!(core.state(), MotorState::Stop);
        assert!(core.unsaved());
        // exactly one outcome class per scenario
        assert_eq!(parser.is_done(), !failed && !timed_out);
    }
}

#[test]
fn calibration_refused_outside_stop() {
    let mut core = MotorCore::new();
    core.begin_calibration();
    let err = core.calibration_line().unwrap_err();
    assert!(matches!(err, MotorError::InvalidState(_)));
    assert_eq!(err.message(), "invalid state: cannot calibration in current state");
}

#[test]
fn feedback_selection_is_single_flight() {
    let mut core = MotorCore::new();
    assert!(core.set_feedback_line(MotorFeedbackState::Off).is_none());
    let line = core.set_feedback_line(MotorFeedbackState::Udc).unwrap();
    assert_eq!(line, "get_udc\r\n");
    core.commit_feedback(MotorFeedbackState::Udc);
    assert!(core.set_feedback_line(MotorFeedbackState::Udc).is_none());
    assert_eq!(core.set_feedback_line(MotorFeedbackState::Off).unwrap(), "get_none\r\n");
}

#[test]
fn config_load_stores_the_snapshot() {
    let mut core = MotorCore::new();
    assert_eq!(core.config_request_line(), "get_config\r\n");
    core.commit_feedback(MotorFeedbackState::Off);
    let mut parser = ConfigParser::new();
    for line in full_dump() {
        parser.parse_line(line);
    }
    assert!(parser.is_complete());
    let cfg = parser.try_into_motor_config().unwrap();
    core.store_config(cfg);
    let stored = core.config_ref().unwrap();
    assert_eq!(stored.id, 3);
    assert_eq!(stored.udc.as_text(), "24.0");
}

#[test]
fn timeout_error_message() {
    assert_eq!(MotorError::Timeout.message(), "timeout");
    assert_eq!(
        MotorError::SerialError("port gone".to_string()).message(),
        "serial port error: port gone"
    );
    assert_eq!(MotorError::ParseError("bad".to_string()).message(), "parse error: bad");
    assert_eq!(
        MotorError::FaultDetected("overcurrent".to_string()).message(),
        "fault detected: overcurrent"
    );
}
