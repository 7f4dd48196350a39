use motorctl::feedback::{
    disconnect_sentinel, parse_feedback_line, FeedbackLine, MotorFeedbackState, Timestamped,
};

#[test]
fn speed_line_parses_under_speed_mode() {
    match parse_feedback_line(MotorFeedbackState::Speed, "speed: 1.5") {
        FeedbackLine::Speed(v) => assert_eq!(v.as_text(), "1.5"),
        _ => panic!("expected a speed sample"),
    }
}

#[test]
fn position_line_parses_under_position_mode() {
    match parse_feedback_line(MotorFeedbackState::Position, "position: -90.25") {
        FeedbackLine::Position(v) => assert_eq!(v.as_text(), "-90.25"),
        _ => panic!("expected a position sample"),
    }
}

#[test]
fn udc_line_parses_under_udc_mode() {
    match parse_feedback_line(MotorFeedbackState::Udc, "udc: 24.0") {
        FeedbackLine::Udc(v) => assert_eq!(v.as_text(), "24.0"),
        _ => panic!("expected a udc sample"),
    }
}

#[test]
fn iabc_line_parses_under_current_mode() {
    match parse_feedback_line(MotorFeedbackState::Current, "iabc:0.1,-0.2,0.3") {
        FeedbackLine::Current(a, b, c) => {
            assert_eq!(a.as_text(), "0.1");
            assert_eq!(b.as_text(), "-0.2");
            assert_eq!(c.as_text(), "0.3");
        },
        _ => panic!("expected a current sample"),
    }
}

#[test]
fn mismatched_line_is_skipped_not_fatal() {
    assert!(matches!(
        parse_feedback_line(MotorFeedbackState::Speed, "position: 1.0"),
        FeedbackLine::Ignored
    ));
    assert!(matches!(
        parse_feedback_line(MotorFeedbackState::Speed, "speed: abc"),
        FeedbackLine::Ignored
    ));
    assert!(matches!(
        parse_feedback_line(MotorFeedbackState::Current, "iabc:1.0,2.0"),
        FeedbackLine::Ignored
    ));
    assert!(matches!(
        parse_feedback_line(MotorFeedbackState::Off, "speed: 1.0"),
        FeedbackLine::Ignored
    ));
    assert!(matches!(
        parse_feedback_line(MotorFeedbackState::Speed, "   "),
        FeedbackLine::Ignored
    ));
}

#[test]
fn sentinel_reports_disconnect_in_every_mode() {
    for mode in [
        MotorFeedbackState::Off,
        MotorFeedbackState::Speed,
        MotorFeedbackState::Position,
        MotorFeedbackState::Current,
        MotorFeedbackState::Udc,
    ] {
        assert!(matches!(
            parse_feedback_line(mode, disconnect_sentinel()),
            FeedbackLine::Disconnected
        ));
    }
}

#[test]
fn sentinel_never_collides_with_protocol_lines() {
    let s = disconnect_sentinel();
    assert_eq!(s, "__DISCONNECTED__");
    assert!(!s.contains(':'));
}

#[test]
fn timestamped_keeps_value_and_kind() {
    let before = std::time::SystemTime::now()
        .duration_since(std::time::UNIX_EPOCH)
        .unwrap()
        .as_millis() as u64;
    let t = Timestamped::new(1.5f32, "speed".to_string());
    let after = std::time::SystemTime::now()
        .duration_since(std::time::UNIX_EPOCH)
        .unwrap()
        .as_millis() as u64;
    assert_eq!(t.value, 1.5f32);
    assert_eq!(t.kind, "speed");
    assert!(t.timestamp >= before && t.timestamp <= after);
}
