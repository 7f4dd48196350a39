use motorctl::MotorState;
use motorctl::command::MotorConfigCommand;
use motorctl::decimal::Decimal;
use motorctl::line_assembler::LineAssembler;

fn dec(s: &str) -> Decimal {
    Decimal::from_text(s.to_string()).unwrap()
}

#[test]
fn fragmented_line_is_reassembled() {
    let mut machine = LineAssembler::new();
    assert!(machine.feed("spe").is_empty());
    let lines = machine.feed("ed: 1.5\r\n");
    assert_eq!(lines, vec!["speed: 1.5".to_string()]);
    assert_eq!(machine.pending(), "");
}

#[test]
fn several_lines_in_one_chunk() {
    let mut machine = LineAssembler::new();
    let lines = machine.feed("a: 1\r\nb: 2\r\npartial");
    assert_eq!(lines, vec!["a: 1".to_string(), "b: 2".to_string()]);
    assert_eq!(machine.pending(), "partial");
    let more = machine.feed("\r\n");
    assert_eq!(more, vec!["partial".to_string()]);
    assert_eq!(machine.pending(), "");
}

#[test]
fn empty_lines_are_not_broadcast() {
    let mut machine = LineAssembler::new();
    let lines = machine.feed("\r\n   \r\nx\r\n\r\n");
    assert_eq!(lines, vec!["x".to_string()]);
}

#[test]
fn lines_are_trimmed() {
    let mut machine = LineAssembler::new();
    let lines = machine.feed("  udc: 24.0  \r\n");
    assert_eq!(lines, vec!["udc: 24.0".to_string()]);
}

#[test]
fn terminator_split_across_chunks() {
    let mut machine = LineAssembler::new();
    assert!(machine.feed("x\r").is_empty());
    assert_eq!(machine.pending(), "x\r");
    assert_eq!(machine.feed("\ny"), vec!["x".to_string()]);
    assert_eq!(machine.pending(), "y");
}

#[test]
fn encoded_command_round_trips_through_reassembly() {
    let cmd = MotorConfigCommand::ConfigPositionPid {
        kp: dec("1.0"),
        ki: dec("0.1"),
        kd: dec("0.01"),
        output_max: dec("5.0"),
    };
    let line = cmd.to_string(&MotorState::Stop).unwrap();
    let mut machine = LineAssembler::new();
    let out = machine.feed(&line);
    assert_eq!(out.len(), 1);
    assert_eq!(format!("{}\r\n", out[0]), line);
    assert_eq!(machine.pending(), "");
}
