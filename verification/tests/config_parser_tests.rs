use motorctl::config_parser::{ConfigParser, EncoderDirection, EncoderType, MotorConfig};

fn full_dump() -> Vec<&'static str> {
    vec![
        "id: 3",
        "udc: 24.0",
        "idq_filter_fc: 100.0",
        "position_pid:",
        "Kp: 1.0",
        "Ki: 0.1",
        "Kd: 0.01",
        "maxoutput: 5.0",
        "speed_pi:",
        "Kp: 2.0",
        "Ki: 0.2",
        "maxoutput: 7.5",
        "i_pi:",
        "id_Kp: 0.5",
        "id_Ki: 0.05",
        "iq_Kp: 0.6",
        "iq_Ki: 0.06",
        "encoder:",
        "pole_pairs: 7",
        "encoder_direct: -1",
        "encoder_offset: 0.25",
        "encoder_type: MT6701",
    ]
}

fn parse_lines(lines: &[&str]) -> ConfigParser {
    let mut p = ConfigParser::new();
    for line in lines {
        p.parse_line(line);
    }
    p
}

fn assert_expected_values(c: &MotorConfig) {
    assert_eq!(c.id, 3);
    assert_eq!(c.udc.as_text(), "24.0");
    assert_eq!(c.fc.as_text(), "100.0");
    assert_eq!(c.position_pid.kp.as_text(), "1.0");
    assert_eq!(c.position_pid.ki.as_text(), "0.1");
    assert_eq!(c.position_pid.kd.as_text(), "0.01");
    assert_eq!(c.position_pid.output_max.as_text(), "5.0");
    assert_eq!(c.speed_pi.kp.as_text(), "2.0");
    assert_eq!(c.speed_pi.ki.as_text(), "0.2");
    assert_eq!(c.speed_pi.output_max.as_text(), "7.5");
    assert_eq!(c.current_id_pi.kp.as_text(), "0.5");
    assert_eq!(c.current_id_pi.ki.as_text(), "0.05");
    assert_eq!(c.current_iq_pi.kp.as_text(), "0.6");
    assert_eq!(c.current_iq_pi.ki.as_text(), "0.06");
    assert_eq!(c.encoder_config.pole_pairs, 7);
    assert_eq!(c.encoder_config.encoder_direction, EncoderDirection::Reverse);
    assert_eq!(c.encoder_config.encoder_offset.as_text(), "0.25");
    assert_eq!(c.encoder_config.encoder_type, EncoderType::MT6701);
}

#[test]
fn full_dump_completes_and_converts() {
    let lines = full_dump();
    let mut p = ConfigParser::new();
    for (i, line) in lines.iter().enumerate() {
        if i + 1 < lines.len() {
            p.parse_line(line);
            if i + 1 < lines.len() - 1 {
                // completeness only at the very last key
                assert!(!p.is_complete(), "complete too early after {line}");
            }
        }
    }
    p.parse_line(lines[lines.len() - 1]);
    assert!(p.is_complete());
    let c = p.try_into_motor_config().unwrap();
    assert_expected_values(&c);
}

#[test]
fn section_blocks_in_any_order_complete() {
    let top = ["id: 3", "udc: 24.0", "idq_filter_fc: 100.0"];
    let position = ["position_pid:", "Kp: 1.0", "Ki: 0.1", "Kd: 0.01", "maxoutput: 5.0"];
    let speed = ["speed_pi:", "Kp: 2.0", "Ki: 0.2", "maxoutput: 7.5"];
    let ipi = ["i_pi:", "id_Kp: 0.5", "id_Ki: 0.05", "iq_Kp: 0.6", "iq_Ki: 0.06"];
    let encoder = [
        "encoder:",
        "pole_pairs: 7",
        "encoder_direct: -1",
        "encoder_offset: 0.25",
        "encoder_type: MT6701",
    ];
    let orders: [[&[&str]; 4]; 3] = [
        [&encoder, &ipi, &speed, &position],
        [&speed, &encoder, &position, &ipi],
        [&ipi, &position, &encoder, &speed],
    ];
    for order in orders {
        let mut lines: Vec<&str> = top.to_vec();
        for block in order {
            lines.extend_from_slice(block);
        }
        let p = parse_lines(&lines);
        assert!(p.is_complete());
        let c = p.try_into_motor_config().unwrap();
        assert_expected_values(&c);
    }
}

#[test]
fn keys_within_a_section_in_any_order() {
    let lines = [
        "udc: 24.0",
        "idq_filter_fc: 100.0",
        "id: 3",
        "position_pid:",
        "maxoutput: 5.0",
        "Kd: 0.01",
        "Ki: 0.1",
        "Kp: 1.0",
        "speed_pi:",
        "maxoutput: 7.5",
        "Ki: 0.2",
        "Kp: 2.0",
        "i_pi:",
        "iq_Ki: 0.06",
        "iq_Kp: 0.6",
        "id_Ki: 0.05",
        "id_Kp: 0.5",
        "encoder:",
        "encoder_type: MT6701",
        "encoder_offset: 0.25",
        "encoder_direct: -1",
        "pole_pairs: 7",
    ];
    let p = parse_lines(&lines);
    assert!(p.is_complete());
    let c = p.try_into_motor_config().unwrap();
    assert_expected_values(&c);
}

fn error_when_omitting(omitted: &str) -> &'static str {
    let lines: Vec<&str> = full_dump().into_iter().filter(|l| *l != omitted).collect();
    let p = parse_lines(&lines);
    assert!(!p.is_complete());
    p.try_into_motor_config().unwrap_err()
}

#[test]
fn each_missing_key_is_reported_specifically() {
    assert_eq!(error_when_omitting("id: 3"), "id missing");
    assert_eq!(error_when_omitting("udc: 24.0"), "udc missing");
    assert_eq!(error_when_omitting("idq_filter_fc: 100.0"), "idq_filter_fc missing");
    assert_eq!(error_when_omitting("Kp: 1.0"), "position_pid.kp missing");
    assert_eq!(error_when_omitting("Ki: 0.1"), "position_pid.ki missing");
    assert_eq!(error_when_omitting("Kd: 0.01"), "position_pid.kd missing");
    assert_eq!(error_when_omitting("maxoutput: 5.0"), "position_pid.maxoutput missing");
    assert_eq!(error_when_omitting("Kp: 2.0"), "speed_pi.kp missing");
    assert_eq!(error_when_omitting("Ki: 0.2"), "speed_pi.ki missing");
    assert_eq!(error_when_omitting("maxoutput: 7.5"), "speed_pi.maxoutput missing");
    assert_eq!(error_when_omitting("id_Kp: 0.5"), "i_pi.id_kp missing");
    assert_eq!(error_when_omitting("id_Ki: 0.05"), "i_pi.id_ki missing");
    assert_eq!(error_when_omitting("iq_Kp: 0.6"), "i_pi.iq_kp missing");
    assert_eq!(error_when_omitting("iq_Ki: 0.06"), "i_pi.iq_ki missing");
    assert_eq!(error_when_omitting("pole_pairs: 7"), "encoder.pole_pairs missing");
    assert_eq!(error_when_omitting("encoder_direct: -1"), "encoder.encoder_direct missing");
    assert_eq!(error_when_omitting("encoder_offset: 0.25"), "encoder.encoder_offset missing");
    assert_eq!(error_when_omitting("encoder_type: MT6701"), "encoder.encoder_type missing");
}

#[test]
fn invalid_encoder_type_is_rejected() {
    let lines: Vec<&str> = full_dump()
        .into_iter()
        .map(|l| if l == "encoder_type: MT6701" { "encoder_type: XYZ" } else { l })
        .collect();
    let p = parse_lines(&lines);
    assert!(p.is_complete());
    assert_eq!(p.try_into_motor_config().unwrap_err(), "invalid encoder_type");
}

#[test]
fn invalid_encoder_direction_is_rejected() {
    for bad in ["encoder_direct: 2", "encoder_direct: 0", "encoder_direct: -2"] {
        let lines: Vec<&str> = full_dump()
            .into_iter()
            .map(|l| if l == "encoder_direct: -1" { bad } else { l })
            .collect();
        let p = parse_lines(&lines);
        assert!(p.is_complete());
        assert_eq!(p.try_into_motor_config().unwrap_err(), "invalid encoder_direct");
    }
}

#[test]
fn direction_one_is_same() {
    let lines: Vec<&str> = full_dump()
        .into_iter()
        .map(|l| if l == "encoder_direct: -1" { "encoder_direct: 1" } else { l })
        .collect();
    let c = parse_lines(&lines).try_into_motor_config().unwrap();
    assert_eq!(c.encoder_config.encoder_direction, EncoderDirection::Same);
}

#[test]
fn repeated_key_takes_last_value() {
    let mut lines = full_dump();
    lines.push("encoder_offset: 0.5");
    let c = parse_lines(&lines).try_into_motor_config().unwrap();
    assert_eq!(c.encoder_config.encoder_offset.as_text(), "0.5");
}

#[test]
fn unknown_keys_and_malformed_values_are_ignored() {
    let mut lines = vec!["noise", "foo: bar", "id: notanumber", "udc: 1..2"];
    lines.extend(full_dump());
    lines.push("pole_pairs: many");
    let p = parse_lines(&lines);
    assert!(p.is_complete());
    let c = p.try_into_motor_config().unwrap();
    assert_expected_values(&c);
}

#[test]
fn default_parser_is_fresh() {
    let p = ConfigParser::default();
    assert!(!p.is_complete());
    assert_eq!(p.try_into_motor_config().unwrap_err(), "id missing");
}
