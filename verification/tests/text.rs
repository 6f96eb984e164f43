use deltax2::gcode::create_mv_command;
use deltax2::text::{has_ok_line, parse_position, PositionText};
use deltax2::Axis;

fn as_floats(p: Option<PositionText>) -> Option<(f32, f32, f32)> {
    p.map(|p| {
        (
            p.x.parse::<f32>().unwrap(),
            p.y.parse::<f32>().unwrap(),
            p.z.parse::<f32>().unwrap(),
        )
    })
}

#[test]
fn ok_matching_is_line_exact() {
    assert!(has_ok_line("ok\n"));
    assert!(has_ok_line("Ok\r\n"));
    assert!(has_ok_line("some report line\nok\n"));
    assert!(has_ok_line("ok")); // firmware without a trailing newline
    assert!(!has_ok_line("G0 X10.0000 FEEDBACK:ok\n")); // echoed command
    assert!(!has_ok_line("FEEDBACK:ok\n"));
    assert!(!has_ok_line("okay\n"));
    assert!(!has_ok_line(""));
}

#[test]
fn ok_line_tolerates_surrounding_whitespace_only() {
    assert!(has_ok_line("  OK \t\n"));
    assert!(has_ok_line("report\r\n oK\r\nmore"));
    assert!(has_ok_line("\u{a0}ok\u{3000}\n"));
    assert!(!has_ok_line("o k\n"));
    assert!(!has_ok_line("ok ok\n"));
    assert!(!has_ok_line("\n\n"));
}

#[test]
fn parse_position_reads_xyz_and_ignores_other_axes() {
    assert_eq!(
        as_floats(parse_position("X:10.5 Y:-20.0 Z:-150.0 W:1.0 U:2.0\n")),
        Some((10.5, -20.0, -150.0))
    );
    assert_eq!(
        as_floats(parse_position("  X:0 Y:0 Z:0  \n")),
        Some((0.0, 0.0, 0.0))
    );
}

#[test]
fn parse_position_rejects_incomplete_or_unrelated_lines() {
    assert!(parse_position("X:10.0 Y:5.0\n").is_none()); // no Z
    assert!(parse_position("ok\n").is_none());
    assert!(parse_position("").is_none());
    assert!(parse_position("X:foo Y:1 Z:2\n").is_none()); // X not numeric
}

#[test]
fn parse_position_takes_the_first_complete_triplet() {
    assert_eq!(
        as_floats(parse_position("Homing done\nX:1.0 Y:2.0 Z:3.0\n")),
        Some((1.0, 2.0, 3.0))
    );
}

#[test]
fn parse_position_lets_a_later_field_override_and_accepts_lower_case_keys() {
    let p = parse_position("x:1 X:4 y:2.5 z:-3e2\nX:9 Y:9 Z:9\n").unwrap();
    assert_eq!(p.x, "4");
    assert_eq!(p.y, "2.5");
    assert_eq!(p.z, "-3e2");
    // A field whose value is not a number does not override a number.
    let p = parse_position("X:1 X:abc Y:2 Z:3").unwrap();
    assert_eq!(p.x, "1");
}

#[test]
fn parse_position_number_grammar() {
    for ok in ["1", "-1.", ".5", "+2.5e-3", "inf", "-Infinity", "NaN", "7E10"] {
        let line = format!("X:{} Y:0 Z:0", ok);
        assert!(parse_position(&line).is_some(), "{} should be a number", ok);
        assert!(ok.parse::<f32>().is_ok());
    }
    for bad in ["", ".", "1e", "e5", "1.2.3", "--1", "0x10", "1,5", "in"] {
        let line = format!("X:{} Y:0 Z:0", bad);
        assert!(parse_position(&line).is_none(), "{} should not be a number", bad);
        assert!(bad.parse::<f32>().is_err());
    }
}

#[test]
fn move_command_formats_the_axis_and_the_displacement() {
    assert_eq!(create_mv_command(Axis::X, "10.0000"), "G0 X10.0000 FEEDBACK:ok\n");
    assert_eq!(create_mv_command(Axis::Z, "-50.0000"), "G0 Z-50.0000 FEEDBACK:ok\n");
    assert_eq!(create_mv_command(Axis::Y, "0.2500"), "G0 Y0.2500 FEEDBACK:ok\n");
}

#[test]
fn ok_line_over_concatenation_after_a_line_feed() {
    let parts = ["report\n", "ok\n", "G0 X1 FEEDBACK:ok\n", "  ok  ", "", "okay\n"];
    for a in parts.iter().filter(|p| p.ends_with('\n')) {
        for b in parts.iter() {
            let joined = format!("{a}{b}");
            assert_eq!(has_ok_line(&joined), has_ok_line(a) || has_ok_line(b), "{joined:?}");
        }
    }
    // Without a line feed between them, two parts can merge into one line.
    assert!(!has_ok_line("o") && !has_ok_line("k"));
    assert!(has_ok_line(&format!("{}{}", "o", "k")));
}
