use duration_literal::cursor::ParseInput;
use duration_literal::time::{CommandArgParseError, Parser, Time};

fn magnitude_value(t: &Time) -> f32 {
    match t {
        Time::Ticks(m) => m.parse::<f32>().unwrap(),
        Time::Seconds(m) => m.parse::<f32>().unwrap(),
        Time::Days(m) => m.parse::<f32>().unwrap(),
    }
}

fn assert_invalid_time(e: &CommandArgParseError) {
    match e {
        CommandArgParseError::InvalidArgument { expected, got } => {
            assert_eq!(expected, "time");
            assert_eq!(got, "not a valid time");
        }
    }
}

#[test]
fn test_time() {
    let mut input = ParseInput::new("42.31t");
    let time = Time::parse_arg(&mut input).unwrap();
    assert_eq!(time, Time::Ticks(String::from("42.31")));
    assert_eq!(magnitude_value(&time), 42.31);

    let mut input = ParseInput::new("42.31");
    let time = Time::parse_arg(&mut input).unwrap();
    assert_eq!(time, Time::Ticks(String::from("42.31")));
    assert_eq!(magnitude_value(&time), 42.31);

    let mut input = ParseInput::new("1239.72s");
    let time = Time::parse_arg(&mut input).unwrap();
    assert_eq!(time, Time::Seconds(String::from("1239.72")));
    assert_eq!(magnitude_value(&time), 1239.72);

    let mut input = ParseInput::new("133.1d");
    let time = Time::parse_arg(&mut input).unwrap();
    assert_eq!(time, Time::Days(String::from("133.1")));
    assert_eq!(magnitude_value(&time), 133.1);
}

#[test]
fn empty_input_is_invalid() {
    let mut input = ParseInput::new("");
    let err = Time::parse_arg(&mut input).unwrap_err();
    assert_invalid_time(&err);
    assert_eq!(
        err,
        CommandArgParseError::InvalidArgument {
            expected: String::from("time"),
            got: String::from("not a valid time"),
        }
    );
}

#[test]
fn leading_whitespace_is_skipped() {
    let mut input = ParseInput::new("  10t");
    let time = Time::parse_arg(&mut input).unwrap();
    assert_eq!(time, Time::Ticks(String::from("10")));
    assert_eq!(magnitude_value(&time), 10.0);

    let mut input = ParseInput::new(" \t\n\r5d");
    let time = Time::parse_arg(&mut input).unwrap();
    assert_eq!(time, Time::Days(String::from("5")));
}

#[test]
fn non_numeric_text_is_invalid() {
    let mut input = ParseInput::new("abc");
    let err = Time::parse_arg(&mut input).unwrap_err();
    assert_invalid_time(&err);
}

#[test]
fn each_unit_letter_picks_its_variant() {
    let mut input = ParseInput::new("7t");
    assert_eq!(
        Time::parse_arg(&mut input).unwrap(),
        Time::Ticks(String::from("7"))
    );

    let mut input = ParseInput::new("7s");
    assert_eq!(
        Time::parse_arg(&mut input).unwrap(),
        Time::Seconds(String::from("7"))
    );

    let mut input = ParseInput::new("7d");
    assert_eq!(
        Time::parse_arg(&mut input).unwrap(),
        Time::Days(String::from("7"))
    );
}

#[test]
fn scan_stops_at_first_unit_letter() {
    let mut input = ParseInput::new("1tXYZ");
    let time = Time::parse_arg(&mut input).unwrap();
    assert_eq!(time, Time::Ticks(String::from("1")));
    assert_eq!(input.pos, 2);
    assert_eq!(input.pop(), Some('X'));
    assert_eq!(input.pop(), Some('Y'));

    let mut input = ParseInput::new("2s3s");
    let time = Time::parse_arg(&mut input).unwrap();
    assert_eq!(time, Time::Seconds(String::from("2")));
    assert_eq!(input.peek(), Some('3'));
}

#[test]
fn without_unit_the_whole_input_is_consumed() {
    let mut input = ParseInput::new("12.5");
    let time = Time::parse_arg(&mut input).unwrap();
    assert_eq!(time, Time::Ticks(String::from("12.5")));
    assert_eq!(input.pos, 4);
    assert_eq!(input.pop(), None);
    assert_eq!(input.peek(), None);
}

#[test]
fn error_still_consumes_through_the_unit_letter() {
    let mut input = ParseInput::new("x.ty");
    let err = Time::parse_arg(&mut input).unwrap_err();
    assert_invalid_time(&err);
    assert_eq!(input.pos, 3);
    assert_eq!(input.pop(), Some('y'));
}

#[test]
fn exponents_and_signs_parse() {
    let mut input = ParseInput::new("+3e5s");
    let time = Time::parse_arg(&mut input).unwrap();
    assert_eq!(time, Time::Seconds(String::from("+3e5")));
    assert_eq!(magnitude_value(&time), 300000.0);

    let mut input = ParseInput::new("-.5d");
    let time = Time::parse_arg(&mut input).unwrap();
    assert_eq!(time, Time::Days(String::from("-.5")));
    assert_eq!(magnitude_value(&time), -0.5);

    let mut input = ParseInput::new("1.d");
    let time = Time::parse_arg(&mut input).unwrap();
    assert_eq!(time, Time::Days(String::from("1.")));
    assert_eq!(magnitude_value(&time), 1.0);

    let mut input = ParseInput::new("3.14e-2s");
    let time = Time::parse_arg(&mut input).unwrap();
    assert_eq!(time, Time::Seconds(String::from("3.14e-2")));
    assert_eq!(magnitude_value(&time), 0.0314);
}

#[test]
fn special_words_parse() {
    let mut input = ParseInput::new("inf");
    let time = Time::parse_arg(&mut input).unwrap();
    assert_eq!(time, Time::Ticks(String::from("inf")));
    assert!(magnitude_value(&time).is_infinite());

    let mut input = ParseInput::new("NaN");
    let time = Time::parse_arg(&mut input).unwrap();
    assert_eq!(time, Time::Ticks(String::from("NaN")));
    assert!(magnitude_value(&time).is_nan());

    // Every letter of INFINITY is uppercase, so none ends the scan.
    let mut input = ParseInput::new("INFINITYd");
    let time = Time::parse_arg(&mut input).unwrap();
    assert_eq!(time, Time::Days(String::from("INFINITY")));
    assert!(magnitude_value(&time).is_infinite());
}

#[test]
fn lowercase_infinity_ends_the_scan_at_its_t() {
    let mut input = ParseInput::new("infinityd");
    let err = Time::parse_arg(&mut input).unwrap_err();
    assert_invalid_time(&err);
    // The scan consumed `infinit` and stopped; `yd` stays unread.
    assert_eq!(input.pos, 7);
    assert_eq!(input.pop(), Some('y'));
}

#[test]
fn malformed_magnitudes_are_invalid() {
    for text in ["1.2.3t", "+t", "1e", "e5s", "10x", "1 0t", "--1d", "5Tt"] {
        let mut input = ParseInput::new(text);
        let err = Time::parse_arg(&mut input).unwrap_err();
        assert_invalid_time(&err);
    }
}

#[test]
fn whitespace_after_the_first_character_is_not_skipped() {
    let mut input = ParseInput::new("1 2t");
    let err = Time::parse_arg(&mut input).unwrap_err();
    assert_invalid_time(&err);
}

#[test]
fn uppercase_unit_letters_do_not_terminate() {
    let mut input = ParseInput::new("5D");
    let err = Time::parse_arg(&mut input).unwrap_err();
    assert_invalid_time(&err);
    assert_eq!(input.pos, 2);
}

#[test]
fn display_names_the_time_parser() {
    assert_eq!(Time::display(), Parser::Time);
}
