use display_switch::input_source::{InputSource, ParseError, SymbolicInputSource};

fn parsed_value(text: &str) -> u16 {
    InputSource::parse(text).unwrap().value()
}

#[test]
fn parse_decimal_values() {
    assert_eq!(parsed_value("0"), 0);
    assert_eq!(parsed_value("1"), 1);
    assert_eq!(parsed_value("17"), 17);
    assert_eq!(parsed_value("255"), 255);
    assert_eq!(parsed_value("65535"), 65535);
}

#[test]
fn parse_decimal_yields_raw_variant() {
    assert!(matches!(InputSource::parse("18"), Ok(InputSource::Raw(18))));
}

#[test]
fn parse_hex_values() {
    assert_eq!(parsed_value("0x0"), 0);
    assert_eq!(parsed_value("0x11"), 0x11);
    assert_eq!(parsed_value("0x0f"), 0x0f);
    assert_eq!(parsed_value("0xffff"), 0xffff);
}

#[test]
fn parse_hex_is_case_insensitive() {
    assert_eq!(parsed_value("0X11"), 0x11);
    assert_eq!(parsed_value("0x1A"), 0x1a);
    assert_eq!(parsed_value("0X1a"), 0x1a);
    assert_eq!(parsed_value("0xAbCd"), 0xabcd);
    assert_eq!(parsed_value("0XABCD"), 0xabcd);
}

#[test]
fn parse_trims_surrounding_whitespace() {
    assert_eq!(parsed_value(" 0x11 "), 0x11);
    assert_eq!(parsed_value("\t42\n"), 42);
    assert_eq!(parsed_value("  Hdmi2"), 0x12);
}

#[test]
fn parse_symbolic_names() {
    assert!(matches!(
        InputSource::parse("DisplayPort1"),
        Ok(InputSource::Symbolic(SymbolicInputSource::DisplayPort1))
    ));
    assert!(matches!(
        InputSource::parse("DisplayPort2"),
        Ok(InputSource::Symbolic(SymbolicInputSource::DisplayPort2))
    ));
    assert!(matches!(
        InputSource::parse("Hdmi1"),
        Ok(InputSource::Symbolic(SymbolicInputSource::Hdmi1))
    ));
    assert!(matches!(
        InputSource::parse("Hdmi2"),
        Ok(InputSource::Symbolic(SymbolicInputSource::Hdmi2))
    ));
}

#[test]
fn symbolic_values_match_documented_constants() {
    assert_eq!(InputSource::Symbolic(SymbolicInputSource::DisplayPort1).value(), 0x0f);
    assert_eq!(InputSource::Symbolic(SymbolicInputSource::DisplayPort2).value(), 0x10);
    assert_eq!(InputSource::Symbolic(SymbolicInputSource::Hdmi1).value(), 0x11);
    assert_eq!(InputSource::Symbolic(SymbolicInputSource::Hdmi2).value(), 0x12);
}

#[test]
fn raw_value_is_returned_unchanged() {
    assert_eq!(InputSource::Raw(0).value(), 0);
    assert_eq!(InputSource::Raw(1234).value(), 1234);
    assert_eq!(InputSource::Raw(65535).value(), 65535);
}

#[test]
fn parse_rejects_empty_text() {
    assert_eq!(InputSource::parse(""), Err(ParseError::Empty));
    assert_eq!(InputSource::parse("   "), Err(ParseError::Empty));
    assert_eq!(InputSource::parse("\t\n"), Err(ParseError::Empty));
}

#[test]
fn parse_rejects_out_of_range_values() {
    assert_eq!(InputSource::parse("65536"), Err(ParseError::OutOfRange));
    assert_eq!(InputSource::parse("99999"), Err(ParseError::OutOfRange));
    assert_eq!(InputSource::parse("0x10000"), Err(ParseError::OutOfRange));
    assert_eq!(InputSource::parse("0xFFFFF"), Err(ParseError::OutOfRange));
}

#[test]
fn parse_rejects_non_numeric_text() {
    assert_eq!(InputSource::parse("abc"), Err(ParseError::Malformed));
    assert_eq!(InputSource::parse("12a"), Err(ParseError::Malformed));
    assert_eq!(InputSource::parse("-1"), Err(ParseError::Malformed));
    assert_eq!(InputSource::parse("0x"), Err(ParseError::Malformed));
    assert_eq!(InputSource::parse("0xG1"), Err(ParseError::Malformed));
    assert_eq!(InputSource::parse("1 2"), Err(ParseError::Malformed));
}

#[test]
fn parse_rejects_unrecognized_symbolic_names() {
    assert_eq!(InputSource::parse("Hdmi3"), Err(ParseError::Malformed));
    assert_eq!(InputSource::parse("hdmi1"), Err(ParseError::Malformed));
    assert_eq!(InputSource::parse("DisplayPort"), Err(ParseError::Malformed));
    assert_eq!(InputSource::parse("Composite1"), Err(ParseError::Malformed));
}
