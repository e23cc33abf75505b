use pijoy::config::{parse_config, render_config};
use pijoy::errors::JoyError;

#[test]
fn parse_round_trip() {
    let text: Vec<u8> = b"buttons = [2,3,4,5,6,12,13,16]".to_vec();
    let j = parse_config(&text).expect("config should parse");
    assert_eq!(j.buttons, [2, 3, 4, 5, 6, 12, 13, 16]);
    assert!(j.pins.is_empty());
    assert!(j.callbacks.is_empty());
    assert!(j.emitted.is_empty());
}

#[test]
fn parse_round_trip_with_whitespace() {
    let text: Vec<u8> = b"\n  buttons\t= [ 2 , 3 ,\t4, 5, 6, 12, 13, 16 ]\r\n".to_vec();
    let j = parse_config(&text).expect("config should parse");
    assert_eq!(j.buttons, [2, 3, 4, 5, 6, 12, 13, 16]);
}

#[test]
fn parse_seven_entries_rejected() {
    let text: Vec<u8> = b"buttons = [2,3,4,5,6,12,13]".to_vec();
    assert_eq!(parse_config(&text), Err(JoyError::ConfigParseError));
}

#[test]
fn parse_nine_entries_rejected() {
    let text: Vec<u8> = b"buttons = [2,3,4,5,6,12,13,16,17]".to_vec();
    assert_eq!(parse_config(&text), Err(JoyError::ConfigParseError));
}

#[test]
fn parse_empty_document_rejected() {
    let text: Vec<u8> = Vec::new();
    assert_eq!(parse_config(&text), Err(JoyError::ConfigParseError));
}

#[test]
fn parse_missing_equals_rejected() {
    let text: Vec<u8> = b"buttons [2,3,4,5,6,12,13,16]".to_vec();
    assert_eq!(parse_config(&text), Err(JoyError::ConfigParseError));
}

#[test]
fn parse_wrong_field_name_rejected() {
    let text: Vec<u8> = b"button = [2,3,4,5,6,12,13,16]".to_vec();
    assert_eq!(parse_config(&text), Err(JoyError::ConfigParseError));
}

#[test]
fn parse_pin_over_255_rejected() {
    let text: Vec<u8> = b"buttons = [256,3,4,5,6,12,13,16]".to_vec();
    assert_eq!(parse_config(&text), Err(JoyError::ConfigParseError));
}

#[test]
fn parse_four_digit_entry_rejected() {
    let text: Vec<u8> = b"buttons = [0002,3,4,5,6,12,13,16]".to_vec();
    assert_eq!(parse_config(&text), Err(JoyError::ConfigParseError));
}

#[test]
fn parse_negative_entry_rejected() {
    let text: Vec<u8> = b"buttons = [-2,3,4,5,6,12,13,16]".to_vec();
    assert_eq!(parse_config(&text), Err(JoyError::ConfigParseError));
}

#[test]
fn parse_trailing_text_rejected() {
    let text: Vec<u8> = b"buttons = [2,3,4,5,6,12,13,16] extra".to_vec();
    assert_eq!(parse_config(&text), Err(JoyError::ConfigParseError));
}

#[test]
fn parse_second_field_rejected() {
    let text: Vec<u8> = b"buttons = [2,3,4,5,6,12,13,16]\nname = \"pad\"\n".to_vec();
    assert_eq!(parse_config(&text), Err(JoyError::ConfigParseError));
}

#[test]
fn parse_unclosed_array_rejected() {
    let text: Vec<u8> = b"buttons = [2,3,4,5,6,12,13,16".to_vec();
    assert_eq!(parse_config(&text), Err(JoyError::ConfigParseError));
}

#[test]
fn parse_boundary_pin_values() {
    let text: Vec<u8> = b"buttons = [0,255,4,5,6,12,13,16]".to_vec();
    let j = parse_config(&text).expect("config should parse");
    assert_eq!(j.buttons, [0, 255, 4, 5, 6, 12, 13, 16]);
}

#[test]
fn render_writes_the_canonical_text() {
    let text = render_config(&[2, 3, 4, 5, 6, 12, 13, 16]);
    assert_eq!(
        String::from_utf8(text).unwrap(),
        "buttons = [2, 3, 4, 5, 6, 12, 13, 16]\n"
    );
}

#[test]
fn render_then_parse_is_identity() {
    let pins: [u8; 8] = [0, 9, 10, 99, 100, 101, 255, 7];
    let text = render_config(&pins);
    let j = parse_config(&text).expect("rendered config should parse");
    assert_eq!(j.buttons, pins);
}

#[test]
fn error_messages_name_each_failure() {
    let all = [
        JoyError::ConfigReadError,
        JoyError::ConfigParseError,
        JoyError::GpioUnavailableError,
        JoyError::PinClaimError,
        JoyError::InterruptSetupError,
        JoyError::DeviceCreateError,
        JoyError::EventEmitError,
    ];
    for (n, e) in all.iter().enumerate() {
        assert!(!e.message().is_empty());
        for other in all.iter().skip(n + 1) {
            assert_ne!(e.message(), other.message());
        }
    }
}
