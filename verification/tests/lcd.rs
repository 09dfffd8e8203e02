use rustberry::lcd::{Lcd, LcdError, Pin, Signal};

#[test]
fn check_our_validation() {
    assert!(Lcd::process_msg("hello \n world").is_ok());
    assert!(Lcd::process_msg("hello \n world\n").is_ok());
    assert!(Lcd::process_msg("hello \n world\n third line\n").is_err());
    assert!(Lcd::process_msg("hello this is a long sentence\n world").is_err());
    assert!(Lcd::process_msg("ą").is_err());
}

#[test]
fn print() {
    println!("0x33 {} {:008b}", 0x33 as u8, 0x33);
    println!("0x32 {} {:008b}", 0x33 as u8, 0x32);
}

fn level(s: &Signal) -> u8 {
    match s {
        Signal::Drive(_, true) => 1,
        _ => 0,
    }
}

/// Reads back the byte and the register select from the signals of a write.
fn decode_write(signals: &[Signal]) -> (u8, bool) {
    let rs = matches!(signals[1], Signal::Drive(Pin::RegisterSelect, true));
    let high = level(&signals[2]) | level(&signals[3]) << 1 | level(&signals[4]) << 2 | level(&signals[5]) << 3;
    let low = level(&signals[13]) | level(&signals[14]) << 1 | level(&signals[15]) << 2 | level(&signals[16]) << 3;
    (high << 4 | low, rs)
}

#[test]
fn process_msg_gives_the_bytes() {
    let bytes = Lcd::process_msg("Temp: 23.4C\nHumid: 45%").unwrap();
    assert_eq!(bytes, "Temp: 23.4C\nHumid: 45%".as_bytes().to_vec());
    // Latin-1 characters have a one-byte code.
    assert_eq!(Lcd::process_msg("\u{e9}").unwrap(), vec![0xe9]);
}

#[test]
fn process_msg_errors() {
    assert!(matches!(Lcd::process_msg("a\nb\nc"), Err(LcdError::TooManyLines)));
    assert!(matches!(Lcd::process_msg("12345678901234567"), Err(LcdError::LineTooLong(0))));
    assert!(matches!(Lcd::process_msg("ok\n12345678901234567"), Err(LcdError::LineTooLong(1))));
    assert!(matches!(Lcd::process_msg("ok\nok \u{105}"), Err(LcdError::CharOutOfRange)));
    // Exactly 16 characters fit; a carriage return before a line feed is not counted.
    assert!(Lcd::process_msg("1234567890123456\r\n1234567890123456").is_ok());
    // Empty lines and a final line ending do not make a third line.
    assert!(Lcd::process_msg("\n\n").is_ok());
    assert!(Lcd::process_msg("").is_ok());
    assert!(matches!(Lcd::process_msg("\n\n\n"), Err(LcdError::TooManyLines)));
}

#[test]
fn error_texts() {
    assert_eq!(LcdError::TooManyLines.to_text(), "Invalid line count. We have only 2 lines on screen");
    assert_eq!(LcdError::LineTooLong(1).to_text(), "Line number 1 has more then 16 allowed characters");
    assert_eq!(LcdError::CharOutOfRange.to_text(), "out of range integral type conversion attempted");
}

#[test]
fn write_sends_high_then_low_nibble() {
    let mut lcd = Lcd::new();
    assert!(lcd.write(0xA5, true).is_ok());
    let signals = lcd.take_signals();
    assert_eq!(signals.len(), 24);
    assert_eq!(decode_write(&signals), (0xA5, true));
    assert!(signals[2] == Signal::Drive(Pin::Data4, false));
    assert!(signals[5] == Signal::Drive(Pin::Data7, true));
    assert!(signals[11] == Signal::Drive(Pin::Enable, false));
    assert!(signals[23] == Signal::Pause(37000));
    assert!(lcd.take_signals().is_empty());
}

#[test]
fn clear_and_init() {
    let mut lcd = Lcd::new();
    assert!(lcd.clear().is_ok());
    let signals = lcd.take_signals();
    assert_eq!(signals.len(), 25);
    assert_eq!(decode_write(&signals[..24]), (0x01, false));
    assert!(signals[24] == Signal::Pause(1_570_000));

    assert!(lcd.init().is_ok());
    let signals = lcd.take_signals();
    assert_eq!(signals.len(), 24 * 5 + 4);
    assert_eq!(decode_write(&signals[0..24]), (0x33, false));
    assert_eq!(decode_write(&signals[24..48]), (0x32, false));
    assert!(signals[48] == Signal::Pause(4000));
    assert_eq!(decode_write(&signals[49..73]), (0x0C, false));
    assert_eq!(decode_write(&signals[74..98]), (0x06, false));
    assert_eq!(decode_write(&signals[99..123]), (0x01, false));
}

#[test]
fn set_cursor_addresses() {
    let mut lcd = Lcd::new();
    assert!(lcd.set_cursor(0, 1).is_ok());
    assert!(lcd.set_cursor(5, 0).is_ok());
    assert!(lcd.set_cursor(3, 7).is_ok());
    let signals = lcd.take_signals();
    assert_eq!(decode_write(&signals[0..24]), (0xC0, false));
    assert_eq!(decode_write(&signals[24..48]), (0x85, false));
    // Rows past the last are clamped to the second row.
    assert_eq!(decode_write(&signals[48..72]), (0xC3, false));
}

#[test]
fn message_writes_the_text() {
    let mut lcd = Lcd::new();
    assert!(lcd.message(String::from("ab\nc")).is_ok());
    let signals = lcd.take_signals();
    assert_eq!(signals.len(), 25 + 4 * 24);
    assert_eq!(decode_write(&signals[0..24]), (0x01, false));
    assert_eq!(decode_write(&signals[25..49]), (b'a', true));
    assert_eq!(decode_write(&signals[49..73]), (b'b', true));
    assert_eq!(decode_write(&signals[73..97]), (0xC0, false));
    assert_eq!(decode_write(&signals[97..121]), (b'c', true));
}

#[test]
fn message_refused_after_clearing() {
    let mut lcd = Lcd::new();
    assert!(matches!(lcd.message(String::from("a\nb\nc")), Err(LcdError::TooManyLines)));
    assert_eq!(lcd.take_signals().len(), 25);
}

#[test]
fn checks_before_calls() {
    assert!(Lcd::message_fits("a\nb"));
    assert!(!Lcd::message_fits("a\nb\n"));
    assert!(Lcd::message_fits("a\nb\nc"));
    assert!(Lcd::cursor_valid(0, 1));
    assert!(!Lcd::cursor_valid(0, 2));
    assert!(Lcd::cursor_valid(0xBF, 5));
    assert!(!Lcd::cursor_valid(0xC0, 1));
    assert!(Lcd::cursor_valid(0xFF, 0));
}
