use gilgamesh::command::{parse_hex, parse_range};
use gilgamesh::error::Error;

#[test]
fn hex_arguments() {
    assert_eq!(parse_hex("8000"), Some(0x8000));
    assert_eq!(parse_hex("c0ffee"), Some(0xC0FFEE));
    assert_eq!(parse_hex("+1F"), Some(0x1F));
    assert_eq!(parse_hex(""), None);
    assert_eq!(parse_hex("12g"), None);
    assert_eq!(parse_hex("FFFFFFFFFFFFFFFFF"), None);
}

#[test]
fn ranges() {
    assert_eq!(parse_range("0..2".to_string()), Ok((0, 2)));
    assert_eq!(parse_range("10..1F".to_string()), Ok((0x10, 0x1F)));
    assert_eq!(parse_range("10-1F".to_string()), Err(Error::ParseInt));
    assert_eq!(parse_range("..1F".to_string()), Err(Error::ParseInt));
    assert_eq!(parse_range("1..2..3".to_string()), Err(Error::ParseInt));
}

#[test]
fn error_messages() {
    assert_eq!(Error::MissingArg("OPCODE".to_string()).message(), "Missing argument OPCODE.");
    assert_eq!(Error::InvalidLabel("9x".to_string()).message(), "Invalid label \"9x\".");
    assert_eq!(Error::InvalidStepSize.message(), "Can only build groups up to 16 bytes.");
    assert_eq!(Error::UnknownLabel("foo".to_string()).message(), "Unknown label \"foo\".");
    assert_eq!(Error::AlreadyAnalyzed.message(), "Address has already been analyzed.");
}
