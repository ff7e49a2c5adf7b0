use tcp_handshake::{
    format_hello_message, frame_text, frame_text_trimmed, parse_hello_message, HandshakeError,
    MSG_SIZE,
};

#[test]
fn round_trip_keeps_the_number() {
    for n in [0, 1, -1, 100, 101, 102, 999, i32::MAX, i32::MIN, 123456789, -98765] {
        assert_eq!(parse_hello_message(&format_hello_message(n)), Ok(n));
    }
}

#[test]
fn format_writes_keyword_space_and_decimal() {
    assert_eq!(format_hello_message(100), "HELLO 100");
    assert_eq!(format_hello_message(-5), "HELLO -5");
    assert_eq!(format_hello_message(0), "HELLO 0");
    assert_eq!(format_hello_message(i32::MIN), "HELLO -2147483648");
    assert_eq!(format_hello_message(i32::MAX), "HELLO 2147483647");
}

fn malformed(text: &str) -> HandshakeError {
    HandshakeError::InvalidMessageFormat { message: text.to_string() }
}

#[test]
fn parse_rejects_wrong_keyword() {
    assert_eq!(parse_hello_message("HI 5"), Err(malformed("HI 5")));
    assert_eq!(parse_hello_message("hello 5"), Err(malformed("hello 5")));
    assert_eq!(parse_hello_message("HELLOO 5"), Err(malformed("HELLOO 5")));
}

#[test]
fn parse_rejects_wrong_token_count() {
    assert_eq!(parse_hello_message("HELLO"), Err(malformed("HELLO")));
    assert_eq!(parse_hello_message("HELLO 1 2"), Err(malformed("HELLO 1 2")));
    assert_eq!(parse_hello_message(""), Err(malformed("")));
    assert_eq!(parse_hello_message("   "), Err(malformed("   ")));
}

#[test]
fn parse_rejects_non_integer_sequence() {
    assert_eq!(
        parse_hello_message("HELLO abc"),
        Err(HandshakeError::InvalidSequenceNumber("abc".to_string()))
    );
    assert_eq!(
        parse_hello_message("HELLO 2147483648"),
        Err(HandshakeError::InvalidSequenceNumber("2147483648".to_string()))
    );
    assert_eq!(
        parse_hello_message("HELLO -"),
        Err(HandshakeError::InvalidSequenceNumber("-".to_string()))
    );
    assert_eq!(
        parse_hello_message("HELLO 1.5"),
        Err(HandshakeError::InvalidSequenceNumber("1.5".to_string()))
    );
}

#[test]
fn parse_accepts_signs_and_surrounding_space() {
    assert_eq!(parse_hello_message("HELLO +7"), Ok(7));
    assert_eq!(parse_hello_message("HELLO -0"), Ok(0));
    assert_eq!(parse_hello_message("HELLO -2147483648"), Ok(i32::MIN));
    assert_eq!(parse_hello_message("  HELLO \t 42\r\n"), Ok(42));
    assert_eq!(parse_hello_message("HELLO 0007"), Ok(7));
}

#[test]
fn frame_of_no_bytes_is_a_disconnect() {
    assert_eq!(frame_text(&[]), Err(HandshakeError::ClientDisconnected));
    assert_eq!(frame_text_trimmed(&[]), Err(HandshakeError::ClientDisconnected));
}

#[test]
fn frame_drops_trailing_nuls() {
    let mut buf = [0u8; MSG_SIZE];
    buf[..7].copy_from_slice(b"HELLO 5");
    assert_eq!(frame_text(&buf), Ok("HELLO 5".to_string()));
    assert_eq!(frame_text(b"HELLO 5 \n"), Ok("HELLO 5 \n".to_string()));
}

#[test]
fn trimmed_frame_drops_space_at_both_ends() {
    assert_eq!(frame_text_trimmed(b" HELLO 5 \n\0\0"), Ok("HELLO 5".to_string()));
    assert_eq!(frame_text_trimmed(b"\0 x \0"), Ok("\0 x".to_string()));
}

#[test]
fn frame_replaces_invalid_utf8() {
    assert_eq!(frame_text(&[b'A', 0xff, b'B']), Ok("A\u{fffd}B".to_string()));
    assert_eq!(frame_text("é".as_bytes()), Ok("é".to_string()));
}
