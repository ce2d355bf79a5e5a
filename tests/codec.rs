use mcp_dotnet_context::codec::{
    classify_line, decimal_string, is_header_end, parse_usize_chars, trim_chars, CodecError,
    FrameCodec, FrameMode, Inbound,
};

fn chars(s: &str) -> Vec<char> {
    s.chars().collect()
}

#[test]
fn framings_carry_the_same_message() {
    let json = r#"{"jsonrpc":"2.0","id":1,"method":"initialize"}"#;
    let mut framed = FrameCodec::new();
    let header = format!("Content-Length: {}\r\n", json.len());
    match framed.read_line_event(&header).unwrap() {
        Inbound::Body(n) => assert_eq!(n, json.len()),
        other => panic!("expected a body length, got {:?}", other),
    }
    assert!(is_header_end("\r\n"));
    let mut lined = FrameCodec::new();
    match lined.read_line_event(&format!("{}\n", json)).unwrap() {
        Inbound::Message(m) => assert_eq!(m, json),
        other => panic!("expected a message, got {:?}", other),
    }
    assert_eq!(framed.mode, FrameMode::LengthPrefixed);
    assert_eq!(lined.mode, FrameMode::LineDelimited);
}

#[test]
fn length_prefix_is_sticky_for_replies() {
    let mut codec = FrameCodec::new();
    assert_eq!(codec.mode, FrameMode::Unknown);
    codec.read_line_event("Content-Length: 10\r\n").unwrap();
    assert_eq!(codec.mode, FrameMode::LengthPrefixed);
    codec.read_line_event("{\"jsonrpc\":\"2.0\"}\n").unwrap();
    codec.read_line_event("\n").unwrap();
    assert_eq!(codec.mode, FrameMode::LengthPrefixed);
    assert_eq!(codec.encode("{\"a\":1}"), "Content-Length: 7\r\n\r\n{\"a\":1}");
    assert_eq!(codec.encode("{\"b\":\"\u{e9}\"}"), "Content-Length: 10\r\n\r\n{\"b\":\"\u{e9}\"}");
}

#[test]
fn line_delimited_replies_end_with_newline() {
    let mut codec = FrameCodec::new();
    codec.read_line_event("{\"x\":1}\r\n").unwrap();
    assert_eq!(codec.encode("{}"), "{}\n");
    assert_eq!(FrameCodec::new().encode("{}"), "{}\n");
}

#[test]
fn header_detection_ignores_case_and_spacing() {
    match classify_line("  content-LENGTH:   42  \r\n").unwrap() {
        Inbound::Body(n) => assert_eq!(n, 42),
        other => panic!("unexpected {:?}", other),
    }
    match classify_line("Content-Length: +5").unwrap() {
        Inbound::Body(n) => assert_eq!(n, 5),
        other => panic!("unexpected {:?}", other),
    }
    match classify_line("Content-Length: 12:34").unwrap() {
        Inbound::Body(n) => assert_eq!(n, 12),
        other => panic!("unexpected {:?}", other),
    }
}

#[test]
fn bad_content_length_is_an_error() {
    assert_eq!(classify_line("Content-Length: abc").unwrap_err(), CodecError::InvalidContentLength);
    assert_eq!(classify_line("Content-Length:").unwrap_err(), CodecError::InvalidContentLength);
    assert_eq!(classify_line("Content-Length: -1").unwrap_err(), CodecError::InvalidContentLength);
    assert_eq!(
        classify_line("Content-Length: 99999999999999999999999").unwrap_err(),
        CodecError::InvalidContentLength
    );
}

#[test]
fn blank_and_other_lines() {
    assert!(matches!(classify_line("   \r\n").unwrap(), Inbound::Skip));
    assert!(matches!(classify_line("").unwrap(), Inbound::Skip));
    match classify_line("  not json \n").unwrap() {
        Inbound::Message(m) => assert_eq!(m, "not json"),
        other => panic!("unexpected {:?}", other),
    }
    assert!(!is_header_end("X-Other: 1\r\n"));
}

#[test]
fn decimal_and_parsing() {
    assert_eq!(decimal_string(0), "0");
    assert_eq!(decimal_string(12345), "12345");
    assert_eq!(decimal_string(usize::MAX), usize::MAX.to_string());
    assert_eq!(parse_usize_chars(&chars("007")), Some(7));
    assert_eq!(parse_usize_chars(&chars("+")), None);
    assert_eq!(parse_usize_chars(&chars("")), None);
    assert_eq!(parse_usize_chars(&chars(&usize::MAX.to_string())), Some(usize::MAX));
    assert_eq!(parse_usize_chars(&chars("18446744073709551616")), None);
}

#[test]
fn trimming_follows_unicode_whitespace() {
    assert_eq!(trim_chars(&chars("\u{3000} a b\u{a0}\t")), chars("a b"));
    assert_eq!(trim_chars(&chars(" \r\n")), chars(""));
    assert_eq!(CodecError::InvalidContentLength.message(), "Invalid Content-Length value");
}

#[test]
fn unreadable_header_still_fixes_length_prefix() {
    let mut codec = FrameCodec::new();
    assert!(codec.read_line_event("Content-Length: twelve\r\n").is_err());
    assert_eq!(codec.mode, FrameMode::LengthPrefixed);
}
