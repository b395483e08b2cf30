use clipcast::codec::{decode, encode, DecodeError, Message};

fn clip(s: &str) -> Message {
    Message::Clip { clip: s.to_string() }
}

fn same(a: &Message, b: &Message) -> bool {
    match (a, b) {
        (Message::Ping, Message::Ping) => true,
        (Message::Pong, Message::Pong) => true,
        (Message::Ack, Message::Ack) => true,
        (Message::Clip { clip: x }, Message::Clip { clip: y }) => x == y,
        _ => false,
    }
}

#[test]
fn encodes_unit_messages() {
    assert_eq!(encode(&Message::Ping), "{\"type\":\"ping\"}\n");
    assert_eq!(encode(&Message::Pong), "{\"type\":\"pong\"}\n");
    assert_eq!(encode(&Message::Ack), "{\"type\":\"ack\"}\n");
}

#[test]
fn encodes_clip() {
    assert_eq!(encode(&clip("x")), "{\"type\":\"clip\",\"clip\":\"x\"}\n");
}

#[test]
fn encodes_clip_escapes() {
    assert_eq!(
        encode(&clip("a\"b\\c\nd\te\u{1}")),
        "{\"type\":\"clip\",\"clip\":\"a\\\"b\\\\c\\nd\\te\\u0001\"}\n"
    );
}

#[test]
fn clip_escaping_agrees_with_serde_json() {
    let text = "quote \" back \\ nl \n cr \r tab \t bs \u{8} ff \u{c} nul \u{0} us \u{1f} del \u{7f} é 😀";
    let literal = serde_json::to_string(text).unwrap();
    let expected = format!("{{\"type\":\"clip\",\"clip\":{}}}\n", literal);
    let parsed: serde_json::Value = serde_json::from_str(&expected).unwrap();
    assert_eq!(parsed["clip"].as_str(), Some(text));
    assert_eq!(encode(&clip(text)), expected);
}

#[test]
fn round_trip_every_variant() {
    let cases = vec![
        Message::Ping,
        Message::Pong,
        Message::Ack,
        clip(""),
        clip("plain"),
        clip("line one\nline two\n"),
        clip("say \"hi\" \\ back"),
        clip("héllo wörld — 日本語 😀"),
        clip("\u{0}\u{8}\u{9}\u{a}\u{b}\u{c}\u{d}\u{1f}\u{7f}"),
    ];
    for m in cases {
        let line = encode(&m);
        assert_eq!(line.matches('\n').count(), 1);
        assert!(line.ends_with('\n'));
        let back = decode(&line).unwrap();
        assert!(same(&back, &m));
        let back = decode(line.trim_end_matches('\n')).unwrap();
        assert!(same(&back, &m));
    }
}

#[test]
fn decodes_lines_without_separator() {
    assert!(matches!(decode("{\"type\":\"ping\"}"), Ok(Message::Ping)));
    assert!(matches!(decode("{\"type\":\"pong\"}"), Ok(Message::Pong)));
    assert!(matches!(decode("{\"type\":\"ack\"}"), Ok(Message::Ack)));
    match decode("{\"type\":\"clip\",\"clip\":\"x\"}") {
        Ok(Message::Clip { clip }) => assert_eq!(clip, "x"),
        _ => panic!("expected a clip"),
    }
}

#[test]
fn empty_line_is_an_error() {
    assert_eq!(decode("").unwrap_err(), DecodeError::Empty);
    assert_eq!(decode("\n").unwrap_err(), DecodeError::Empty);
}

#[test]
fn unknown_type_is_an_error() {
    assert_eq!(decode("{\"type\":\"bogus\"}").unwrap_err(), DecodeError::Malformed);
}

#[test]
fn malformed_lines_are_errors() {
    for line in [
        "ping",
        "{}",
        "{\"type\":\"ping\"",
        "{\"type\":\"clip\"}",
        "{\"type\":\"clip\",\"clip\":\"unterminated}",
        "{\"type\":\"clip\",\"clip\":\"bad \\q escape\"}",
        "{\"type\":\"clip\",\"clip\":\"raw \" quote\"}",
        "{\"type\":\"clip\",\"clip\":\"raw\ttab\"}",
        "{\"type\":\"clip\",\"clip\":\"\\u000a\"}",
        "{\"type\":\"ping\"}\n\n",
        "{\"type\":\"ping\"} ",
    ] {
        assert_eq!(decode(line).unwrap_err(), DecodeError::Malformed, "{}", line);
    }
}

#[test]
fn decodes_unicode_escape_of_control_character() {
    match decode("{\"type\":\"clip\",\"clip\":\"a\\u001fb\"}") {
        Ok(Message::Clip { clip }) => assert_eq!(clip, "a\u{1f}b"),
        _ => panic!("expected a clip"),
    }
}
