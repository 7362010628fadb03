use moonlander::codec::{request_line, Codec, Message};
use moonlander::errors::ProtocolError;
use moonlander::header::{classify_status, parse_header, StatusClass};
use moonlander::status::{get_message_for, status_message};

#[test]
fn status_message_known_code() {
    assert_eq!(get_message_for(51), Some("Not Found".to_string()));
    assert_eq!(status_message(51), "Not Found".to_string());
}

#[test]
fn status_message_unknown_code() {
    assert_eq!(get_message_for(97), None);
    assert_eq!(status_message(97), "Unknown Status Code".to_string());
}

#[test]
fn header_parses_status_and_meta() {
    let r = parse_header(b"20 text/gemini").unwrap();
    assert_eq!(r.0, 20);
    assert_eq!(r.1, "text/gemini".to_string());
}

#[test]
fn header_requires_exactly_two_digits() {
    assert_eq!(parse_header(b"205 x"), Err(ProtocolError::MalformedHeader));
    assert_eq!(parse_header(b"2 x"), Err(ProtocolError::MalformedHeader));
    assert_eq!(parse_header(b"ab x"), Err(ProtocolError::MalformedHeader));
}

#[test]
fn header_requires_nonempty_meta() {
    assert!(parse_header(b"20 ").is_err());
    assert!(parse_header(b"20").is_err());
}

#[test]
fn header_meta_tolerates_non_utf8_bytes() {
    // A Latin-1 message must not fail the header: only a malformed
    // status or an absent meta may.
    let r = parse_header(b"20 caf\xe9").unwrap();
    assert_eq!(r.0, 20);
    assert_eq!(r.1, "caf\u{fffd}".to_string());
}

#[test]
fn codec_passes_non_utf8_meta_through() {
    let mut c = Codec::new();
    let evs = c.feed(b"51 caf\xe9\r\n");
    assert_eq!(
        evs,
        vec![Message::ErrorResponse { code: 51, meta: "caf\u{fffd}".to_string() }]
    );
}

#[test]
fn status_classes() {
    assert_eq!(classify_status(10), StatusClass::Input);
    assert_eq!(classify_status(20), StatusClass::Success);
    assert_eq!(classify_status(29), StatusClass::Success);
    assert_eq!(classify_status(31), StatusClass::Redirect);
    assert_eq!(classify_status(44), StatusClass::Failure);
    assert_eq!(classify_status(51), StatusClass::Failure);
    assert_eq!(classify_status(62), StatusClass::Failure);
    assert_eq!(classify_status(97), StatusClass::Failure);
}

#[test]
fn codec_success_header_then_body() {
    let mut c = Codec::new();
    let evs = c.feed(b"20 text/gemini\r\nhello\n");
    assert_eq!(
        evs,
        vec![
            Message::Header { status: 20, meta: "text/gemini".to_string() },
            Message::Chunk(b"hello\n".to_vec()),
        ]
    );
    let evs = c.feed(b"more");
    assert_eq!(evs, vec![Message::Chunk(b"more".to_vec())]);
    let evs = c.eof();
    assert_eq!(evs, vec![Message::Done]);
}

#[test]
fn codec_buffers_header_across_reads() {
    let mut c = Codec::new();
    assert_eq!(c.feed(b"20 te"), vec![]);
    assert_eq!(c.feed(b"xt/plain\r"), vec![]);
    let evs = c.feed(b"\nbody");
    assert_eq!(
        evs,
        vec![
            Message::Header { status: 20, meta: "text/plain".to_string() },
            Message::Chunk(b"body".to_vec()),
        ]
    );
}

#[test]
fn codec_redirect_stops_reading() {
    let mut c = Codec::new();
    let evs = c.feed(b"31 gemini://elsewhere\r\nignored");
    assert_eq!(evs, vec![Message::Redirect("gemini://elsewhere".to_string())]);
    assert_eq!(c.feed(b"still ignored"), vec![]);
    assert_eq!(c.eof(), vec![]);
}

#[test]
fn codec_failure_class_is_structured() {
    let mut c = Codec::new();
    let evs = c.feed(b"51 nothing here\r\n");
    assert_eq!(
        evs,
        vec![Message::ErrorResponse { code: 51, meta: "nothing here".to_string() }]
    );
}

#[test]
fn codec_input_class_is_structured() {
    let mut c = Codec::new();
    let evs = c.feed(b"10 say something\r\n");
    assert_eq!(
        evs,
        vec![Message::ErrorResponse { code: 10, meta: "say something".to_string() }]
    );
}

#[test]
fn codec_malformed_header_is_error() {
    let mut c = Codec::new();
    let evs = c.feed(b"oops\r\n");
    assert_eq!(
        evs,
        vec![Message::Error { cause: "malformed response header".to_string() }]
    );
}

#[test]
fn codec_early_close_is_error() {
    let mut c = Codec::new();
    assert_eq!(c.feed(b"20 text/plain"), vec![]);
    let evs = c.eof();
    assert_eq!(
        evs,
        vec![Message::Error { cause: "connection closed before header".to_string() }]
    );
}

#[test]
fn codec_abort_during_body_is_graceful() {
    let mut c = Codec::new();
    c.feed(b"20 text/plain\r\npartial line");
    let evs = c.read_error(true, "connection aborted");
    assert_eq!(evs, vec![Message::Chunk(b"\n".to_vec()), Message::Done]);
}

#[test]
fn codec_other_read_error_is_terminal() {
    let mut c = Codec::new();
    c.feed(b"20 text/plain\r\n");
    let evs = c.read_error(false, "connection reset");
    assert_eq!(evs, vec![Message::Error { cause: "connection reset".to_string() }]);
}

#[test]
fn codec_empty_body_read_emits_nothing() {
    let mut c = Codec::new();
    c.feed(b"20 text/plain\r\n");
    assert_eq!(c.feed(b""), vec![]);
}

#[test]
fn request_line_is_url_and_crlf() {
    assert_eq!(request_line("gemini://example.org/"), "gemini://example.org/\r\n");
}
