use moonlander::doc::Document;
use moonlander::errors::{ContentError, ProtocolError};
use moonlander::line::Line;

fn lines_for_chunks(chunks: &[&[u8]]) -> (Vec<Line>, String) {
    let mut d = Document::new();
    d.set_mime("text/gemini").unwrap();
    for c in chunks {
        d.new_page_chunk(c).unwrap();
    }
    (d.lines().clone(), d.source().clone())
}

#[test]
fn chunk_boundaries_do_not_matter() {
    let text: &[u8] = b"# Title\n=> gemini://x Home\n```\nraw\n```\n* item\nplain\n";
    let whole = lines_for_chunks(&[text]);
    let by_one: Vec<&[u8]> = text.chunks(1).collect();
    let by_three: Vec<&[u8]> = text.chunks(3).collect();
    let by_seven: Vec<&[u8]> = text.chunks(7).collect();
    assert_eq!(lines_for_chunks(&by_one), whole);
    assert_eq!(lines_for_chunks(&by_three), whole);
    assert_eq!(lines_for_chunks(&by_seven), whole);
}

#[test]
fn chunk_boundary_inside_multibyte_character() {
    let text = "# caf\u{e9}\nte\u{2603}xt\n".as_bytes();
    let whole = lines_for_chunks(&[text]);
    for cut in 1..text.len() {
        let split = lines_for_chunks(&[&text[..cut], &text[cut..]]);
        assert_eq!(split, whole, "split at byte {}", cut);
    }
    assert_eq!(
        whole.0,
        vec![
            Line::Heading { level: 1, text: "caf\u{e9}".to_string() },
            Line::PlainText { text: "te\u{2603}xt".to_string() },
        ]
    );
}

#[test]
fn trailing_text_without_newline_stays_pending() {
    let mut d = Document::new();
    d.set_mime("text/gemini").unwrap();
    d.new_page_chunk(b"first\nsecond").unwrap();
    assert_eq!(d.lines().len(), 1);
    d.new_page_chunk(b" half\n").unwrap();
    assert_eq!(
        d.lines().as_slice(),
        &[
            Line::PlainText { text: "first".to_string() },
            Line::PlainText { text: "second half".to_string() },
        ]
    );
}

#[test]
fn source_accumulates_decoded_text() {
    let mut d = Document::new();
    d.set_mime("text/gemini").unwrap();
    d.new_page_chunk(b"a\nb").unwrap();
    d.new_page_chunk(b"c\n").unwrap();
    assert_eq!(d.source().as_str(), "a\nbc\n");
}

#[test]
fn malformed_utf8_aborts_the_navigation() {
    let mut d = Document::new();
    d.set_mime("text/gemini").unwrap();
    assert_eq!(
        d.new_page_chunk(b"ok\n\xff\n"),
        Err(ContentError::MalformedEncoding)
    );
    assert!(d.has_failed());
    assert!(d.new_page_chunk(b"more\n").is_err());
}

#[test]
fn truncated_final_character_fails_at_finish() {
    let mut d = Document::new();
    d.set_mime("text/gemini").unwrap();
    d.new_page_chunk(&[0xe2, 0x98]).unwrap();
    assert!(d.finish().is_err());
}

#[test]
fn clean_finish_passes() {
    let mut d = Document::new();
    d.set_mime("text/gemini").unwrap();
    d.new_page_chunk(b"done\n").unwrap();
    assert!(d.finish().is_ok());
}

#[test]
fn declared_charset_decodes_through_the_charset_decoder() {
    let mut d = Document::new();
    d.set_mime("text/plain; charset=iso-8859-1").unwrap();
    d.new_page_chunk(&[0x63, 0x61, 0x66, 0xe9, 0x0a]).unwrap();
    assert_eq!(
        d.lines().as_slice(),
        &[Line::Preformatted { text: "caf\u{e9}".to_string() }]
    );
}

#[test]
fn mime_essence_is_normalized() {
    let mut d = Document::new();
    d.set_mime("TEXT/GEMINI; charset=UTF-8").unwrap();
    assert_eq!(d.essence().as_str(), "text/gemini");
}

#[test]
fn unknown_mime_is_a_protocol_error() {
    let mut d = Document::new();
    assert_eq!(d.set_mime("application/pdf"), Err(ProtocolError::UnknownMime));
    assert_eq!(d.set_mime("not a mime"), Err(ProtocolError::InvalidMime));
}

#[test]
fn reset_clears_source_and_lines_together() {
    let mut d = Document::new();
    d.set_mime("text/gemini").unwrap();
    d.set_url("gemini://host/");
    d.new_page_chunk(b"x\n").unwrap();
    d.reset();
    assert_eq!(d.lines().len(), 0);
    assert_eq!(d.source().as_str(), "");
    assert_eq!(d.essence().as_str(), "text/plain");
    assert_eq!(d.base_url().as_deref(), Some("gemini://host/"));
}

#[test]
fn charset_decoder_survives_repeated_finish() {
    let mut d = Document::new();
    d.set_mime("text/plain; charset=iso-8859-1").unwrap();
    d.new_page_chunk(b"hi\n").unwrap();
    assert!(d.finish().is_ok());
    // A second finish is a quiet no-op; the flushed decoder is not
    // touched again.
    assert!(d.finish().is_ok());
    assert_eq!(d.lines().len(), 1);
}

#[test]
fn charset_decoder_rejects_bytes_after_finish() {
    let mut d = Document::new();
    d.set_mime("text/plain; charset=iso-8859-1").unwrap();
    d.new_page_chunk(b"hi\n").unwrap();
    d.finish().unwrap();
    assert_eq!(d.new_page_chunk(b"late\n"), Err(ContentError::MalformedEncoding));
    assert!(d.has_failed());
    assert_eq!(d.lines().len(), 1);
}

#[test]
fn malformed_charset_bytes_abort_the_navigation() {
    let mut d = Document::new();
    d.set_mime("text/plain; charset=shift_jis").unwrap();
    // 0x81 opens a two-byte sequence; 0x20 is not a legal trail byte.
    assert_eq!(d.new_page_chunk(&[0x81, 0x20]), Err(ContentError::MalformedEncoding));
    assert!(d.has_failed());
    assert_eq!(d.lines().len(), 0);
    assert_eq!(d.source().as_str(), "");
}
