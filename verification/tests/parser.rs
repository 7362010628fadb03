use moonlander::doc::Document;
use moonlander::errors::ContentError;
use moonlander::line::{Gemini, Line, Plain};

fn gemtext_doc() -> Document {
    let mut d = Document::new();
    d.set_mime("text/gemini").expect("registry knows text/gemini");
    d
}

#[test]
fn heading_level_one() {
    let mut d = gemtext_doc();
    d.new_page_chunk(b"# T\n").unwrap();
    assert_eq!(
        d.lines().as_slice(),
        &[Line::Heading { level: 1, text: "T".to_string() }]
    );
}

#[test]
fn heading_level_two() {
    let mut d = gemtext_doc();
    d.new_page_chunk(b"## T\n").unwrap();
    assert_eq!(
        d.lines().as_slice(),
        &[Line::Heading { level: 2, text: "T".to_string() }]
    );
}

#[test]
fn heading_level_caps_at_two() {
    let mut d = gemtext_doc();
    d.new_page_chunk(b"### T\n").unwrap();
    assert_eq!(
        d.lines().as_slice(),
        &[Line::Heading { level: 2, text: "T".to_string() }]
    );
}

#[test]
fn link_defaults_caption_to_target() {
    let mut d = gemtext_doc();
    d.new_page_chunk(b"=> gemini://x\n").unwrap();
    assert_eq!(
        d.lines().as_slice(),
        &[Line::Link { target: "gemini://x".to_string(), caption: "gemini://x".to_string() }]
    );
}

#[test]
fn link_with_caption() {
    let mut d = gemtext_doc();
    d.new_page_chunk(b"=> gemini://x Home\n").unwrap();
    assert_eq!(
        d.lines().as_slice(),
        &[Line::Link { target: "gemini://x".to_string(), caption: "Home".to_string() }]
    );
}

#[test]
fn link_caption_joins_tokens_with_single_spaces() {
    let mut d = gemtext_doc();
    d.new_page_chunk(b"=>   gemini://x   My   Home  \n").unwrap();
    assert_eq!(
        d.lines().as_slice(),
        &[Line::Link { target: "gemini://x".to_string(), caption: "My Home".to_string() }]
    );
}

#[test]
fn link_without_target_fails_that_line_only() {
    let mut d = gemtext_doc();
    d.new_page_chunk(b"before\n=>\nafter\n").unwrap();
    assert_eq!(
        d.lines().as_slice(),
        &[
            Line::PlainText { text: "before".to_string() },
            Line::PlainText { text: "after".to_string() },
        ]
    );
}

#[test]
fn preformat_fence_lines_produce_no_line() {
    let mut d = gemtext_doc();
    d.new_page_chunk(b"```\nhi\n```\nt\n").unwrap();
    assert_eq!(
        d.lines().as_slice(),
        &[
            Line::Preformatted { text: "hi".to_string() },
            Line::PlainText { text: "t".to_string() },
        ]
    );
}

#[test]
fn preformatted_lines_stay_verbatim() {
    let mut d = gemtext_doc();
    d.new_page_chunk(b"```\n  => not a link  \n```\n").unwrap();
    assert_eq!(
        d.lines().as_slice(),
        &[Line::Preformatted { text: "  => not a link  ".to_string() }]
    );
}

#[test]
fn list_item_is_trimmed() {
    let mut d = gemtext_doc();
    d.new_page_chunk(b"*  milk \n").unwrap();
    assert_eq!(d.lines().as_slice(), &[Line::ListItem { text: "milk".to_string() }]);
}

#[test]
fn plain_text_lines_are_trimmed() {
    let mut d = gemtext_doc();
    d.new_page_chunk(b"  hello world \n").unwrap();
    assert_eq!(d.lines().as_slice(), &[Line::PlainText { text: "hello world".to_string() }]);
}

#[test]
fn empty_line_renders_as_blank_paragraph() {
    let mut d = gemtext_doc();
    d.new_page_chunk(b"\n").unwrap();
    assert_eq!(d.lines().as_slice(), &[Line::PlainText { text: "".to_string() }]);
}

#[test]
fn heading_keeps_extra_indent_unretrimmed() {
    let mut d = gemtext_doc();
    d.new_page_chunk(b"#  T\n").unwrap();
    assert_eq!(
        d.lines().as_slice(),
        &[Line::Heading { level: 1, text: " T".to_string() }]
    );
}

#[test]
fn carriage_return_is_trimmed_from_line_ends() {
    let mut d = gemtext_doc();
    d.new_page_chunk(b"# T\r\n").unwrap();
    assert_eq!(
        d.lines().as_slice(),
        &[Line::Heading { level: 1, text: "T".to_string() }]
    );
}

#[test]
fn plain_mime_renders_everything_preformatted() {
    let mut d = Document::new();
    d.set_mime("text/plain").unwrap();
    d.new_page_chunk(b"# not a heading\n").unwrap();
    assert_eq!(
        d.lines().as_slice(),
        &[Line::Preformatted { text: "# not a heading".to_string() }]
    );
}

#[test]
fn gemini_parser_toggles_fence_state() {
    let mut g = Gemini::new();
    assert_eq!(g.parse_line("```"), Ok(None));
    assert_eq!(
        g.parse_line("# raw"),
        Ok(Some(Line::Preformatted { text: "# raw".to_string() }))
    );
    assert_eq!(g.parse_line("```"), Ok(None));
    assert_eq!(
        g.parse_line("# raw"),
        Ok(Some(Line::Heading { level: 1, text: "raw".to_string() }))
    );
}

#[test]
fn plain_parser_is_verbatim() {
    let mut p = Plain::new();
    assert_eq!(
        p.parse_line("  anything  "),
        Ok(Some(Line::Preformatted { text: "  anything  ".to_string() }))
    );
}

#[test]
fn link_without_target_is_a_content_error() {
    let mut g = Gemini::new();
    assert_eq!(g.parse_line("=>"), Err(ContentError::MissingLinkTarget));
    assert_eq!(g.parse_line("=>   "), Err(ContentError::MissingLinkTarget));
}

#[test]
fn unicode_whitespace_is_trimmed() {
    let mut d = gemtext_doc();
    d.new_page_chunk("\u{a0}\u{2003}hello\u{a0}\n".as_bytes()).unwrap();
    assert_eq!(d.lines().as_slice(), &[Line::PlainText { text: "hello".to_string() }]);
}

#[test]
fn unicode_whitespace_separates_link_tokens() {
    let mut d = gemtext_doc();
    d.new_page_chunk("=> gemini://x\u{2003}Cap\n".as_bytes()).unwrap();
    assert_eq!(
        d.lines().as_slice(),
        &[Line::Link { target: "gemini://x".to_string(), caption: "Cap".to_string() }]
    );
}
