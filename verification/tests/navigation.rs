use moonlander::codec::Message;
use moonlander::doc::Document;
use moonlander::line::Line;
use moonlander::policy::GeminiVerifier;
use moonlander::session::{
    build_error_page, decide_goto, GotoDecision, Session, SessionAction,
};

#[test]
fn five_redirects_complete_normally() {
    let mut s = Session::new();
    for _ in 0..5 {
        assert!(s.record_redirect().is_ok());
    }
}

#[test]
fn sixth_redirect_is_a_loop() {
    let mut s = Session::new();
    for _ in 0..5 {
        s.record_redirect().unwrap();
    }
    let e = s.record_redirect().unwrap_err();
    assert_eq!(e.message(), "loop detected");
}

#[test]
fn new_navigation_resets_the_redirect_count() {
    let mut s = Session::new();
    for _ in 0..5 {
        s.record_redirect().unwrap();
    }
    s.begin_navigation();
    assert!(s.record_redirect().is_ok());
}

#[test]
fn redirect_events_through_the_session() {
    let mut s = Session::new();
    let mut d = Document::new();
    for n in 0..5 {
        let r = s.handle_message(&mut d, Message::Redirect(format!("gemini://r{}", n)));
        assert_eq!(r, SessionAction::FetchRedirect(format!("gemini://r{}", n)));
    }
    let r = s.handle_message(&mut d, Message::Redirect("gemini://r5".to_string()));
    assert_eq!(r, SessionAction::Failed { message: "loop detected".to_string() });
}

#[test]
fn header_event_selects_the_parser() {
    let mut s = Session::new();
    let mut d = Document::new();
    let r = s.handle_message(
        &mut d,
        Message::Header { status: 20, meta: "text/gemini".to_string() },
    );
    assert_eq!(r, SessionAction::Proceed);
    assert_eq!(d.essence().as_str(), "text/gemini");
}

#[test]
fn unknown_mime_fails_the_navigation() {
    let mut s = Session::new();
    let mut d = Document::new();
    let r = s.handle_message(
        &mut d,
        Message::Header { status: 20, meta: "image/png".to_string() },
    );
    assert_eq!(r, SessionAction::Failed { message: "no renderer for mime".to_string() });
}

#[test]
fn chunks_and_done_build_the_document() {
    let mut s = Session::new();
    let mut d = Document::new();
    s.handle_message(&mut d, Message::Header { status: 20, meta: "text/gemini".to_string() });
    s.handle_message(&mut d, Message::Chunk(b"# Hi\n".to_vec()));
    let r = s.handle_message(&mut d, Message::Done);
    assert_eq!(r, SessionAction::Finished);
    assert_eq!(
        d.lines().as_slice(),
        &[Line::Heading { level: 1, text: "Hi".to_string() }]
    );
}

#[test]
fn error_response_synthesizes_a_page() {
    let mut s = Session::new();
    let mut d = Document::new();
    let r = s.handle_message(
        &mut d,
        Message::ErrorResponse { code: 51, meta: "gone fishing".to_string() },
    );
    assert_eq!(r, SessionAction::Finished);
    assert_eq!(d.source().as_str(), "# Error 51\n\ngone fishing\n\nNot Found\n");
    assert_eq!(
        d.lines().as_slice(),
        &[
            Line::Heading { level: 1, text: "Error 51".to_string() },
            Line::PlainText { text: "".to_string() },
            Line::PlainText { text: "gone fishing".to_string() },
            Line::PlainText { text: "".to_string() },
            Line::PlainText { text: "Not Found".to_string() },
        ]
    );
}

#[test]
fn terminal_error_synthesizes_a_page_too() {
    let mut s = Session::new();
    let mut d = Document::new();
    let r = s.handle_message(
        &mut d,
        Message::Error { cause: "connection reset".to_string() },
    );
    assert_eq!(r, SessionAction::Failed { message: "connection reset".to_string() });
    assert_eq!(d.source().as_str(), "# Error\n\nconnection reset\n");
    assert!(!d.lines().is_empty());
}

#[test]
fn error_page_for_unknown_code() {
    assert_eq!(
        build_error_page(97, "strange"),
        "# Error 97\n\nstrange\n\nUnknown Status Code\n"
    );
}

#[test]
fn goto_gemini_url_with_default_port() {
    let r = decide_goto("gemini://example.org/page");
    assert_eq!(
        r,
        GotoDecision::Fetch { host: "example.org".to_string(), port: 1965 }
    );
}

#[test]
fn goto_gemini_url_with_explicit_port() {
    let r = decide_goto("gemini://example.org:1966/");
    assert_eq!(
        r,
        GotoDecision::Fetch { host: "example.org".to_string(), port: 1966 }
    );
}

#[test]
fn goto_other_scheme_is_unsupported() {
    assert_eq!(decide_goto("https://example.org/"), GotoDecision::Unsupported);
}

#[test]
fn goto_invalid_url_is_invalid() {
    assert_eq!(decide_goto("not a url"), GotoDecision::Invalid);
}

#[test]
fn certificate_policy_accepts_everything() {
    let v = GeminiVerifier::new();
    assert!(v.accepts("example.org", &vec![vec![0x30, 0x82]]));
}
