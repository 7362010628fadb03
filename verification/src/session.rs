//! The navigation session: the redirect bound the UI side enforces, the
//! decision what to do with a URL the user or a link supplies, the
//! handling of the codec's events, and the synthesized error document
//! that keeps the viewport from ever being left blank.

use vstd::prelude::*;
use vstd::utf8::{decode_utf8, encode_utf8, valid_utf8};

use crate::codec::{Message, MessageV};
use crate::decode::{holdback_s, lemma_utf8_feed_step, utf8_feed, TextDecoderV};
use crate::doc::{doc_feed, doc_feed_text, Document, DocumentV};
use crate::errors::NavError;
use crate::line::ParserV;
use crate::mimeinfo::mime_parts_of;
use crate::status::{message_for, status_message, unknown_status_message};
use crate::urlinfo::{url_parts, url_parts_of};

verus! {

/// How many consecutive redirects one navigation may take.
pub open spec fn redirect_bound() -> int {
    5
}

/// One navigation session on the UI side: its redirect counter.
pub struct Session {
    redirect_count: u8,
}

impl View for Session {
    type V = int;

    closed spec fn view(&self) -> int {
        self.redirect_count as int
    }
}

impl Session {
    /// A fresh session with no redirects taken.
    pub fn new() -> (r: Self)
        ensures
            r@ == 0,
    {
        Session { redirect_count: 0 }
    }

    /// A user-initiated navigation starts a fresh redirect count.
    pub fn begin_navigation(&mut self)
        ensures
            final(self)@ == 0,
    {
        self.redirect_count = 0;
    }

    /// Takes one redirect: allowed while fewer than the bound have been
    /// taken in this navigation, a loop error from the sixth on.
    pub fn record_redirect(&mut self) -> (r: Result<u8, NavError>)
        ensures
            old(self)@ < redirect_bound() ==> r is Ok && final(self)@ == old(self)@ + 1
                && r->Ok_0 as int == final(self)@,
            old(self)@ >= redirect_bound() ==> r is Err && r->Err_0 is RedirectLoop,
            old(self)@ >= redirect_bound() ==> final(self)@ == old(self)@,
    {
        if self.redirect_count < 5 {
            self.redirect_count = self.redirect_count + 1;
            Ok(self.redirect_count)
        } else {
            Err(NavError::RedirectLoop)
        }
    }
}

/// What to do with a URL the user or a redirect supplies.
#[derive(Clone, Debug, PartialEq, Eq)]
pub enum GotoDecision {
    /// A supported URL: connect to this host and port (1965 when the URL
    /// names none).
    Fetch { host: String, port: u16 },
    /// A well-formed URL of a scheme this client does not speak.
    Unsupported,
    /// Not a usable absolute URL.
    Invalid,
}

/// Decides a navigation request: only the gemini scheme is fetched, with
/// the default port when the URL names none.
pub fn decide_goto(url: &str) -> (r: GotoDecision)
    ensures
        match url_parts_of(url@) {
            None => r is Invalid,
            Some(p) => if p.0 == "gemini"@ {
                (r matches GotoDecision::Fetch { host, port } && host@ == p.1 && port as int
                    == (match p.2 {
                    Some(pt) => pt as int,
                    None => 1965,
                }))
            } else {
                r is Unsupported
            },
        },
{
    match url_parts(url) {
        None => GotoDecision::Invalid,
        Some((scheme, host, port)) => {
            let gem = String::from_str("gemini");
            if scheme == gem {
                let p: u16 = match port {
                    Some(pt) => pt,
                    None => 1965,
                };
                GotoDecision::Fetch { host, port: p }
            } else {
                GotoDecision::Unsupported
            }
        },
    }
}

/// The character of one decimal digit.
pub open spec fn digit_char(d: int) -> char {
    if d == 0 {
        '0'
    } else if d == 1 {
        '1'
    } else if d == 2 {
        '2'
    } else if d == 3 {
        '3'
    } else if d == 4 {
        '4'
    } else if d == 5 {
        '5'
    } else if d == 6 {
        '6'
    } else if d == 7 {
        '7'
    } else if d == 8 {
        '8'
    } else {
        '9'
    }
}

/// The decimal digits of a status code.
pub open spec fn code_digits(c: int) -> Seq<char> {
    if c < 100 {
        seq![digit_char(c / 10), digit_char(c % 10)]
    } else {
        seq![digit_char(c / 100), digit_char(c / 10 % 10), digit_char(c % 10)]
    }
}

fn digit_str(d: u8) -> (r: &'static str)
    requires
        d < 10,
    ensures
        r@ =~= seq![digit_char(d as int)],
{
    if d == 0 {
        proof {
            reveal_strlit("0");
        }
        "0"
    } else if d == 1 {
        proof {
            reveal_strlit("1");
        }
        "1"
    } else if d == 2 {
        proof {
            reveal_strlit("2");
        }
        "2"
    } else if d == 3 {
        proof {
            reveal_strlit("3");
        }
        "3"
    } else if d == 4 {
        proof {
            reveal_strlit("4");
        }
        "4"
    } else if d == 5 {
        proof {
            reveal_strlit("5");
        }
        "5"
    } else if d == 6 {
        proof {
            reveal_strlit("6");
        }
        "6"
    } else if d == 7 {
        proof {
            reveal_strlit("7");
        }
        "7"
    } else if d == 8 {
        proof {
            reveal_strlit("8");
        }
        "8"
    } else {
        proof {
            reveal_strlit("9");
        }
        "9"
    }
}

/// The synthesized gemtext document for a structured server outcome:
/// heading with the code, the server's meta line, and the documented
/// message for the code (or the unknown-code fallback).
pub open spec fn error_page_s(code: u8, meta: Seq<char>) -> Seq<char> {
    "# Error "@ + code_digits(code as int) + "\n\n"@ + meta + "\n\n"@ + (match message_for(
        code,
    ) {
        Some(m) => m,
        None => unknown_status_message(),
    }) + "\n"@
}

/// Builds the error page for a structured server outcome.
pub fn build_error_page(code: u8, meta: &str) -> (r: String)
    ensures
        r@ == error_page_s(code, meta@),
{
    let mut page = String::from_str("# Error ");
    if code >= 100 {
        page.append(digit_str(code / 100));
    }
    page.append(digit_str(code / 10 % 10));
    page.append(digit_str(code % 10));
    page.append("\n\n");
    page.append(meta);
    page.append("\n\n");
    let msg = status_message(code);
    page.append(msg.as_str());
    page.append("\n");
    proof {
        if code < 100 {
            assert(code / 10 % 10 == code / 10) by (nonlinear_arith)
                requires
                    code < 100,
            ;
        }
        assert(page@ =~= error_page_s(code, meta@));
    }
    page
}

/// The synthesized gemtext document for a terminal client-side failure.
pub open spec fn failure_page_s(cause: Seq<char>) -> Seq<char> {
    "# Error\n\n"@ + cause + "\n"@
}

/// Feeding a whole valid encoding at once decodes it completely, with
/// nothing held back.
proof fn lemma_feed_whole(text: Seq<char>)
    ensures
        utf8_feed(Seq::<u8>::empty(), encode_utf8(text)) == Some(
            (text, Seq::<u8>::empty()),
        ),
{
    let b = encode_utf8(text);
    assert(valid_utf8(b)) by {
        vstd::utf8::encode_utf8_valid_utf8(text);
    }
    assert(vstd::utf8::is_char_boundary(b, 0)) by {
        vstd::utf8::is_char_boundary_start_end_of_seq(b);
    }
    lemma_utf8_feed_step(b, 0, 0, b.len() as int);
    let s2 = b.len() - holdback_s(b.subrange(0, b.len() as int));
    assert(b.subrange(0, 0) =~= Seq::<u8>::empty());
    assert(b.subrange(0, b.len() as int) =~= b);
    assert(s2 == b.len());
    assert(decode_utf8(b) == text) by {
        vstd::utf8::encode_utf8_decode_utf8(text);
    }
    assert(b.subrange(0, s2) =~= b);
    assert(b.subrange(s2, b.len() as int) =~= Seq::<u8>::empty());
}

/// A document cleared for a synthesized page: everything of the old
/// navigation gone but the base URL, gemtext selected, pass-through
/// decoding.
pub open spec fn reset_with_gemtext(d: DocumentV) -> DocumentV {
    DocumentV {
        source: Seq::empty(),
        pending_line: Seq::empty(),
        lines: Seq::empty(),
        parser: ParserV::Gemtext { pre: false },
        decoder: TextDecoderV::Utf8 { pending: Seq::empty() },
        essence: "text/gemini"@,
        base_url: d.base_url,
        failed: false,
    }
}

/// What the session tells the host to do after one protocol event.
#[derive(Clone, Debug, PartialEq, Eq)]
pub enum SessionAction {
    /// Nothing; the navigation keeps streaming.
    Proceed,
    /// An accepted redirect: fetch this URL next.
    FetchRedirect(String),
    /// The navigation ended; the document is complete.
    Finished,
    /// The navigation failed for this reason; the document may hold a
    /// synthesized error page.
    Failed { message: String },
}

impl Session {
    /// Applies one protocol event to the document and decides what the
    /// host does next: a success header selects parser and decoder, body
    /// chunks stream in, a redirect is taken while the bound allows,
    /// a structured server outcome or terminal error becomes a
    /// synthesized error page, and a clean end finishes the navigation.
    pub fn handle_message(&mut self, doc: &mut Document, msg: Message) -> (r: SessionAction)
        ensures
            !(msg@ is Redirect) ==> final(self)@ == old(self)@,
            msg@ matches MessageV::Header { status, meta } ==> (match mime_parts_of(meta) {
                None => (r matches SessionAction::Failed { message } && message@
                    == "cannot parse response mimetype"@ && final(doc)@ == old(doc)@),
                Some(p) => if p.0 == "text/gemini"@ || p.0 == "text/plain"@ {
                    &&& r is Proceed
                    &&& final(doc)@.essence == p.0
                    &&& (p.0 == "text/gemini"@ ==> final(doc)@.parser == (ParserV::Gemtext {
                        pre: false,
                    }))
                    &&& (p.0 == "text/plain"@ ==> final(doc)@.parser is Plaintext)
                    &&& final(doc)@.source == old(doc)@.source
                    &&& final(doc)@.lines == old(doc)@.lines
                    &&& final(doc)@.base_url == old(doc)@.base_url
                } else {
                    (r matches SessionAction::Failed { message } && message@
                        == "no renderer for mime"@ && final(doc)@ == old(doc)@)
                },
            }),
            msg@ matches MessageV::Chunk(bytes) ==> ((!old(doc)@.failed && old(doc)@.decoder
                is Utf8) ==> (match doc_feed(old(doc)@, bytes) {
                Some(d2) => r is Proceed && final(doc)@ == d2,
                None => r is Failed && final(doc)@.failed,
            })),
            msg@ matches MessageV::Redirect(target) ==> ({
                &&& (old(self)@ < redirect_bound() ==> (r matches
                    SessionAction::FetchRedirect(u) && u@ == target && final(self)@ == old(
                    self,
                )@ + 1 && final(doc)@ == old(doc)@))
                &&& (old(self)@ >= redirect_bound() ==> (r matches SessionAction::Failed {
                    message,
                } && message@ == "loop detected"@ && final(self)@ == old(self)@ && final(doc)@ == old(doc)@))
            }),
            msg@ matches MessageV::ErrorResponse { code, meta } ==> r is Finished && final(doc)@ == doc_feed_text(
                reset_with_gemtext(old(doc)@),
                error_page_s((code % 256) as u8, meta),
            ),
            msg@ matches MessageV::Error { cause } ==> (r matches SessionAction::Failed {
                message,
            } && message@ == cause && final(doc)@ == doc_feed_text(
                reset_with_gemtext(old(doc)@),
                failure_page_s(cause),
            )),
            msg@ is Done && !old(doc)@.failed && (old(doc)@.decoder matches
                TextDecoderV::Utf8 { pending }) ==> ({
                let pending = old(doc)@.decoder->Utf8_pending;
                &&& (pending.len() == 0 ==> r is Finished && final(doc)@ == old(doc)@)
                &&& (pending.len() != 0 ==> r is Failed && final(doc)@.failed)
            }),
    {
        match msg {
            Message::Header { status: _, meta } => match doc.set_mime(meta.as_str()) {
                Ok(_) => SessionAction::Proceed,
                Err(e) => SessionAction::Failed { message: e.message() },
            },
            Message::Chunk(bytes) => match doc.new_page_chunk(bytes.as_slice()) {
                Ok(_) => SessionAction::Proceed,
                Err(e) => SessionAction::Failed { message: e.message() },
            },
            Message::Redirect(target) => match self.record_redirect() {
                Ok(_) => SessionAction::FetchRedirect(target),
                Err(e) => SessionAction::Failed { message: e.message() },
            },
            Message::ErrorResponse { code, meta } => {
                doc.reset();
                doc.set_gemtext();
                let page = build_error_page(code, meta.as_str());
                let ghost dmid = doc@;
                proof {
                    assert(dmid =~~= reset_with_gemtext(old(doc)@));
                    lemma_feed_whole(page@);
                }
                let fed = doc.new_page_chunk(page.as_str().as_bytes());
                proof {
                    assert(doc_feed(dmid, encode_utf8(page@)) is Some);
                    assert(fed is Ok);
                    assert(final(doc)@ =~= doc_feed_text(dmid, page@));
                }
                SessionAction::Finished
            },
            Message::Error { cause } => {
                doc.reset();
                doc.set_gemtext();
                let page = build_failure_page(cause.as_str());
                let ghost dmid = doc@;
                proof {
                    assert(dmid =~~= reset_with_gemtext(old(doc)@));
                    lemma_feed_whole(page@);
                }
                let fed = doc.new_page_chunk(page.as_str().as_bytes());
                proof {
                    assert(doc_feed(dmid, encode_utf8(page@)) is Some);
                    assert(fed is Ok);
                    assert(final(doc)@ =~= doc_feed_text(dmid, page@));
                }
                SessionAction::Failed { message: cause }
            },
            Message::Done => match doc.finish() {
                Ok(_) => SessionAction::Finished,
                Err(e) => SessionAction::Failed { message: e.message() },
            },
        }
    }
}

/// Builds the error page for a terminal client-side failure.
pub fn build_failure_page(cause: &str) -> (r: String)
    ensures
        r@ == failure_page_s(cause@),
{
    let mut page = String::from_str("# Error\n\n");
    page.append(cause);
    page.append("\n");
    proof {
        assert(page@ =~= failure_page_s(cause@));
    }
    page
}

} // verus!
