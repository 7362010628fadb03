//! The document of one navigation: accumulated source text, the buffered
//! partial line, the parsed line sequence, the selected markup parser and
//! the streaming decoder.  Body bytes go in; typed lines come out, one
//! per completed line of decoded text, identically however the bytes were
//! chunked.

use vstd::prelude::*;
use vstd::utf8::{decode_utf8, valid_utf8};

use crate::decode::{holdback_s, known_charset, lemma_utf8_feed_step, utf8_feed, TextDecoder,
    TextDecoderV};
use crate::errors::{ContentError, ProtocolError};
use crate::line::{parser_step, Gemini, Line, LineV, Parser, ParserV, Plain};
use crate::mimeinfo::{mime_parts_of, parse_mime};

verus! {

/// The line-splitting state: the buffered partial line, the parser state,
/// and the lines produced so far.
#[verifier::ext_equal]
pub ghost struct SplitState {
    pub pending_line: Seq<char>,
    pub parser: ParserV,
    pub lines: Seq<LineV>,
}

/// A completed line with one trailing carriage return removed.
pub open spec fn strip_cr(s: Seq<char>) -> Seq<char> {
    if s.len() > 0 && s.last() == '\r' {
        s.drop_last()
    } else {
        s
    }
}

/// One decoded character arriving at the document: a newline completes
/// and parses the buffered line (a failed line is dropped, the rest of
/// the document goes on); any other character is buffered.
pub open spec fn split_step(st: SplitState, c: char) -> SplitState {
    if c == '\n' {
        let pr = parser_step(st.parser, strip_cr(st.pending_line));
        SplitState {
            pending_line: Seq::empty(),
            parser: pr.0,
            lines: match pr.1 {
                Ok(Some(l)) => st.lines.push(l),
                Ok(None) => st.lines,
                Err(_) => st.lines,
            },
        }
    } else {
        SplitState { pending_line: st.pending_line.push(c), parser: st.parser, lines: st.lines }
    }
}

/// Decoded text arriving at the document, character by character.
pub open spec fn split_fold(st: SplitState, text: Seq<char>) -> SplitState
    decreases text.len(),
{
    if text.len() == 0 {
        st
    } else {
        split_fold(split_step(st, text[0]), text.drop_first())
    }
}

/// Folding text is the same done in one piece or in two.
pub proof fn lemma_split_fold_app(st: SplitState, a: Seq<char>, b: Seq<char>)
    ensures
        split_fold(st, a + b) == split_fold(split_fold(st, a), b),
    decreases a.len(),
{
    if a.len() == 0 {
        assert(a + b =~= b);
    } else {
        assert((a + b)[0] == a[0]);
        assert((a + b).drop_first() =~= a.drop_first() + b);
        lemma_split_fold_app(split_step(st, a[0]), a.drop_first(), b);
    }
}

/// The mathematical state of a `Document`.
#[verifier::ext_equal]
pub ghost struct DocumentV {
    pub source: Seq<char>,
    pub pending_line: Seq<char>,
    pub lines: Seq<LineV>,
    pub parser: ParserV,
    pub decoder: TextDecoderV,
    pub essence: Seq<char>,
    pub base_url: Option<Seq<char>>,
    pub failed: bool,
}

/// What decoded text does to a document: it is appended to the source
/// and folded into the line splitter; everything else is untouched.
pub open spec fn doc_feed_text(d: DocumentV, text: Seq<char>) -> DocumentV {
    let st = split_fold(
        SplitState { pending_line: d.pending_line, parser: d.parser, lines: d.lines },
        text,
    );
    DocumentV {
        source: d.source + text,
        pending_line: st.pending_line,
        lines: st.lines,
        parser: st.parser,
        decoder: d.decoder,
        essence: d.essence,
        base_url: d.base_url,
        failed: d.failed,
    }
}

/// What one chunk of body bytes does to a document with the pass-through
/// decoder: the bytes completed by the chunk are decoded and folded in,
/// the rest is held back; malformed bytes fail the navigation.
pub open spec fn doc_feed(d: DocumentV, bytes: Seq<u8>) -> Option<DocumentV> {
    if d.failed {
        None
    } else {
        match d.decoder {
            TextDecoderV::Utf8 { pending } => match utf8_feed(pending, bytes) {
                Some(tp) => {
                    let dt = doc_feed_text(d, tp.0);
                    Some(
                        DocumentV {
                            decoder: TextDecoderV::Utf8 { pending: tp.1 },
                            source: dt.source,
                            pending_line: dt.pending_line,
                            lines: dt.lines,
                            parser: dt.parser,
                            essence: dt.essence,
                            base_url: dt.base_url,
                            failed: dt.failed,
                        },
                    )
                },
                None => None,
            },
            TextDecoderV::Charset { .. } => None,
        }
    }
}

/// The bytes of all chunks, in order.
pub open spec fn concat_chunks(chunks: Seq<Seq<u8>>) -> Seq<u8>
    decreases chunks.len(),
{
    if chunks.len() == 0 {
        Seq::empty()
    } else {
        chunks[0] + concat_chunks(chunks.drop_first())
    }
}

/// Feeding a sequence of chunks, one after the other; a failure is
/// final.
pub open spec fn doc_feed_all(d: DocumentV, chunks: Seq<Seq<u8>>) -> Option<DocumentV>
    decreases chunks.len(),
{
    if chunks.len() == 0 {
        Some(d)
    } else {
        match doc_feed(d, chunks[0]) {
            Some(d2) => doc_feed_all(d2, chunks.drop_first()),
            None => None,
        }
    }
}

/// The document after the stream's first `s` bytes have been decoded and
/// folded in and the bytes from `s` to `m` are held by the decoder.
pub open spec fn doc_state_at(d: DocumentV, b: Seq<u8>, s: int, m: int) -> DocumentV {
    let dt = doc_feed_text(d, decode_utf8(b.take(s)));
    DocumentV {
        decoder: TextDecoderV::Utf8 { pending: b.subrange(s, m) },
        source: dt.source,
        pending_line: dt.pending_line,
        lines: dt.lines,
        parser: dt.parser,
        essence: dt.essence,
        base_url: dt.base_url,
        failed: dt.failed,
    }
}

proof fn lemma_doc_feed_text_app(d: DocumentV, a: Seq<char>, b: Seq<char>)
    ensures
        doc_feed_text(doc_feed_text(d, a), b) == doc_feed_text(d, a + b),
{
    lemma_split_fold_app(
        SplitState { pending_line: d.pending_line, parser: d.parser, lines: d.lines },
        a,
        b,
    );
    assert(doc_feed_text(doc_feed_text(d, a), b).source =~= doc_feed_text(d, a + b).source);
    assert(doc_feed_text(doc_feed_text(d, a), b) =~= doc_feed_text(d, a + b));
}

proof fn lemma_doc_feed_step(d: DocumentV, b: Seq<u8>, s: int, m: int, m2: int)
    requires
        !d.failed,
        valid_utf8(b),
        0 <= s <= m <= m2 <= b.len(),
        vstd::utf8::is_char_boundary(b, s),
    ensures
        ({
            let s2 = m2 - holdback_s(b.subrange(s, m2));
            &&& s <= s2 <= m2
            &&& doc_feed(doc_state_at(d, b, s, m), b.subrange(m, m2)) == Some(
                doc_state_at(d, b, s2, m2),
            )
            &&& vstd::utf8::is_char_boundary(b, s2)
            &&& (m2 == b.len() ==> s2 == m2)
        }),
{
    lemma_utf8_feed_step(b, s, m, m2);
    let s2 = m2 - holdback_s(b.subrange(s, m2));
    let dm = doc_state_at(d, b, s, m);
    let t = decode_utf8(b.subrange(s, s2));
    assert(utf8_feed(b.subrange(s, m), b.subrange(m, m2)) == Some(
        (t, b.subrange(s2, m2)),
    ));
    lemma_doc_feed_text_app(d, decode_utf8(b.take(s)), t);
    assert(decode_utf8(b.take(s)) + t =~= decode_utf8(b.take(s2)));
    assert(doc_feed_text(dm, t).source =~= doc_feed_text(
        doc_feed_text(d, decode_utf8(b.take(s))),
        t,
    ).source);
    assert(doc_feed_text(dm, t).lines == doc_feed_text(
        doc_feed_text(d, decode_utf8(b.take(s))),
        t,
    ).lines);
    assert(doc_feed(dm, b.subrange(m, m2)) == Some(doc_state_at(d, b, s2, m2))) by {
        assert(doc_feed(dm, b.subrange(m, m2))->0 =~= doc_state_at(d, b, s2, m2));
    }
}

proof fn lemma_feed_all_segments(d: DocumentV, b: Seq<u8>, s: int, m: int, chunks: Seq<
    Seq<u8>,
>)
    requires
        !d.failed,
        valid_utf8(b),
        0 <= s <= m <= b.len(),
        vstd::utf8::is_char_boundary(b, s),
        concat_chunks(chunks) == b.subrange(m, b.len() as int),
        m == b.len() ==> s == m,
    ensures
        doc_feed_all(doc_state_at(d, b, s, m), chunks) == Some(
            doc_state_at(d, b, b.len() as int, b.len() as int),
        ),
    decreases chunks.len(),
{
    if chunks.len() == 0 {
        assert(b.subrange(m, b.len() as int).len() == 0);
        assert(m == b.len() && s == m);
    } else {
        let c0 = chunks[0];
        let m2 = m + c0.len();
        assert(c0 + concat_chunks(chunks.drop_first()) == b.subrange(m, b.len() as int));
        assert(m2 <= b.len());
        assert(c0 =~= b.subrange(m, m2)) by {
            assert(forall|k: int|
                0 <= k < c0.len() ==> c0[k] == (c0 + concat_chunks(chunks.drop_first()))[k]);
        }
        assert(concat_chunks(chunks.drop_first()) =~= b.subrange(m2, b.len() as int)) by {
            let rest = concat_chunks(chunks.drop_first());
            assert(forall|k: int|
                0 <= k < rest.len() ==> rest[k] == (c0 + rest)[k + c0.len()]);
        }
        lemma_doc_feed_step(d, b, s, m, m2);
        let s2 = m2 - holdback_s(b.subrange(s, m2));
        lemma_feed_all_segments(d, b, s2, m2, chunks.drop_first());
    }
}

/// Chunk-boundary invariance: however a valid stream of body bytes is
/// cut into chunks, feeding the chunks one by one leaves the document —
/// its source, its parsed line sequence, everything — in one and the
/// same state, and never fails.
pub proof fn lemma_chunk_boundary_invariance(d: DocumentV, chunks1: Seq<Seq<u8>>, chunks2: Seq<
    Seq<u8>,
>)
    requires
        !d.failed,
        (d.decoder matches TextDecoderV::Utf8 { pending } && pending.len() == 0),
        valid_utf8(concat_chunks(chunks1)),
        concat_chunks(chunks2) == concat_chunks(chunks1),
    ensures
        doc_feed_all(d, chunks1) is Some,
        doc_feed_all(d, chunks1) == doc_feed_all(d, chunks2),
{
    let b = concat_chunks(chunks1);
    assert(vstd::utf8::is_char_boundary(b, 0)) by {
        vstd::utf8::is_char_boundary_start_end_of_seq(b);
    }
    assert(doc_state_at(d, b, 0, 0) == d) by {
        assert(b.take(0) =~= Seq::<u8>::empty());
        assert(decode_utf8(Seq::<u8>::empty()) =~= Seq::<char>::empty());
        assert(doc_feed_text(d, Seq::<char>::empty()).source =~= d.source);
        assert(b.subrange(0, 0) =~= Seq::<u8>::empty());
        assert(d.decoder->Utf8_pending =~= Seq::<u8>::empty());
        assert(doc_state_at(d, b, 0, 0) =~= d);
    }
    assert(b.subrange(0, b.len() as int) =~= b);
    lemma_feed_all_segments(d, b, 0, 0, chunks1);
    lemma_feed_all_segments(d, b, 0, 0, chunks2);
}

/// The document of one navigation.
pub struct Document {
    source: String,
    pending_line: String,
    lines: Vec<Line>,
    parser: Parser,
    decoder: TextDecoder,
    essence: String,
    base_url: Option<String>,
    failed: bool,
}

impl View for Document {
    type V = DocumentV;

    closed spec fn view(&self) -> DocumentV {
        DocumentV {
            source: self.source@,
            pending_line: self.pending_line@,
            lines: self.lines.deep_view(),
            parser: self.parser@,
            decoder: self.decoder@,
            essence: self.essence@,
            base_url: match &self.base_url {
                Some(u) => Some(u@),
                None => None,
            },
            failed: self.failed,
        }
    }
}

impl Document {
    /// A fresh document: plain text, pass-through decoding, no base URL.
    pub fn new() -> (r: Self)
        ensures
            r@.source.len() == 0,
            r@.pending_line.len() == 0,
            r@.lines.len() == 0,
            r@.parser is Plaintext,
            (r@.decoder matches TextDecoderV::Utf8 { pending } && pending.len() == 0),
            r@.essence == "text/plain"@,
            r@.base_url is None,
            !r@.failed,
    {
        Document {
            source: String::new(),
            pending_line: String::new(),
            lines: Vec::new(),
            parser: Parser::Plaintext(Plain::new()),
            decoder: TextDecoder::for_charset(None),
            essence: String::from_str("text/plain"),
            base_url: None,
            failed: false,
        }
    }

    /// Clears everything of the old navigation except the base URL:
    /// source and lines go together, and the defaults return.
    pub fn reset(&mut self)
        ensures
            final(self)@.source.len() == 0,
            final(self)@.pending_line.len() == 0,
            final(self)@.lines.len() == 0,
            final(self)@.parser is Plaintext,
            (final(self)@.decoder matches TextDecoderV::Utf8 { pending } && pending.len() == 0),
            final(self)@.essence == "text/plain"@,
            final(self)@.base_url == old(self)@.base_url,
            !final(self)@.failed,
    {
        self.source = String::new();
        self.pending_line = String::new();
        self.lines = Vec::new();
        self.parser = Parser::Plaintext(Plain::new());
        self.decoder = TextDecoder::for_charset(None);
        self.essence = String::from_str("text/plain");
        self.failed = false;
    }

    /// Sets the base URL that relative link targets resolve against.
    pub fn set_url(&mut self, url: &str)
        ensures
            final(self)@ == (DocumentV { base_url: Some(url@), ..old(self)@ }),
    {
        self.base_url = Some(String::from_str(url));
    }

    /// Selects parser and decoder from the response mimetype: the essence
    /// picks the parser from the registry, the charset parameter picks
    /// the decoder.  An unparseable or unregistered mime changes nothing
    /// and is the corresponding protocol error.
    #[verifier::rlimit(60)]
    pub fn set_mime(&mut self, mime: &str) -> (r: Result<(), ProtocolError>)
        ensures
            r is Err ==> final(self)@ == old(self)@,
            r is Err && mime_parts_of(mime@) is None ==> r->Err_0 is InvalidMime,
            r is Err && mime_parts_of(mime@) is Some ==> r->Err_0 is UnknownMime && (mime_parts_of(
                mime@,
            )->0).0 != "text/gemini"@ && (mime_parts_of(mime@)->0).0 != "text/plain"@,
            r is Ok ==> mime_parts_of(mime@) is Some,
            r is Ok ==> ({
                let p = mime_parts_of(mime@)->0;
                &&& (p.0 == "text/gemini"@ || p.0 == "text/plain"@)
                &&& final(self)@.essence == p.0
                &&& (p.0 == "text/gemini"@ ==> final(self)@.parser == (ParserV::Gemtext {
                    pre: false,
                }))
                &&& (p.0 == "text/plain"@ ==> final(self)@.parser is Plaintext)
            }),
            r is Ok ==> ({
                let p = mime_parts_of(mime@)->0;
                match p.1 {
                    None => (final(self)@.decoder matches TextDecoderV::Utf8 { pending }
                        && pending.len() == 0),
                    Some(l) => if known_charset(l) {
                        final(self)@.decoder == (TextDecoderV::Charset { finished: false })
                    } else {
                        (final(self)@.decoder matches TextDecoderV::Utf8 { pending }
                            && pending.len() == 0)
                    },
                }
            }),
            r is Ok ==> final(self)@.source == old(self)@.source,
            r is Ok ==> final(self)@.pending_line == old(self)@.pending_line,
            r is Ok ==> final(self)@.lines == old(self)@.lines,
            r is Ok ==> final(self)@.base_url == old(self)@.base_url,
            r is Ok ==> final(self)@.failed == old(self)@.failed,
    {
        let parts = parse_mime(mime);
        match parts {
            None => Err(ProtocolError::InvalidMime),
            Some((essence, charset)) => {
                proof {
                    reveal_strlit("text/gemini");
                    reveal_strlit("text/plain");
                }
                let gem = String::from_str("text/gemini");
                let plain = String::from_str("text/plain");
                if essence == gem {
                    self.parser = Parser::Gemtext(Gemini::new());
                    proof {
                        assert(essence@ == "text/gemini"@);
                        assert(essence@ != "text/plain"@) by {
                            reveal_strlit("text/gemini");
                            reveal_strlit("text/plain");
                            assert("text/gemini"@.len() != "text/plain"@.len());
                        }
                        assert(self.parser@ == (ParserV::Gemtext { pre: false }));
                    }
                } else if essence == plain {
                    self.parser = Parser::Plaintext(Plain::new());
                    proof {
                        assert(essence@ == "text/plain"@);
                        assert(self.parser@ is Plaintext);
                    }
                } else {
                    return Err(ProtocolError::UnknownMime);
                }
                self.essence = essence;
                match &charset {
                    Some(l) => {
                        self.decoder = TextDecoder::for_charset(Some(l.as_str()));
                    },
                    None => {
                        self.decoder = TextDecoder::for_charset(None);
                    },
                }
                Ok(())
            },
        }
    }

    /// Selects the gemtext renderer directly, as the synthesized error
    /// page does, with pass-through decoding.
    pub(crate) fn set_gemtext(&mut self)
        ensures
            final(self)@.parser == (ParserV::Gemtext { pre: false }),
            (final(self)@.decoder matches TextDecoderV::Utf8 { pending } && pending.len() == 0),
            final(self)@.essence == "text/gemini"@,
            final(self)@.source == old(self)@.source,
            final(self)@.pending_line == old(self)@.pending_line,
            final(self)@.lines == old(self)@.lines,
            final(self)@.base_url == old(self)@.base_url,
            final(self)@.failed == old(self)@.failed,
    {
        self.parser = Parser::Gemtext(Gemini::new());
        self.decoder = TextDecoder::for_charset(None);
        self.essence = String::from_str("text/gemini");
    }

    /// The parsed lines, in document order.
    pub fn lines(&self) -> (r: &Vec<Line>)
        ensures
            r.deep_view() == self@.lines,
    {
        &self.lines
    }

    /// The accumulated source text.
    pub fn source(&self) -> (r: &String)
        ensures
            r@ == self@.source,
    {
        &self.source
    }

    /// The essence of the document's mimetype.
    pub fn essence(&self) -> (r: &String)
        ensures
            r@ == self@.essence,
    {
        &self.essence
    }

    /// The base URL, once a navigation has set one.
    pub fn base_url(&self) -> (r: &Option<String>)
        ensures
            match r {
                Some(u) => self@.base_url is Some && u@ == self@.base_url->0,
                None => self@.base_url is None,
            },
    {
        &self.base_url
    }

    /// Whether a content error has ended this navigation.
    pub fn has_failed(&self) -> (r: bool)
        ensures
            r == self@.failed,
    {
        self.failed
    }

    /// Folds one piece of decoded text into source, splitter and parser.
    fn apply_text(&mut self, text: &str)
        ensures
            final(self)@ == doc_feed_text(old(self)@, text@),
    {
        let ghost st0 = SplitState {
            pending_line: old(self)@.pending_line,
            parser: old(self)@.parser,
            lines: old(self)@.lines,
        };
        self.source.append(text);
        let n: usize = text.unicode_len();
        let mut i: usize = 0;
        let mut start: usize = 0;
        while i < n
            invariant
                0 <= start <= i <= n,
                n == text@.len(),
                forall|k: int| start <= k < i ==> text@[k] != '\n',
                ({
                    let sti = split_fold(st0, text@.take(i as int));
                    &&& sti.pending_line =~= self.pending_line@ + text@.subrange(
                        start as int,
                        i as int,
                    )
                    &&& sti.parser == self.parser@
                    &&& sti.lines =~= self.lines.deep_view()
                }),
                self.source@ == old(self)@.source + text@,
                self.decoder@ == old(self)@.decoder,
                self.essence@ == old(self)@.essence,
                self@.base_url == old(self)@.base_url,
                self.failed == old(self)@.failed,
            decreases n - i,
        {
            let ghost sti = split_fold(st0, text@.take(i as int));
            let c = text.get_char(i);
            proof {
                lemma_split_fold_app(st0, text@.take(i as int), seq![c]);
                assert(text@.take(i as int) + seq![c] =~= text@.take(i as int + 1));
                reveal_with_fuel(split_fold, 2);
                assert(seq![c].drop_first() =~= Seq::<char>::empty());
                assert(split_fold(sti, seq![c]) == split_step(sti, c));
            }
            if c == '\n' {
                let seg = text.substring_char(start, i);
                self.pending_line.append(seg);
                proof {
                    assert(self.pending_line@ =~= sti.pending_line);
                }
                let pl_len = self.pending_line.as_str().unicode_len();
                let complete: String = if pl_len > 0 && self.pending_line.as_str().get_char(
                    pl_len - 1,
                ) == '\r' {
                    let cut = self.pending_line.as_str().substring_char(0, pl_len - 1);
                    String::from_str(cut)
                } else {
                    String::from_str(self.pending_line.as_str())
                };
                proof {
                    assert(complete@ =~= strip_cr(sti.pending_line));
                }
                let parsed = self.parser.parse_line(complete.as_str());
                match parsed {
                    Ok(Some(l)) => self.lines.push(l),
                    Ok(None) => {},
                    Err(_) => {},
                }
                self.pending_line = String::new();
                start = i + 1;
                proof {
                    let stn = split_step(sti, c);
                    assert(self.lines.deep_view() =~= stn.lines);
                    assert(self.pending_line@ + text@.subrange(start as int, i as int + 1)
                        =~= stn.pending_line);
                }
            } else {
                proof {
                    let stn = split_step(sti, c);
                    assert(stn.pending_line =~= sti.pending_line.push(c));
                    assert(self.pending_line@ + text@.subrange(start as int, i as int + 1)
                        =~= stn.pending_line);
                }
            }
            i = i + 1;
        }
        let seg = text.substring_char(start, n);
        self.pending_line.append(seg);
        proof {
            assert(text@.take(n as int) =~= text@);
            let stn = split_fold(st0, text@);
            assert(self.pending_line@ =~= stn.pending_line);
            assert(final(self)@ =~= doc_feed_text(old(self)@, text@));
        }
    }

    /// Feeds one chunk of body bytes: decodes what the chunk completes
    /// and folds the text in.  With the pass-through decoder the outcome
    /// is exactly `doc_feed`; a decode failure fails the navigation for
    /// good.
    pub fn new_page_chunk(&mut self, bytes: &[u8]) -> (r: Result<(), ContentError>)
        ensures
            old(self)@.failed ==> r is Err && final(self)@ == old(self)@,
            !old(self)@.failed && old(self)@.decoder is Utf8 ==> (match doc_feed(
                old(self)@,
                bytes@,
            ) {
                Some(d2) => r is Ok && final(self)@ == d2,
                None => r is Err && final(self)@.failed,
            }),
            !old(self)@.failed && old(self)@.decoder is Charset ==> (match r {
                Ok(_) => (exists|text: Seq<char>|
                    final(self)@ == doc_feed_text(old(self)@, text)),
                Err(_) => final(self)@.failed,
            }),
            r is Err ==> r->Err_0 is MalformedEncoding,
            // A failed chunk changes nothing but the failure latch and the
            // decoder: no line, no source text comes of malformed input.
            r is Err ==> final(self)@.source == old(self)@.source && final(self)@.pending_line
                == old(self)@.pending_line && final(self)@.lines == old(self)@.lines,
            r is Err ==> final(self)@.parser == old(self)@.parser && final(self)@.essence
                == old(self)@.essence && final(self)@.base_url == old(self)@.base_url,
    {
        if self.failed {
            return Err(ContentError::MalformedEncoding);
        }
        let ghost d0 = self@;
        let fed = self.decoder.feed(bytes);
        match fed {
            Err(e) => {
                self.failed = true;
                Err(e)
            },
            Ok(text) => {
                let ghost dmid = self@;
                self.apply_text(text.as_str());
                proof {
                    if d0.decoder is Utf8 {
                        let tp = utf8_feed(d0.decoder->Utf8_pending, bytes@)->0;
                        assert(final(self)@ =~= doc_feed(d0, bytes@)->0);
                    } else {
                        assert(final(self)@ =~= doc_feed_text(d0, text@));
                    }
                }
                Ok(())
            },
        }
    }
    /// Ends the body stream: a held-back incomplete character is a
    /// content error; a charset decoder may flush final text.
    pub fn finish(&mut self) -> (r: Result<(), ContentError>)
        ensures
            old(self)@.failed ==> r is Err && final(self)@ == old(self)@,
            !old(self)@.failed && (old(self)@.decoder matches TextDecoderV::Utf8 { pending })
                ==> ({
                let pending = old(self)@.decoder->Utf8_pending;
                &&& (pending.len() == 0 ==> r is Ok && final(self)@ == old(self)@)
                &&& (pending.len() != 0 ==> r is Err && final(self)@.failed)
            }),
            !old(self)@.failed && old(self)@.decoder is Charset ==> (match r {
                Ok(_) => final(self)@.decoder == (TextDecoderV::Charset { finished: true })
                    && (exists|text: Seq<char>|
                    {
                        let dt = #[trigger] doc_feed_text(old(self)@, text);
                        &&& final(self)@.source == dt.source
                        &&& final(self)@.pending_line == dt.pending_line
                        &&& final(self)@.lines == dt.lines
                        &&& final(self)@.parser == dt.parser
                        &&& final(self)@.essence == dt.essence
                        &&& final(self)@.base_url == dt.base_url
                        &&& final(self)@.failed == dt.failed
                    }),
                Err(_) => final(self)@.failed,
            }),
            r is Err ==> r->Err_0 is MalformedEncoding,
            // A failed finish changes nothing but the failure latch and the
            // decoder.
            r is Err ==> final(self)@.source == old(self)@.source && final(self)@.pending_line
                == old(self)@.pending_line && final(self)@.lines == old(self)@.lines,
            r is Err ==> final(self)@.parser == old(self)@.parser && final(self)@.essence
                == old(self)@.essence && final(self)@.base_url == old(self)@.base_url,
    {
        if self.failed {
            return Err(ContentError::MalformedEncoding);
        }
        let ghost d0 = self@;
        match self.decoder.finish() {
            Err(e) => {
                self.failed = true;
                Err(e)
            },
            Ok(text) => {
                self.apply_text(text.as_str());
                proof {
                    if d0.decoder is Utf8 {
                        assert(final(self)@ =~= d0);
                    } else {
                        let dt = doc_feed_text(d0, text@);
                        assert(final(self)@.source == dt.source);
                        assert(final(self)@.lines == dt.lines);
                    }
                }
                Ok(())
            },
        }
    }
}

} // verus!
