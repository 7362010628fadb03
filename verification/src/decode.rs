//! Streaming character decoding for one navigation: either a verified
//! UTF-8 pass-through that holds back an incomplete trailing scalar
//! between chunks, or a decoder for a declared charset.  Malformed input
//! is a hard content error; nothing is ever replaced.

use vstd::prelude::*;
use vstd::slice::slice_to_vec;
use vstd::utf8::{
    decode_utf8, encode_utf8, is_char_boundary, is_continuation_byte, is_leading_byte_width_1,
    is_leading_byte_width_2, is_leading_byte_width_3, is_leading_byte_width_4,
    length_of_first_codepoint, valid_first_scalar, valid_utf8,
};

use crate::errors::ContentError;

verus! {

/// How many bytes an encoding starting with this byte occupies, or 0 when
/// the byte cannot start an encoding.
pub open spec fn lead_width(b: u8) -> int {
    if is_leading_byte_width_1(b) {
        1
    } else if is_leading_byte_width_2(b) {
        2
    } else if is_leading_byte_width_3(b) {
        3
    } else if is_leading_byte_width_4(b) {
        4
    } else {
        0
    }
}

/// Executable counterpart of `lead_width`.
fn lead_width_of(b: u8) -> (r: u8)
    ensures
        r as int == lead_width(b),
{
    if b <= 0x7f {
        1
    } else if 0xc0 <= b && b <= 0xdf {
        2
    } else if 0xe0 <= b && b <= 0xef {
        3
    } else if 0xf0 <= b && b <= 0xf7 {
        4
    } else {
        0
    }
}

/// How many trailing bytes of `p` form the start of an incomplete scalar
/// encoding and must wait for the next chunk.
pub open spec fn holdback_s(p: Seq<u8>) -> int {
    let n = p.len() as int;
    if n >= 1 && lead_width(p[n - 1]) >= 2 {
        1
    } else if n >= 2 && is_continuation_byte(p[n - 1]) && lead_width(p[n - 2]) >= 3 {
        2
    } else if n >= 3 && is_continuation_byte(p[n - 1]) && is_continuation_byte(p[n - 2])
        && lead_width(p[n - 3]) == 4 {
        3
    } else {
        0
    }
}

/// What feeding `input` after leftover `pending` yields: the decoded text
/// and the new leftover, or nothing when the completed bytes are not
/// valid UTF-8.
pub open spec fn utf8_feed(pending: Seq<u8>, input: Seq<u8>) -> Option<(Seq<char>, Seq<u8>)> {
    let p = pending + input;
    let c = p.len() - holdback_s(p);
    if valid_utf8(p.take(c)) {
        Some((decode_utf8(p.take(c)), p.skip(c)))
    } else {
        None
    }
}

proof fn lemma_lead_width_is_scalar_len(b: Seq<u8>)
    requires
        b.len() > 0,
        valid_first_scalar(b),
    ensures
        lead_width(b[0]) == length_of_first_codepoint(b),
        1 <= lead_width(b[0]) <= 4,
        forall|k: int| 1 <= k < lead_width(b[0]) ==> is_continuation_byte(b[k]),
{
}

/// In valid UTF-8, a non-boundary position sits inside a scalar whose
/// leading byte stands at most three bytes earlier, still expects more
/// bytes at that position, and is followed there only by continuation
/// bytes.
proof fn lemma_scalar_around(b: Seq<u8>, t: int)
    requires
        valid_utf8(b),
        0 <= t < b.len(),
        !is_char_boundary(b, t),
    ensures
        exists|l: int|
            #![trigger is_char_boundary(b, l)]
            {
                &&& 0 <= l < t
                &&& t - l <= 3
                &&& is_char_boundary(b, l)
                &&& lead_width(b[l]) > t - l
                &&& forall|k: int| l < k <= t ==> is_continuation_byte(b[k])
            },
    decreases b.len(),
{
    let w = length_of_first_codepoint(b);
    assert(valid_first_scalar(b));
    lemma_lead_width_is_scalar_len(b);
    if t < w {
        assert(t >= 1) by {
            vstd::utf8::is_char_boundary_start_end_of_seq(b);
        }
        assert(is_char_boundary(b, 0)) by {
            vstd::utf8::is_char_boundary_start_end_of_seq(b);
        }
        assert(lead_width(b[0]) == w > t - 0);
        assert(forall|k: int| 0 < k <= t ==> is_continuation_byte(b[k]));
    } else {
        let rest = vstd::utf8::pop_first_scalar(b);
        assert(rest =~= b.subrange(w, b.len() as int));
        assert(!is_char_boundary(rest, t - w));
        lemma_scalar_around(rest, t - w);
        let l0 = choose|l0: int|
            #![trigger is_char_boundary(rest, l0)]
            {
                &&& 0 <= l0 < t - w
                &&& (t - w) - l0 <= 3
                &&& is_char_boundary(rest, l0)
                &&& lead_width(rest[l0]) > (t - w) - l0
                &&& forall|k: int| l0 < k <= t - w ==> is_continuation_byte(rest[k])
            };
        let l = l0 + w;
        assert(is_char_boundary(b, l)) by {
            assert(l > 0);
        }
        assert(lead_width(b[l]) > t - l);
        assert forall|k: int| l < k <= t implies is_continuation_byte(b[k]) by {
            assert(is_continuation_byte(rest[k - w]));
            assert(rest[k - w] == b[k]);
        }
    }
}

/// One feed step, seen inside the whole byte stream `b`: starting from a
/// character boundary `s` with everything up to `m` already fed, feeding
/// the bytes up to `m'` succeeds, emits exactly the scalars that complete
/// before the computed holdback point, and leaves the leftover at a
/// character boundary.  When the whole stream has been fed, nothing is
/// left over.
pub proof fn lemma_utf8_feed_step(b: Seq<u8>, s: int, m: int, m2: int)
    requires
        valid_utf8(b),
        0 <= s <= m <= m2 <= b.len(),
        is_char_boundary(b, s),
    ensures
        ({
            let q = b.subrange(s, m2);
            let s2 = m2 - holdback_s(q);
            &&& s <= s2 <= m2
            &&& utf8_feed(b.subrange(s, m), b.subrange(m, m2)) == Some(
                (decode_utf8(b.subrange(s, s2)), b.subrange(s2, m2)),
            )
            &&& is_char_boundary(b, s2)
            &&& decode_utf8(b.subrange(0, s2)) =~= decode_utf8(b.subrange(0, s)) + decode_utf8(
                b.subrange(s, s2),
            )
            &&& (m2 == b.len() ==> s2 == m2)
        }),
{
    let q = b.subrange(s, m2);
    let n = q.len() as int;
    let hb = holdback_s(q);
    let c = n - hb;
    let s2 = m2 - hb;
    assert(b.subrange(s, m) + b.subrange(m, m2) =~= q);

    // The holdback never reaches past a boundary: 0 <= hb <= n.
    assert(0 <= hb <= 3);
    assert(hb <= n);

    // First: s2 is a character boundary of b.
    if hb >= 1 {
        // q[c] is a leading byte by construction, hence not a continuation.
        assert(c < n);
        assert(!is_continuation_byte(q[c]));
        assert(b[s2] == q[c]);
        assert(is_char_boundary(b, s2)) by {
            vstd::utf8::is_char_boundary_iff_not_is_continuation_byte(b, s2);
        }
    } else {
        // hb == 0: were s2 == m2 not a boundary, the scalar around it would
        // have made one of the holdback cases fire.
        if s2 < b.len() && !is_char_boundary(b, s2) {
            lemma_scalar_around(b, s2);
            let l = choose|l: int|
                #![trigger is_char_boundary(b, l)]
                {
                    &&& 0 <= l < s2
                    &&& s2 - l <= 3
                    &&& is_char_boundary(b, l)
                    &&& lead_width(b[l]) > s2 - l
                    &&& forall|k: int| l < k <= s2 ==> is_continuation_byte(b[k])
                };
            // The scalar cannot start before the boundary s.
            assert(l >= s) by {
                if l < s {
                    assert(is_continuation_byte(b[s]));
                    vstd::utf8::is_char_boundary_iff_not_is_continuation_byte(b, s);
                }
            }
            // So its fed part is a suffix of q, and holdback_s(q) > 0.
            assert(n >= s2 - l);
            assert(forall|k: int| l < k < s2 ==> is_continuation_byte(#[trigger] q[k - s]));
            assert(q[l - s] == b[l]);
            if s2 - l == 1 {
                assert(lead_width(q[n - 1]) >= 2);
            } else if s2 - l == 2 {
                assert(lead_width(q[n - 2]) >= 3);
            } else {
                assert(s2 - l == 3);
                assert(lead_width(q[n - 3]) == 4);
            }
            assert(false);
        }
        if s2 == b.len() {
            vstd::utf8::is_char_boundary_start_end_of_seq(b);
        }
    }

    // Second: with hb >= 1, the stream cannot already be over.
    if hb >= 1 && m2 == b.len() {
        assert(valid_utf8(b.subrange(s2, b.len() as int))) by {
            vstd::utf8::valid_utf8_split(b, s2);
        }
        let tail = b.subrange(s2, b.len() as int);
        assert(tail.len() == hb);
        assert(tail[0] == q[c]);
        assert(lead_width(tail[0]) > hb);
        assert(valid_first_scalar(tail));
        lemma_lead_width_is_scalar_len(tail);
        assert(false);
    }

    // Third: the processed part is valid and decodes compositionally.
    assert(valid_utf8(b.subrange(s, b.len() as int))) by {
        vstd::utf8::valid_utf8_split(b, s);
    }
    let after_s = b.subrange(s, b.len() as int);
    assert(is_char_boundary(after_s, c)) by {
        if c == after_s.len() {
            vstd::utf8::is_char_boundary_start_end_of_seq(after_s);
        } else {
            assert(after_s[c] == b[s2]);
            vstd::utf8::is_char_boundary_iff_not_is_continuation_byte(after_s, c);
            vstd::utf8::is_char_boundary_iff_not_is_continuation_byte(b, s2);
            if s2 == b.len() {
            } else {
            }
        }
    }
    assert(valid_utf8(after_s.subrange(0, c))) by {
        vstd::utf8::valid_utf8_split(after_s, c);
    }
    assert(after_s.subrange(0, c) =~= b.subrange(s, s2));
    assert(q.take(c) =~= b.subrange(s, s2));
    assert(valid_utf8(q.take(c)));
    assert(q.skip(c) =~= b.subrange(s2, m2));

    // Decode of the prefix up to s2 splits at s.
    let pre2 = b.subrange(0, s2);
    assert(valid_utf8(pre2)) by {
        vstd::utf8::valid_utf8_split(b, s2);
    }
    assert(is_char_boundary(pre2, s)) by {
        if s == s2 {
            vstd::utf8::is_char_boundary_start_end_of_seq(pre2);
        } else {
            assert(pre2[s] == b[s]);
            vstd::utf8::is_char_boundary_iff_not_is_continuation_byte(pre2, s);
            if s < b.len() {
                vstd::utf8::is_char_boundary_iff_not_is_continuation_byte(b, s);
            }
        }
    }
    assert(decode_utf8(pre2) =~= decode_utf8(pre2.subrange(0, s)) + decode_utf8(
        pre2.subrange(s, s2),
    )) by {
        vstd::utf8::decode_utf8_split(pre2, s);
    }
    assert(pre2.subrange(0, s) =~= b.subrange(0, s));
    assert(pre2.subrange(s, s2) =~= b.subrange(s, s2));
}

/// What lossy UTF-8 decoding yields: the bytes' characters, with each
/// ill-formed sequence substituted; a function of the bytes alone.
pub uninterp spec fn utf8_lossy_of(bytes: Seq<u8>) -> Seq<char>;

/// Relies on `String::from_utf8_lossy`: decodes the bytes, substituting
/// U+FFFD for each ill-formed sequence and never failing; valid UTF-8
/// comes through unchanged.
#[verifier::external_body]
pub(crate) fn utf8_bytes_to_string_lossy(bytes: &[u8]) -> (r: String)
    ensures
        r@ == utf8_lossy_of(bytes@),
        valid_utf8(bytes@) ==> r@ == decode_utf8(bytes@),
{
    String::from_utf8_lossy(bytes).into_owned()
}

/// Relies on `core::str::from_utf8` and `str::to_owned`: conversion
/// succeeds exactly on valid UTF-8, and the returned string holds those
/// very bytes, hence their decoding.
#[verifier::external_body]
pub(crate) fn utf8_bytes_to_string(bytes: &[u8]) -> (r: Option<String>)
    ensures
        r is Some <==> valid_utf8(bytes@),
        r is Some ==> encode_utf8(r->0@) == bytes@ && r->0@ == decode_utf8(bytes@),
{
    match core::str::from_utf8(bytes) {
        Ok(s) => Some(s.to_owned()),
        Err(_) => None,
    }
}

/// The UTF-8 pass-through decoder: buffers at most three bytes of an
/// incomplete trailing scalar between chunks.
pub struct Utf8Stream {
    pending: Vec<u8>,
}

impl View for Utf8Stream {
    type V = Seq<u8>;

    closed spec fn view(&self) -> Seq<u8> {
        self.pending@
    }
}

impl Utf8Stream {
    /// A fresh pass-through decoder with nothing held back.
    pub fn new() -> (r: Self)
        ensures
            r@ == Seq::<u8>::empty(),
    {
        Utf8Stream { pending: Vec::new() }
    }

    /// Feeds one chunk of bytes; returns the text completed by it, per
    /// `utf8_feed`, or a content error on malformed input.
    pub fn feed(&mut self, input: &[u8]) -> (r: Result<String, ContentError>)
        ensures
            ({
                let st = utf8_feed(old(self)@, input@);
                match r {
                    Ok(t) => st is Some && t@ == (st->0).0 && final(self)@ == (st->0).1,
                    Err(e) => st is None && e is MalformedEncoding,
                }
            }),
    {
        let mut incoming = slice_to_vec(input);
        self.pending.append(&mut incoming);
        let ghost p = self.pending@;
        let n = self.pending.len();
        let hb: usize = if n >= 1 && lead_width_of(self.pending[n - 1]) >= 2 {
            1
        } else if n >= 2 && is_cont(self.pending[n - 1]) && lead_width_of(self.pending[n - 2])
            >= 3 {
            2
        } else if n >= 3 && is_cont(self.pending[n - 1]) && is_cont(self.pending[n - 2])
            && lead_width_of(self.pending[n - 3]) == 4 {
            3
        } else {
            0
        };
        proof {
            assert(hb == holdback_s(p));
        }
        let cut = n - hb;
        let tail = self.pending.split_off(cut);
        let head_text = utf8_bytes_to_string(self.pending.as_slice());
        match head_text {
            Some(t) => {
                self.pending = tail;
                Ok(t)
            },
            None => Err(ContentError::MalformedEncoding),
        }
    }

    /// Whether a partial scalar is still held back; at a clean end of
    /// input none may remain.
    pub fn finish(&self) -> (r: Result<(), ContentError>)
        ensures
            r is Ok <==> self@.len() == 0,
            r is Err ==> r->Err_0 is MalformedEncoding,
    {
        if self.pending.len() == 0 {
            Ok(())
        } else {
            Err(ContentError::MalformedEncoding)
        }
    }
}

/// Executable continuation-byte test.
fn is_cont(b: u8) -> (r: bool)
    ensures
        r == is_continuation_byte(b),
{
    0x80 <= b && b <= 0xbf
}

#[verifier::external_type_specification]
#[verifier::external_body]
pub struct ExEncodingRsDecoder(encoding_rs::Decoder);

/// Whether a charset label names an encoding that the decoder library
/// recognizes; a function of the label alone.
pub uninterp spec fn known_charset(label: Seq<char>) -> bool;

/// Relies on `encoding_rs::Encoding::for_label` and
/// `Encoding::new_decoder`: a recognized label yields a fresh streaming
/// decoder for that encoding, an unrecognized one yields nothing.
#[verifier::external_body]
fn charset_decoder(label: &str) -> (r: Option<encoding_rs::Decoder>)
    ensures
        r is Some <==> known_charset(label@),
{
    match encoding_rs::Encoding::for_label(label.as_bytes()) {
        Some(e) => Some(e.new_decoder()),
        None => None,
    }
}

/// A charset decoder together with its lifecycle: the call that flushes
/// it (`last == true`) ends the inner decoder's life, and it must never
/// be fed again afterwards.
pub struct CharsetStream {
    inner: encoding_rs::Decoder,
    finished: bool,
}

impl View for CharsetStream {
    type V = bool;

    closed spec fn view(&self) -> bool {
        self.finished
    }
}

impl CharsetStream {
    /// Whether the final flush has been taken.
    fn is_finished(&self) -> (r: bool)
        ensures
            r == self@,
    {
        self.finished
    }

    /// Relies on `encoding_rs::Decoder::decode_to_string_without_replacement`
    /// (with `max_utf8_buffer_length_without_replacement` for the needed
    /// capacity): one streaming decode step that buffers any incomplete
    /// byte sequence inside the decoder and reports malformed input
    /// instead of substituting replacement characters.  A decoder panics
    /// when used after a final (`last == true`) call, so that call
    /// latches `finished` and the precondition keeps every later call
    /// out.  Nothing is promised of the text: it depends on the
    /// decoder's hidden state.
    #[verifier::external_body]
    fn decode_step(&mut self, bytes: &[u8], last: bool) -> (r: Option<String>)
        requires
            !old(self)@,
        ensures
            final(self)@ == (old(self)@ || last),
    {
        if last {
            self.finished = true;
        }
        let mut out = String::new();
        match self.inner.max_utf8_buffer_length_without_replacement(bytes.len()) {
            Some(cap) => out.reserve(cap),
            None => return None,
        }
        let step = self.inner.decode_to_string_without_replacement(bytes, &mut out, last);
        match step.0 {
            encoding_rs::DecoderResult::InputEmpty => Some(out),
            _ => None,
        }
    }
}

/// The per-navigation decoder: a verified UTF-8 pass-through, or a
/// decoder for a declared charset.
pub enum TextDecoder {
    Utf8(Utf8Stream),
    Charset(CharsetStream),
}

/// The mathematical state of a decoder: the held-back bytes of the
/// pass-through, or a charset decoder of which only its lifecycle —
/// whether the final flush has been taken — is visible.
#[verifier::ext_equal]
pub ghost enum TextDecoderV {
    Utf8 { pending: Seq<u8> },
    Charset { finished: bool },
}

impl View for TextDecoder {
    type V = TextDecoderV;

    open spec fn view(&self) -> TextDecoderV {
        match self {
            TextDecoder::Utf8(u) => TextDecoderV::Utf8 { pending: u@ },
            TextDecoder::Charset(c) => TextDecoderV::Charset { finished: c@ },
        }
    }
}

impl TextDecoder {
    /// The decoder for a navigation: for a recognized declared charset, a
    /// decoder of that charset; with no or an unrecognized charset, the
    /// pass-through.
    pub fn for_charset(label: Option<&str>) -> (r: Self)
        ensures
            match label {
                Some(l) => if known_charset(l@) {
                    r@ == (TextDecoderV::Charset { finished: false })
                } else {
                    (r@ matches TextDecoderV::Utf8 { pending } && pending.len() == 0)
                },
                None => (r@ matches TextDecoderV::Utf8 { pending } && pending.len() == 0),
            },
    {
        match label {
            Some(l) => match charset_decoder(l) {
                Some(d) => TextDecoder::Charset(CharsetStream { inner: d, finished: false }),
                None => TextDecoder::Utf8(Utf8Stream::new()),
            },
            None => TextDecoder::Utf8(Utf8Stream::new()),
        }
    }

    /// Feeds one chunk of bytes and returns the text it completes.  For
    /// the pass-through the result is exactly `utf8_feed`; for a charset
    /// decoder only the error taxonomy is promised.
    pub fn feed(&mut self, input: &[u8]) -> (r: Result<String, ContentError>)
        ensures
            ({
                match old(self)@ {
                    TextDecoderV::Utf8 { pending } => {
                        let st = utf8_feed(pending, input@);
                        match r {
                            Ok(t) => st is Some && t@ == (st->0).0 && final(self)@
                                == (TextDecoderV::Utf8 { pending: (st->0).1 }),
                            Err(e) => st is None && e is MalformedEncoding,
                        }
                    },
                    TextDecoderV::Charset { finished } => {
                        &&& final(self)@ == old(self)@
                        &&& (finished ==> r is Err)
                        &&& (r is Err ==> r->Err_0 is MalformedEncoding)
                    },
                }
            }),
    {
        match self {
            TextDecoder::Utf8(u) => u.feed(input),
            TextDecoder::Charset(c) => {
                if c.is_finished() {
                    return Err(ContentError::MalformedEncoding);
                }
                match c.decode_step(input, false) {
                    Some(t) => Ok(t),
                    None => Err(ContentError::MalformedEncoding),
                }
            },
        }
    }

    /// Ends the stream: fails when bytes of an incomplete character are
    /// still held, and for a charset decoder returns whatever final text
    /// its flush yields.
    pub fn finish(&mut self) -> (r: Result<String, ContentError>)
        ensures
            ({
                match old(self)@ {
                    TextDecoderV::Utf8 { pending } => final(self)@ == old(self)@ && (r is Ok
                        <==> pending.len() == 0) && (r is Ok ==> r->Ok_0@ == Seq::<
                        char,
                    >::empty()) && (r is Err ==> r->Err_0 is MalformedEncoding),
                    TextDecoderV::Charset { finished } => {
                        &&& final(self)@ == (TextDecoderV::Charset { finished: true })
                        &&& (finished ==> r is Ok && r->Ok_0@ == Seq::<char>::empty())
                        &&& (r is Err ==> r->Err_0 is MalformedEncoding)
                    },
                }
            }),
    {
        match self {
            TextDecoder::Utf8(u) => match u.finish() {
                Ok(_) => Ok(String::new()),
                Err(e) => Err(e),
            },
            TextDecoder::Charset(c) => {
                if c.is_finished() {
                    return Ok(String::new());
                }
                let none: Vec<u8> = Vec::new();
                match c.decode_step(none.as_slice(), true) {
                    Some(t) => Ok(t),
                    None => Err(ContentError::MalformedEncoding),
                }
            },
        }
    }
}

} // verus!
