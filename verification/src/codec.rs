//! The protocol codec: a state machine fed with raw response bytes (and
//! the transport's end-of-stream or error signals) that emits the ordered
//! event sequence of one navigation attempt — header, body chunks,
//! redirect, structured server outcome, terminal error, done.

use vstd::prelude::*;
use vstd::slice::slice_to_vec;

use crate::header::{
    header_meta, header_ok, header_status, parse_header, status_class_s, StatusClass,
};

verus! {

/// One event of a navigation attempt, in the order the codec emits them.
#[derive(Clone, Debug, PartialEq, Eq)]
pub enum Message {
    /// A success-class header: the status and the body's mimetype.
    Header { status: u8, meta: String },
    /// Raw body bytes.
    Chunk(Vec<u8>),
    /// A redirect-class response; the target URL.
    Redirect(String),
    /// A structured terminal outcome (input-required, failure and
    /// certificate classes): the code and the server's message.
    ErrorResponse { code: u8, meta: String },
    /// An unrecoverable transport or parse failure.
    Error { cause: String },
    /// Clean completion of a success-class body.
    Done,
}

/// The mathematical value of a `Message`.
#[verifier::ext_equal]
pub ghost enum MessageV {
    Header { status: int, meta: Seq<char> },
    Chunk(Seq<u8>),
    Redirect(Seq<char>),
    ErrorResponse { code: int, meta: Seq<char> },
    Error { cause: Seq<char> },
    Done,
}

impl View for Message {
    type V = MessageV;

    open spec fn view(&self) -> MessageV {
        match self {
            Message::Header { status, meta } => MessageV::Header {
                status: *status as int,
                meta: meta@,
            },
            Message::Chunk(b) => MessageV::Chunk(b@),
            Message::Redirect(t) => MessageV::Redirect(t@),
            Message::ErrorResponse { code, meta } => MessageV::ErrorResponse {
                code: *code as int,
                meta: meta@,
            },
            Message::Error { cause } => MessageV::Error { cause: cause@ },
            Message::Done => MessageV::Done,
        }
    }
}

impl DeepView for Message {
    type V = MessageV;

    open spec fn deep_view(&self) -> MessageV {
        self@
    }
}

/// Where the codec stands in one navigation attempt.
#[derive(Clone, Copy, Debug, PartialEq, Eq, Structural)]
pub enum CodecPhase {
    /// Still collecting the CRLF-terminated header line.
    AwaitingHeader,
    /// A success-class header was seen; all further bytes are body.
    Body,
    /// The attempt ended; nothing more is emitted.
    Stopped,
}

/// The codec: buffers the header line across reads, classifies the
/// status, then streams the body.
pub struct Codec {
    phase: CodecPhase,
    hbuf: Vec<u8>,
}

/// The mathematical state of a `Codec`.
pub ghost struct CodecV {
    pub phase: CodecPhase,
    pub hbuf: Seq<u8>,
}

impl View for Codec {
    type V = CodecV;

    closed spec fn view(&self) -> CodecV {
        CodecV { phase: self.phase, hbuf: self.hbuf@ }
    }
}

/// Index of the first CRLF pair, or -1 when none occurs.
pub open spec fn find_crlf(s: Seq<u8>) -> int
    decreases s.len(),
{
    if s.len() < 2 {
        -1
    } else if s[0] == 0x0d && s[1] == 0x0a {
        0
    } else {
        let r = find_crlf(s.drop_first());
        if r < 0 {
            -1
        } else {
            1 + r
        }
    }
}

proof fn lemma_find_crlf_at(s: Seq<u8>, i: int)
    requires
        0 <= i,
        i + 1 < s.len(),
        forall|k: int| 0 <= k < i ==> !(#[trigger] s[k] == 0x0d && s[k + 1] == 0x0a),
        s[i] == 0x0d && s[i + 1] == 0x0a,
    ensures
        find_crlf(s) == i,
    decreases i,
{
    if i > 0 {
        let t = s.drop_first();
        assert(forall|k: int|
            0 <= k < i - 1 ==> !(#[trigger] t[k] == 0x0d && t[k + 1] == 0x0a));
        lemma_find_crlf_at(t, i - 1);
    }
}

proof fn lemma_find_crlf_none(s: Seq<u8>)
    requires
        forall|k: int| 0 <= k && k + 1 < s.len() ==> !(#[trigger] s[k] == 0x0d && s[k + 1] == 0x0a),
    ensures
        find_crlf(s) == -1,
    decreases s.len(),
{
    if s.len() >= 2 {
        let t = s.drop_first();
        assert(forall|k: int|
            0 <= k && k + 1 < t.len() ==> !(#[trigger] t[k] == 0x0d && t[k + 1] == 0x0a));
        lemma_find_crlf_none(t);
    }
}

/// Finds the first CRLF pair in `v`.
fn find_crlf_vec(v: &Vec<u8>) -> (r: Option<usize>)
    ensures
        match r {
            Some(i) => find_crlf(v@) == i as int && i + 1 < v@.len(),
            None => find_crlf(v@) == -1,
        },
{
    let n = v.len();
    if n < 2 {
        proof {
            lemma_find_crlf_none(v@);
        }
        return None;
    }
    let mut i: usize = 0;
    while i + 1 < n
        invariant
            0 <= i,
            i + 1 <= n,
            n == v@.len(),
            forall|k: int| 0 <= k < i ==> !(#[trigger] v@[k] == 0x0d && v@[k + 1] == 0x0a),
        decreases n - i,
    {
        if v[i] == 0x0d && v[i + 1] == 0x0a {
            proof {
                lemma_find_crlf_at(v@, i as int);
            }
            return Some(i);
        }
        i = i + 1;
    }
    proof {
        lemma_find_crlf_none(v@);
    }
    None
}

/// The message emitted for a malformed header line.
pub open spec fn malformed_header_cause() -> Seq<char> {
    "malformed response header"@
}

/// The message emitted when the connection closes before the header.
pub open spec fn early_close_cause() -> Seq<char> {
    "connection closed before header"@
}

/// What feeding bytes does to the codec: the next state and the events
/// emitted, in order.
pub open spec fn codec_feed(c: CodecV, bytes: Seq<u8>) -> (CodecV, Seq<MessageV>) {
    match c.phase {
        CodecPhase::Stopped => (c, Seq::empty()),
        CodecPhase::Body => (
            c,
            if bytes.len() == 0 {
                Seq::empty()
            } else {
                seq![MessageV::Chunk(bytes)]
            },
        ),
        CodecPhase::AwaitingHeader => {
            let buf = c.hbuf + bytes;
            let i = find_crlf(buf);
            if i < 0 {
                (CodecV { phase: CodecPhase::AwaitingHeader, hbuf: buf }, Seq::empty())
            } else {
                let line = buf.take(i);
                let rest = buf.skip(i + 2);
                let stopped = CodecV { phase: CodecPhase::Stopped, hbuf: Seq::empty() };
                if !header_ok(line) {
                    (stopped, seq![MessageV::Error { cause: malformed_header_cause() }])
                } else {
                    let status = header_status(line);
                    let meta = header_meta(line);
                    match status_class_s(status) {
                        StatusClass::Success => (
                            CodecV { phase: CodecPhase::Body, hbuf: Seq::empty() },
                            seq![MessageV::Header { status, meta }] + if rest.len() > 0 {
                                seq![MessageV::Chunk(rest)]
                            } else {
                                Seq::empty()
                            },
                        ),
                        StatusClass::Redirect => (stopped, seq![MessageV::Redirect(meta)]),
                        _ => (stopped, seq![MessageV::ErrorResponse { code: status, meta }]),
                    }
                }
            }
        },
    }
}

/// What a clean end of the byte stream does to the codec.
pub open spec fn codec_eof(c: CodecV) -> (CodecV, Seq<MessageV>) {
    let stopped = CodecV { phase: CodecPhase::Stopped, hbuf: Seq::empty() };
    match c.phase {
        CodecPhase::Stopped => (c, Seq::empty()),
        CodecPhase::Body => (stopped, seq![MessageV::Done]),
        CodecPhase::AwaitingHeader => (
            stopped,
            seq![MessageV::Error { cause: early_close_cause() }],
        ),
    }
}

/// What a read error does to the codec: an abort during the body is a
/// graceful end with a synthesized trailing newline; anything else is
/// terminal.
pub open spec fn codec_read_error(c: CodecV, aborted: bool, cause: Seq<char>) -> (
    CodecV,
    Seq<MessageV>,
) {
    let stopped = CodecV { phase: CodecPhase::Stopped, hbuf: Seq::empty() };
    match c.phase {
        CodecPhase::Stopped => (c, Seq::empty()),
        CodecPhase::Body => if aborted {
            (stopped, seq![MessageV::Chunk(seq![0x0au8]), MessageV::Done])
        } else {
            (stopped, seq![MessageV::Error { cause }])
        },
        CodecPhase::AwaitingHeader => (stopped, seq![MessageV::Error { cause }]),
    }
}

impl Codec {
    /// A codec at the start of one navigation attempt.
    pub fn new() -> (r: Self)
        ensures
            r@.phase is AwaitingHeader,
            r@.hbuf.len() == 0,
    {
        Codec { phase: CodecPhase::AwaitingHeader, hbuf: Vec::new() }
    }

    /// Feeds bytes read from the transport; returns the emitted events.
    pub fn feed(&mut self, bytes: &[u8]) -> (evs: Vec<Message>)
        ensures
            final(self)@ == codec_feed(old(self)@, bytes@).0,
            evs.deep_view() == codec_feed(old(self)@, bytes@).1,
    {
        let ghost c0 = self@;
        match self.phase {
            CodecPhase::Stopped => {
                let evs: Vec<Message> = Vec::new();
                proof {
                    assert(evs.deep_view() =~= codec_feed(c0, bytes@).1);
                }
                evs
            },
            CodecPhase::Body => {
                let mut evs: Vec<Message> = Vec::new();
                if bytes.len() > 0 {
                    evs.push(Message::Chunk(slice_to_vec(bytes)));
                }
                proof {
                    assert(evs.deep_view() =~= codec_feed(c0, bytes@).1);
                }
                evs
            },
            CodecPhase::AwaitingHeader => {
                let mut incoming = slice_to_vec(bytes);
                self.hbuf.append(&mut incoming);
                let ghost buf = self.hbuf@;
                match find_crlf_vec(&self.hbuf) {
                    None => {
                        let evs: Vec<Message> = Vec::new();
                        proof {
                            assert(evs.deep_view() =~= codec_feed(c0, bytes@).1);
                        }
                        evs
                    },
                    Some(i) => {
                        let hl = self.hbuf.len();
                        assert(i + 2 <= hl);
                        let rest_vec = self.hbuf.split_off(i + 2);
                        self.hbuf.truncate(i);
                        proof {
                            assert(self.hbuf@ =~= buf.take(i as int));
                            assert(rest_vec@ =~= buf.skip(i as int + 2));
                        }
                        let mut evs: Vec<Message> = Vec::new();
                        match parse_header(self.hbuf.as_slice()) {
                            Err(_) => {
                                self.phase = CodecPhase::Stopped;
                                self.hbuf = Vec::new();
                                evs.push(
                                    Message::Error {
                                        cause: String::from_str("malformed response header"),
                                    },
                                );
                            },
                            Ok((status, meta)) => {
                                match crate::header::classify_status(status) {
                                    StatusClass::Success => {
                                        self.phase = CodecPhase::Body;
                                        self.hbuf = Vec::new();
                                        evs.push(Message::Header { status, meta });
                                        if rest_vec.len() > 0 {
                                            evs.push(Message::Chunk(rest_vec));
                                        }
                                    },
                                    StatusClass::Redirect => {
                                        self.phase = CodecPhase::Stopped;
                                        self.hbuf = Vec::new();
                                        evs.push(Message::Redirect(meta));
                                    },
                                    _ => {
                                        self.phase = CodecPhase::Stopped;
                                        self.hbuf = Vec::new();
                                        evs.push(Message::ErrorResponse { code: status, meta });
                                    },
                                }
                            },
                        }
                        proof {
                            assert(evs.deep_view() =~= codec_feed(c0, bytes@).1);
                        }
                        evs
                    },
                }
            },
        }
    }

    /// Signals a clean end of the byte stream.
    pub fn eof(&mut self) -> (evs: Vec<Message>)
        ensures
            final(self)@ == codec_eof(old(self)@).0,
            evs.deep_view() == codec_eof(old(self)@).1,
    {
        let ghost c0 = self@;
        let mut evs: Vec<Message> = Vec::new();
        match self.phase {
            CodecPhase::Stopped => {},
            CodecPhase::Body => {
                self.phase = CodecPhase::Stopped;
                self.hbuf = Vec::new();
                evs.push(Message::Done);
            },
            CodecPhase::AwaitingHeader => {
                self.phase = CodecPhase::Stopped;
                self.hbuf = Vec::new();
                evs.push(Message::Error { cause: String::from_str(
                    "connection closed before header",
                ) });
            },
        }
        proof {
            assert(evs.deep_view() =~= codec_eof(c0).1);
        }
        evs
    }

    /// Signals a read error; `aborted` marks a connection abort, which
    /// during the body counts as a graceful end.
    pub fn read_error(&mut self, aborted: bool, cause: &str) -> (evs: Vec<Message>)
        ensures
            final(self)@ == codec_read_error(old(self)@, aborted, cause@).0,
            evs.deep_view() == codec_read_error(old(self)@, aborted, cause@).1,
    {
        let ghost c0 = self@;
        let mut evs: Vec<Message> = Vec::new();
        match self.phase {
            CodecPhase::Stopped => {},
            CodecPhase::Body => {
                self.phase = CodecPhase::Stopped;
                self.hbuf = Vec::new();
                if aborted {
                    let mut nl: Vec<u8> = Vec::new();
                    nl.push(0x0a);
                    proof {
                        assert(nl@ =~= seq![0x0au8]);
                    }
                    evs.push(Message::Chunk(nl));
                    evs.push(Message::Done);
                } else {
                    evs.push(Message::Error { cause: String::from_str(cause) });
                }
            },
            CodecPhase::AwaitingHeader => {
                self.phase = CodecPhase::Stopped;
                self.hbuf = Vec::new();
                evs.push(Message::Error { cause: String::from_str(cause) });
            },
        }
        proof {
            assert(evs.deep_view() =~= codec_read_error(c0, aborted, cause@).1);
        }
        evs
    }
}

/// The wire request for one navigation: the absolute URL followed by
/// CRLF, and nothing else.
pub fn request_line(url: &str) -> (r: String)
    ensures
        r@ == url@ + "\r\n"@,
{
    let mut line = String::from_str(url);
    line.append("\r\n");
    line
}

} // verus!
