//! Typed document lines and the stateful markup parsers that produce them:
//! one line of decoded text in, one `Line` (or none, for a preformat fence)
//! out.

use vstd::prelude::*;

use crate::errors::ContentError;
use crate::text::{
    join_sp, join_with_spaces, split_tokens, tokens_s, trim_s, trim_str,
};

verus! {

/// One parsed line of a document.
#[derive(Clone, Debug, PartialEq, Eq)]
pub enum Line {
    /// An ordinary paragraph of text.
    PlainText { text: String },
    /// A heading of level 1 or 2.
    Heading { level: u8, text: String },
    /// A link with its target and the caption shown for it.
    Link { target: String, caption: String },
    /// A bulleted list item.
    ListItem { text: String },
    /// A verbatim line inside a preformatted block.
    Preformatted { text: String },
}

/// The mathematical value of a `Line`.
#[verifier::ext_equal]
pub ghost enum LineV {
    PlainText { text: Seq<char> },
    Heading { level: int, text: Seq<char> },
    Link { target: Seq<char>, caption: Seq<char> },
    ListItem { text: Seq<char> },
    Preformatted { text: Seq<char> },
}

impl View for Line {
    type V = LineV;

    open spec fn view(&self) -> LineV {
        match self {
            Line::PlainText { text } => LineV::PlainText { text: text@ },
            Line::Heading { level, text } => LineV::Heading {
                level: *level as int,
                text: text@,
            },
            Line::Link { target, caption } => LineV::Link {
                target: target@,
                caption: caption@,
            },
            Line::ListItem { text } => LineV::ListItem { text: text@ },
            Line::Preformatted { text } => LineV::Preformatted { text: text@ },
        }
    }
}

impl DeepView for Line {
    type V = LineV;

    open spec fn deep_view(&self) -> LineV {
        self@
    }
}

/// Length of the leading run of `#` characters.
pub open spec fn hash_run_s(s: Seq<char>) -> int
    decreases s.len(),
{
    if s.len() > 0 && s[0] == '#' {
        1 + hash_run_s(s.drop_first())
    } else {
        0
    }
}

proof fn lemma_hash_run(s: Seq<char>, i: int)
    requires
        0 <= i <= s.len(),
        forall|k: int| 0 <= k < i ==> s[k] == '#',
        i == s.len() || s[i] != '#',
    ensures
        hash_run_s(s) == i,
    decreases i,
{
    if i > 0 {
        let t = s.drop_first();
        assert(forall|k: int| 0 <= k < i - 1 ==> #[trigger] t[k] == '#');
        lemma_hash_run(t, i - 1);
    }
}

/// What one line of gemtext parses to, from a given preformat state:
/// the new preformat state, and either the produced line (none for a
/// fence line) or a content error for that line alone.
pub open spec fn gem_parse(pre: bool, line: Seq<char>) -> (bool, Result<Option<LineV>, ()>) {
    if line.len() >= 3 && line[0] == '`' && line[1] == '`' && line[2] == '`' {
        (!pre, Ok(None))
    } else if pre {
        (pre, Ok(Some(LineV::Preformatted { text: line })))
    } else {
        let t = trim_s(line);
        if t.len() >= 2 && t[0] == '=' && t[1] == '>' {
            let ts = tokens_s(t.skip(2));
            if ts.len() == 0 {
                (pre, Err(()))
            } else {
                let caption = if ts.len() == 1 {
                    ts[0]
                } else {
                    join_sp(ts.drop_first())
                };
                (pre, Ok(Some(LineV::Link { target: ts[0], caption })))
            }
        } else if t.len() >= 1 && t[0] == '*' {
            (pre, Ok(Some(LineV::ListItem { text: trim_s(t.skip(1)) })))
        } else if t.len() >= 1 && t[0] == '#' {
            let run = hash_run_s(t);
            let level: int = if run >= 2 {
                2
            } else {
                1
            };
            let after = t.skip(run);
            let text = if after.len() > 0 && after[0] == ' ' {
                after.drop_first()
            } else {
                after
            };
            (pre, Ok(Some(LineV::Heading { level, text })))
        } else {
            (pre, Ok(Some(LineV::PlainText { text: t })))
        }
    }
}

/// The stateful gemtext parser: remembers whether a preformat fence is
/// open.
pub struct Gemini {
    is_preformatted: bool,
}

impl View for Gemini {
    type V = bool;

    closed spec fn view(&self) -> bool {
        self.is_preformatted
    }
}

impl Gemini {
    /// A fresh parser, outside any preformatted block.
    pub fn new() -> (r: Self)
        ensures
            !r@,
    {
        Gemini { is_preformatted: false }
    }

    /// Parses one completed line, per `gem_parse`.
    pub fn parse_line(&mut self, line: &str) -> (r: Result<Option<Line>, ContentError>)
        ensures
            final(self)@ == gem_parse(old(self)@, line@).0,
            ({
                let pr = gem_parse(old(self)@, line@).1;
                match r {
                    Ok(o) => pr is Ok && (match o {
                        Some(l) => pr->Ok_0 is Some && l@ == pr->Ok_0->0,
                        None => pr->Ok_0 is None,
                    }),
                    Err(e) => pr is Err && e is MissingLinkTarget,
                }
            }),
    {
        let n: usize = line.unicode_len();
        if n >= 3 && line.get_char(0) == '`' && line.get_char(1) == '`' && line.get_char(2)
            == '`' {
            self.is_preformatted = !self.is_preformatted;
            return Ok(None);
        }
        if self.is_preformatted {
            return Ok(Some(Line::Preformatted { text: String::from_str(line) }));
        }
        let trimmed = trim_str(line);
        let t = trimmed.as_str();
        let tn: usize = t.unicode_len();
        if tn >= 2 && t.get_char(0) == '=' && t.get_char(1) == '>' {
            let rest = t.substring_char(2, tn);
            proof {
                assert(rest@ =~= trim_s(line@).skip(2));
            }
            let toks = split_tokens(rest);
            if toks.len() == 0 {
                return Err(ContentError::MissingLinkTarget);
            }
            let target = toks[0].clone();
            let caption = if toks.len() == 1 {
                toks[0].clone()
            } else {
                let joined = join_with_spaces(&toks, 1);
                proof {
                    assert(toks.deep_view().skip(1) =~= tokens_s(trim_s(line@).skip(
                        2,
                    )).drop_first());
                }
                joined
            };
            return Ok(Some(Line::Link { target, caption }));
        }
        if tn >= 1 && t.get_char(0) == '*' {
            let rest = t.substring_char(1, tn);
            proof {
                assert(rest@ =~= trim_s(line@).skip(1));
            }
            return Ok(Some(Line::ListItem { text: trim_str(rest) }));
        }
        if tn >= 1 && t.get_char(0) == '#' {
            let mut run: usize = 0;
            while run < tn && t.get_char(run) == '#'
                invariant
                    0 <= run <= tn,
                    tn == t@.len(),
                    forall|k: int| 0 <= k < run ==> t@[k] == '#',
                decreases tn - run,
            {
                run = run + 1;
            }
            proof {
                lemma_hash_run(t@, run as int);
            }
            let level: u8 = if run >= 2 {
                2
            } else {
                1
            };
            let start: usize = if run < tn && t.get_char(run) == ' ' {
                run + 1
            } else {
                run
            };
            let rest = t.substring_char(start, tn);
            proof {
                let after = t@.skip(run as int);
                if start == run + 1 {
                    assert(after.drop_first() =~= t@.subrange(start as int, tn as int));
                } else {
                    assert(after =~= t@.subrange(start as int, tn as int));
                }
            }
            return Ok(Some(Line::Heading { level, text: String::from_str(rest) }));
        }
        Ok(Some(Line::PlainText { text: trimmed }))
    }
}

/// The plain-text parser: every line is shown verbatim as preformatted
/// text.
pub struct Plain {}

impl Plain {
    /// A fresh plain-text parser.
    pub fn new() -> (r: Self) {
        Plain {  }
    }

    /// Parses one completed line: always a verbatim `Preformatted` line.
    pub fn parse_line(&mut self, line: &str) -> (r: Result<Option<Line>, ContentError>)
        ensures
            r is Ok && r->Ok_0 is Some && r->Ok_0->0@ == (LineV::Preformatted {
                text: line@,
            }),
    {
        Ok(Some(Line::Preformatted { text: String::from_str(line) }))
    }
}

/// A markup parser, selected once per navigation by mime essence.
pub enum Parser {
    Gemtext(Gemini),
    Plaintext(Plain),
}

/// The mathematical state of a parser.
#[verifier::ext_equal]
pub ghost enum ParserV {
    Gemtext { pre: bool },
    Plaintext,
}

impl View for Parser {
    type V = ParserV;

    open spec fn view(&self) -> ParserV {
        match self {
            Parser::Gemtext(g) => ParserV::Gemtext { pre: g@ },
            Parser::Plaintext(_) => ParserV::Plaintext,
        }
    }
}

/// What one completed line does to a parser: the next parser state and
/// the produced line, if any.
pub open spec fn parser_step(p: ParserV, line: Seq<char>) -> (ParserV, Result<
    Option<LineV>,
    (),
>) {
    match p {
        ParserV::Gemtext { pre } => {
            let st = gem_parse(pre, line);
            (ParserV::Gemtext { pre: st.0 }, st.1)
        },
        ParserV::Plaintext => (
            ParserV::Plaintext,
            Ok(Some(LineV::Preformatted { text: line })),
        ),
    }
}

impl Parser {
    /// Parses one completed line with whichever parser this is.
    pub fn parse_line(&mut self, line: &str) -> (r: Result<Option<Line>, ContentError>)
        ensures
            final(self)@ == parser_step(old(self)@, line@).0,
            ({
                let pr = parser_step(old(self)@, line@).1;
                match r {
                    Ok(o) => pr is Ok && (match o {
                        Some(l) => pr->Ok_0 is Some && l@ == pr->Ok_0->0,
                        None => pr->Ok_0 is None,
                    }),
                    Err(e) => pr is Err && e is MissingLinkTarget,
                }
            }),
    {
        match self {
            Parser::Gemtext(g) => g.parse_line(line),
            Parser::Plaintext(p) => p.parse_line(line),
        }
    }
}

} // verus!
