//! Character-level text helpers for the markup parser: whitespace
//! classification, trimming, and whitespace tokenization, each as a spec
//! function with a verified executable counterpart.

use vstd::prelude::*;

verus! {

/// The Unicode White_Space class, the class the parser trims and
/// tokenizes by.
pub open spec fn is_ws(c: char) -> bool {
    ||| ('\u{09}' <= c && c <= '\u{0d}')
    ||| c == ' '
    ||| c == '\u{85}'
    ||| c == '\u{a0}'
    ||| c == '\u{1680}'
    ||| ('\u{2000}' <= c && c <= '\u{200a}')
    ||| c == '\u{2028}'
    ||| c == '\u{2029}'
    ||| c == '\u{202f}'
    ||| c == '\u{205f}'
    ||| c == '\u{3000}'
}

/// Executable whitespace test.
pub fn is_ws_char(c: char) -> (r: bool)
    ensures
        r == is_ws(c),
{
    ('\u{09}' <= c && c <= '\u{0d}') || c == ' ' || c == '\u{85}' || c == '\u{a0}' || c
        == '\u{1680}' || ('\u{2000}' <= c && c <= '\u{200a}') || c == '\u{2028}' || c
        == '\u{2029}' || c == '\u{202f}' || c == '\u{205f}' || c == '\u{3000}'
}

/// `s` with its leading whitespace removed.
pub open spec fn trim_start_s(s: Seq<char>) -> Seq<char>
    decreases s.len(),
{
    if s.len() > 0 && is_ws(s[0]) {
        trim_start_s(s.drop_first())
    } else {
        s
    }
}

/// `s` with its trailing whitespace removed.
pub open spec fn trim_end_s(s: Seq<char>) -> Seq<char>
    decreases s.len(),
{
    if s.len() > 0 && is_ws(s.last()) {
        trim_end_s(s.drop_last())
    } else {
        s
    }
}

/// `s` with whitespace removed from both ends.
pub open spec fn trim_s(s: Seq<char>) -> Seq<char> {
    trim_end_s(trim_start_s(s))
}

proof fn lemma_trim_start_is_skip(s: Seq<char>, i: int)
    requires
        0 <= i <= s.len(),
        forall|k: int| 0 <= k < i ==> is_ws(s[k]),
        i == s.len() || !is_ws(s[i]),
    ensures
        trim_start_s(s) =~= s.skip(i),
    decreases i,
{
    if i == 0 {
        assert(s.skip(0) =~= s);
    } else {
        let t = s.drop_first();
        assert(forall|k: int| 0 <= k < i - 1 ==> is_ws(#[trigger] t[k]));
        lemma_trim_start_is_skip(t, i - 1);
        assert(t.skip(i - 1) =~= s.skip(i));
    }
}

proof fn lemma_trim_end_is_take(s: Seq<char>, j: int)
    requires
        0 <= j <= s.len(),
        forall|k: int| j <= k < s.len() ==> is_ws(s[k]),
        j == 0 || !is_ws(s[j - 1]),
    ensures
        trim_end_s(s) =~= s.take(j),
    decreases s.len(),
{
    if j == s.len() {
        assert(s.take(j) =~= s);
    } else {
        let t = s.drop_last();
        assert(is_ws(s.last()));
        assert(forall|k: int| j <= k < t.len() ==> is_ws(#[trigger] t[k]));
        lemma_trim_end_is_take(t, j);
        assert(t.take(j) =~= s.take(j));
    }
}

/// Removes leading and trailing whitespace.
pub fn trim_str(s: &str) -> (r: String)
    ensures
        r@ == trim_s(s@),
{
    let n: usize = s.unicode_len();
    let mut i: usize = 0;
    while i < n && is_ws_char(s.get_char(i))
        invariant
            0 <= i <= n,
            n == s@.len(),
            forall|k: int| 0 <= k < i ==> is_ws(s@[k]),
        decreases n - i,
    {
        i = i + 1;
    }
    let mut j: usize = n;
    while j > i && is_ws_char(s.get_char(j - 1))
        invariant
            i <= j <= n,
            n == s@.len(),
            forall|k: int| 0 <= k < i ==> is_ws(s@[k]),
            i == n || !is_ws(s@[i as int]),
            forall|k: int| j <= k < n ==> is_ws(s@[k]),
        decreases j,
    {
        j = j - 1;
    }
    proof {
        lemma_trim_start_is_skip(s@, i as int);
        let t = s@.skip(i as int);
        assert(forall|k: int| j - i <= k < t.len() ==> is_ws(#[trigger] t[k]));
        lemma_trim_end_is_take(t, j - i);
        assert(t.take(j - i) =~= s@.subrange(i as int, j as int));
    }
    let piece = s.substring_char(i, j);
    String::from_str(piece)
}

/// Index of the first whitespace character, or the length when none occurs.
pub open spec fn first_ws_s(s: Seq<char>) -> int
    decreases s.len(),
{
    if s.len() == 0 {
        0
    } else if is_ws(s[0]) {
        0
    } else {
        1 + first_ws_s(s.drop_first())
    }
}

proof fn lemma_first_ws(s: Seq<char>, e: int)
    requires
        0 <= e <= s.len(),
        forall|k: int| 0 <= k < e ==> !is_ws(s[k]),
        e == s.len() || is_ws(s[e]),
    ensures
        first_ws_s(s) == e,
    decreases e,
{
    if e == 0 {
    } else {
        let t = s.drop_first();
        assert(forall|k: int| 0 <= k < e - 1 ==> !is_ws(#[trigger] t[k]));
        lemma_first_ws(t, e - 1);
    }
}

/// The whitespace-separated tokens of `s`, in order.
pub open spec fn tokens_s(s: Seq<char>) -> Seq<Seq<char>>
    decreases s.len(),
        via tokens_s_dec
{
    if s.len() == 0 {
        Seq::empty()
    } else if is_ws(s[0]) {
        tokens_s(s.drop_first())
    } else {
        let e = first_ws_s(s);
        seq![s.take(e)] + tokens_s(s.skip(e))
    }
}

#[via_fn]
proof fn tokens_s_dec(s: Seq<char>) {
    if s.len() > 0 && !is_ws(s[0]) {
        lemma_first_ws_bounds(s);
    }
}

proof fn lemma_first_ws_bounds(s: Seq<char>)
    ensures
        0 <= first_ws_s(s) <= s.len(),
        s.len() > 0 && !is_ws(s[0]) ==> first_ws_s(s) >= 1,
    decreases s.len(),
{
    if s.len() > 0 && !is_ws(s[0]) {
        lemma_first_ws_bounds(s.drop_first());
    }
}

proof fn lemma_tokens_skip_one_ws(s: Seq<char>)
    requires
        s.len() > 0,
        is_ws(s[0]),
    ensures
        tokens_s(s) == tokens_s(s.skip(1)),
{
    assert(s.drop_first() =~= s.skip(1));
}

proof fn lemma_tokens_head(s: Seq<char>, e: int)
    requires
        0 < e <= s.len(),
        forall|k: int| 0 <= k < e ==> !is_ws(s[k]),
        e == s.len() || is_ws(s[e]),
    ensures
        tokens_s(s) =~= seq![s.take(e)] + tokens_s(s.skip(e)),
{
    lemma_first_ws(s, e);
}

/// Splits on runs of whitespace; no empty tokens are produced.
pub fn split_tokens(s: &str) -> (r: Vec<String>)
    ensures
        r.deep_view() == tokens_s(s@),
{
    let n: usize = s.unicode_len();
    let mut out: Vec<String> = Vec::new();
    let mut i: usize = 0;
    proof {
        assert(out.deep_view() =~= Seq::<Seq<char>>::empty());
        assert(s@.skip(0) =~= s@);
    }
    while i < n
        invariant
            0 <= i <= n,
            n == s@.len(),
            out.deep_view() + tokens_s(s@.skip(i as int)) =~= tokens_s(s@),
        decreases n - i,
    {
        let c = s.get_char(i);
        if is_ws_char(c) {
            proof {
                lemma_tokens_skip_one_ws(s@.skip(i as int));
                assert(s@.skip(i as int).skip(1) =~= s@.skip(i as int + 1));
            }
            i = i + 1;
        } else {
            let mut e: usize = i + 1;
            while e < n && !is_ws_char(s.get_char(e))
                invariant
                    i < e <= n,
                    n == s@.len(),
                    forall|k: int| i <= k < e ==> !is_ws(s@[k]),
                decreases n - e,
            {
                e = e + 1;
            }
            let tok = s.substring_char(i, e);
            proof {
                let rest = s@.skip(i as int);
                assert(forall|k: int| 0 <= k < e - i ==> !is_ws(#[trigger] rest[k]));
                lemma_tokens_head(rest, e - i);
                assert(rest.take(e - i) =~= s@.subrange(i as int, e as int));
                assert(rest.skip(e - i) =~= s@.skip(e as int));
            }
            out.push(String::from_str(tok));
            proof {
                assert(out.deep_view() + tokens_s(s@.skip(e as int)) =~= tokens_s(s@));
            }
            i = e;
        }
    }
    proof {
        assert(s@.skip(n as int) =~= Seq::<char>::empty());
        assert(out.deep_view() =~= tokens_s(s@));
    }
    out
}

/// The tokens joined with a single space between neighbours.
pub open spec fn join_sp(ts: Seq<Seq<char>>) -> Seq<char>
    decreases ts.len(),
{
    if ts.len() == 0 {
        Seq::empty()
    } else if ts.len() == 1 {
        ts[0]
    } else {
        ts[0] + seq![' '] + join_sp(ts.drop_first())
    }
}

proof fn lemma_join_sp_snoc(ts: Seq<Seq<char>>, t: Seq<char>)
    requires
        ts.len() >= 1,
    ensures
        join_sp(ts.push(t)) =~= join_sp(ts) + seq![' '] + t,
    decreases ts.len(),
{
    if ts.len() == 1 {
        let p = ts.push(t);
        assert(p.drop_first() =~= seq![t]);
        assert(join_sp(p.drop_first()) == t);
    } else {
        assert(ts.push(t).drop_first() =~= ts.drop_first().push(t));
        lemma_join_sp_snoc(ts.drop_first(), t);
    }
}

/// Joins the strings from index `from` on with single spaces.
pub fn join_with_spaces(parts: &Vec<String>, from: usize) -> (r: String)
    requires
        from <= parts.len(),
    ensures
        r@ == join_sp(parts.deep_view().skip(from as int)),
{
    let ghost tail = parts.deep_view().skip(from as int);
    let mut out = String::new();
    let mut k: usize = from;
    while k < parts.len()
        invariant
            from <= k <= parts.len(),
            tail == parts.deep_view().skip(from as int),
            out@ =~= join_sp(tail.take(k - from)),
        decreases parts.len() - k,
    {
        if k > from {
            out.append(" ");
            proof {
                reveal_strlit(" ");
            }
        }
        out.append(parts[k].as_str());
        proof {
            let pre = tail.take(k - from);
            if k > from {
                lemma_join_sp_snoc(pre, tail[k - from]);
            }
            assert(pre.push(tail[k - from]) =~= tail.take(k - from + 1));
            assert(tail[k - from] == parts.deep_view()[k as int]);
        }
        k = k + 1;
    }
    proof {
        assert(tail.take(parts.len() - from) =~= tail);
    }
    out
}

} // verus!
