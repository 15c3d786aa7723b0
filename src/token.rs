//! The token model: a text fragment is read left to right as a sequence of
//! plain characters and complete SGR escape sequences. Anything that looks
//! like the start of a sequence but is not a complete, well-formed one is
//! read as plain characters, so the parse is total and lossless.

use vstd::prelude::*;

use vstd::string::StringExecFns;

use crate::escape::ESC;

verus! {

/// Parameter values are saturated here: every code from 256 up is
/// unrecognised alike, so larger values need not be told apart.
pub const PARAM_CAP: u32 = 1000;

pub open spec fn is_digit(c: char) -> bool {
    '0' <= c && c <= '9'
}

/// A character that may stand between `ESC [` and the final `m`.
pub open spec fn is_param_char(c: char) -> bool {
    is_digit(c) || c == ';'
}

/// The first index at or after `i` that does not hold a parameter character
/// (or the length of `s`).
pub open spec fn body_end(s: Seq<char>, i: int) -> int
    decreases s.len() - i,
{
    if i >= s.len() {
        s.len() as int
    } else if is_param_char(s[i]) {
        body_end(s, i + 1)
    } else {
        i
    }
}

/// A parameter list: one or more non-empty groups of digits separated by `;`.
pub open spec fn well_formed_body(b: Seq<char>) -> bool {
    &&& b.len() > 0
    &&& forall|m: int|
        0 <= m < b.len() && #[trigger] b[m] == ';' ==> 0 < m && m + 1 < b.len() && b[m - 1]
            != ';'
}

/// The length of the complete SGR sequence at the start of `s`, if there is one.
pub open spec fn sgr_len(s: Seq<char>) -> Option<nat> {
    if s.len() >= 2 && s[0] == ESC && s[1] == '[' {
        let k = body_end(s, 2);
        if k < s.len() && s[k] == 'm' && well_formed_body(s.subrange(2, k)) {
            Some((k + 1) as nat)
        } else {
            None
        }
    } else {
        None
    }
}

/// The parameter list starting at `i` ends within the text, and holds only
/// parameter characters.
pub proof fn lemma_body_end_bounds(s: Seq<char>, i: int)
    requires
        0 <= i <= s.len(),
    ensures
        i <= body_end(s, i) <= s.len(),
        forall|m: int| i <= m < body_end(s, i) ==> is_param_char(#[trigger] s[m]),
        body_end(s, i) < s.len() ==> !is_param_char(s[body_end(s, i)]),
    decreases s.len() - i,
{
    if i < s.len() && is_param_char(s[i]) {
        lemma_body_end_bounds(s, i + 1);
    }
}

/// A complete SGR sequence has at least three characters and fits the text.
pub proof fn lemma_sgr_len_bounds(s: Seq<char>)
    ensures
        sgr_len(s) is Some ==> 3 <= sgr_len(s)->0 <= s.len(),
{
    if s.len() >= 2 {
        lemma_body_end_bounds(s, 2);
    }
}

/// The value of a decimal digit character.
pub open spec fn digit_value(c: char) -> nat {
    (c as u32 - '0' as u32) as nat
}

pub open spec fn saturate(v: nat) -> nat {
    if v < PARAM_CAP {
        v
    } else {
        PARAM_CAP as nat
    }
}

/// Reading a parameter list left to right: the values finished so far, and
/// the (saturated) value of the group being read.
pub open spec fn param_scan(b: Seq<char>) -> (Seq<u32>, nat)
    decreases b.len(),
{
    if b.len() == 0 {
        (seq![], 0)
    } else {
        let (ps, cur) = param_scan(b.drop_last());
        if b.last() == ';' {
            (ps.push(cur as u32), 0)
        } else {
            (ps, saturate(10 * cur + digit_value(b.last())))
        }
    }
}

/// The parameter values of a parameter list, each saturated at `PARAM_CAP`.
pub open spec fn sgr_params(b: Seq<char>) -> Seq<u32> {
    let (ps, cur) = param_scan(b);
    ps.push(cur as u32)
}

/// The parameter values of a complete SGR sequence.
pub open spec fn token_params(text: Seq<char>) -> Seq<u32> {
    sgr_params(text.subrange(2, text.len() - 1))
}

/// The value being read never exceeds the saturation bound.
pub proof fn lemma_param_scan_bound(b: Seq<char>)
    ensures
        param_scan(b).1 <= PARAM_CAP,
    decreases b.len(),
{
    if b.len() > 0 {
        lemma_param_scan_bound(b.drop_last());
    }
}

/// One token: a run of literal text, or the full text of a complete SGR
/// sequence.
pub enum TokenView {
    Text(Seq<char>),
    Sgr(Seq<char>),
}

#[via_fn]
proof fn parse_decreases(s: Seq<char>) {
    lemma_sgr_len_bounds(s);
}

/// The tokens of `s`: at each position, a complete SGR sequence if one
/// starts there, and otherwise a literal run of the single character there.
pub open spec fn parse(s: Seq<char>) -> Seq<TokenView>
    decreases s.len(),
    via parse_decreases
{
    if s.len() == 0 {
        seq![]
    } else {
        match sgr_len(s) {
            Some(n) => seq![TokenView::Sgr(s.take(n as int))] + parse(s.skip(n as int)),
            None => seq![TokenView::Text(s.take(1))] + parse(s.skip(1)),
        }
    }
}

/// The text of one token.
pub open spec fn token_text(t: TokenView) -> Seq<char> {
    match t {
        TokenView::Text(x) => x,
        TokenView::Sgr(x) => x,
    }
}

/// The text of a token sequence: its tokens' texts, in order.
pub open spec fn serialize(ts: Seq<TokenView>) -> Seq<char>
    decreases ts.len(),
{
    if ts.len() == 0 {
        seq![]
    } else {
        token_text(ts[0]) + serialize(ts.skip(1))
    }
}


/// The characters of `s`, in order.
pub fn chars_of(s: &str) -> (r: Vec<char>)
    ensures
        r@ == s@,
{
    let mut r: Vec<char> = Vec::new();
    for c in it: s.chars()
        invariant
            it.seq() == s@,
            r@ == it.seq().take(it.index() as int),
    {
        proof {
            assert(it.seq().take(it.index() + 1) =~= r@.push(c));
        }
        r.push(c);
    }
    assert(r@ =~= s@);
    r
}

fn is_param(c: char) -> (r: bool)
    ensures
        r == is_param_char(c),
{
    ('0' <= c && c <= '9') || c == ';'
}

fn digit_of_char(c: char) -> (d: u32)
    requires
        is_digit(c),
    ensures
        d as nat == digit_value(c),
        d < 10,
{
    (c as u32) - ('0' as u32)
}

/// The complete SGR sequence starting at index `i` of `cs`, if there is one:
/// its length and its parameter values.
pub fn scan_sgr(cs: &Vec<char>, i: usize) -> (r: Option<(usize, Vec<u32>)>)
    requires
        i < cs@.len(),
    ensures
        match sgr_len(cs@.skip(i as int)) {
            Some(n) => r matches Some((m, ps)) && m == n && ps@ == token_params(
                cs@.subrange(i as int, i + n),
            ),
            None => r is None,
        },
{
    let ghost s = cs@.skip(i as int);
    if i >= cs.len() - 1 || cs[i] != ESC || cs[i + 1] != '[' {
        return None;
    }
    let mut j: usize = i + 2;
    let mut ps: Vec<u32> = Vec::new();
    let mut cur: u32 = 0;
    let mut bad = false;
    let mut after_sep = true;
    proof {
        assert(cs@.subrange(i + 2, j as int) =~= seq![]);
    }
    while j < cs.len() && is_param(cs[j])
        invariant
            i + 2 <= j <= cs@.len(),
            s == cs@.skip(i as int),
            s.len() >= 2,
            body_end(s, 2) == body_end(s, j - i),
            param_scan(cs@.subrange(i + 2, j as int)) == (ps@, cur as nat),
            cur <= PARAM_CAP,
            !bad <==> (forall|m: int|
                0 <= m < j - i - 2 && #[trigger] cs@[i + 2 + m] == ';' ==> 0 < m && cs@[i + 1
                    + m] != ';'),
            after_sep <==> (j == i + 2 || cs@[j - 1] == ';'),
        decreases cs.len() - j,
    {
        let c = cs[j];
        let ghost b = cs@.subrange(i + 2, j + 1);
        let ghost was_bad = bad;
        proof {
            assert(b.drop_last() =~= cs@.subrange(i + 2, j as int));
            assert(s[j - i] == c);
        }
        if c == ';' {
            if after_sep {
                bad = true;
            }
            ps.push(cur);
            cur = 0;
            after_sep = true;
        } else {
            let d = digit_of_char(c);
            cur = if cur >= 100 {
                PARAM_CAP
            } else {
                10 * cur + d
            };
            after_sep = false;
        }
        j = j + 1;
        proof {
            if bad && !was_bad {
                let m = j - i - 3;
                assert(cs@[i + 2 + m] == ';');
                assert(!(0 < m && cs@[i + 1 + m] != ';'));
            }
            if !bad {
                assert forall|m: int|
                    0 <= m < j - i - 2 && #[trigger] cs@[i + 2 + m] == ';' implies 0 < m && cs@[i
                        + 1 + m] != ';' by {
                    if m < j - i - 3 {
                    } else {
                        assert(i + 2 + m == j - 1);
                    }
                }
            }
        }
    }
    let k = j;
    proof {
        assert(body_end(s, k - i) == k - i);
        lemma_param_scan_bound(cs@.subrange(i + 2, k as int));
        assert(s.subrange(2, k - i) =~= cs@.subrange(i + 2, k as int));
    }
    if k < cs.len() && cs[k] == 'm' && !bad && !after_sep {
        ps.push(cur);
        let n = k + 1 - i;
        proof {
            let b = cs@.subrange(i + 2, k as int);
            assert(cs@.subrange(i as int, i + n).subrange(2, n - 1) =~= b);
            assert(s[k - i] == 'm');
            assert(well_formed_body(b)) by {
                assert forall|m: int| 0 <= m < b.len() && #[trigger] b[m] == ';' implies 0 < m
                    && m + 1 < b.len() && b[m - 1] != ';' by {
                    assert(cs@[i + 2 + m] == ';');
                }
            }
        }
        Some((n, ps))
    } else {
        proof {
            let b = cs@.subrange(i + 2, k as int);
            if k < cs.len() && cs@[k as int] == 'm' && well_formed_body(b) {
                assert(s[k - i] == 'm');
                if bad {
                    let m = choose|m: int|
                        0 <= m < k - i - 2 && #[trigger] cs@[i + 2 + m] == ';' && !(0 < m
                            && cs@[i + 1 + m] != ';');
                    assert(b[m] == ';');
                }
                if after_sep {
                    assert(b[b.len() - 1] == ';');
                }
            }
        }
        None
    }
}


/// Writing out a concatenation writes out each part.
pub proof fn lemma_serialize_concat(a: Seq<TokenView>, b: Seq<TokenView>)
    ensures
        serialize(a + b) == serialize(a) + serialize(b),
    decreases a.len(),
{
    if a.len() == 0 {
        assert(a + b =~= b);
        assert(serialize(a) + serialize(b) =~= serialize(b));
    } else {
        assert((a + b).skip(1) =~= a.skip(1) + b);
        assert((a + b)[0] == a[0]);
        lemma_serialize_concat(a.skip(1), b);
        assert(serialize(a + b) =~= serialize(a) + serialize(b));
    }
}

/// A single token is written out as its text.
pub proof fn lemma_serialize_one(t: TokenView)
    ensures
        serialize(seq![t]) == token_text(t),
{
    assert(seq![t].skip(1) =~= Seq::<TokenView>::empty());
    assert(serialize(seq![t].skip(1)) =~= Seq::<char>::empty());
    assert(serialize(seq![t]) =~= token_text(t));
}

/// Parsing loses nothing: the tokens of `s`, written out again, are `s`.
pub proof fn lemma_parse_round_trip(s: Seq<char>)
    ensures
        serialize(parse(s)) == s,
    decreases s.len(),
{
    if s.len() > 0 {
        lemma_sgr_len_bounds(s);
        let n: int = match sgr_len(s) {
            Some(n) => n as int,
            None => 1,
        };
        let head = if sgr_len(s) is Some {
            TokenView::Sgr(s.take(n))
        } else {
            TokenView::Text(s.take(1))
        };
        assert(parse(s) == seq![head] + parse(s.skip(n)));
        lemma_parse_round_trip(s.skip(n));
        lemma_serialize_concat(seq![head], parse(s.skip(n)));
        lemma_serialize_one(head);
        assert(token_text(head) =~= s.take(n));
        assert(s.take(n) + s.skip(n) =~= s);
    }
}

/// Where two texts agree on `[i, k)` and both have a non-parameter character
/// (or their end) at `k`, their parameter lists end at the same place.
pub proof fn lemma_body_end_agree(x: Seq<char>, y: Seq<char>, i: int, k: int)
    requires
        0 <= i <= k,
        k <= x.len(),
        k <= y.len(),
        forall|j: int| i <= j < k ==> x[j] == y[j],
        k == x.len() || !is_param_char(x[k]),
        k == y.len() || !is_param_char(y[k]),
    ensures
        body_end(x, i) == body_end(y, i),
        body_end(x, i) <= k,
    decreases k - i,
{
    if i < k {
        assert(x[i] == y[i]);
        if is_param_char(x[i]) {
            lemma_body_end_agree(x, y, i + 1, k);
        }
    }
}

/// Where two texts agree on their first `k` characters and each ends, or
/// holds an escape character, at `k`, the same SGR sequence (or none)
/// starts both.
pub proof fn lemma_sgr_len_stop(x: Seq<char>, y: Seq<char>, k: int)
    requires
        1 <= k <= x.len(),
        k <= y.len(),
        x.take(k) == y.take(k),
        k == x.len() || x[k] == ESC,
        k == y.len() || y[k] == ESC,
    ensures
        sgr_len(x) == sgr_len(y),
{
    assert forall|j: int| 0 <= j < k implies x[j] == y[j] by {
        assert(x.take(k)[j] == x[j]);
        assert(y.take(k)[j] == y[j]);
    }
    if k >= 2 {
        lemma_body_end_agree(x, y, 2, k);
        lemma_body_end_bounds(x, 2);
        let e = body_end(x, 2);
        if e < k {
            assert(x.subrange(2, e) =~= y.subrange(2, e));
        }
    }
}

/// An SGR sequence that starts `x` also starts every text that begins with
/// the same characters.
pub proof fn lemma_sgr_len_prefix(x: Seq<char>, y: Seq<char>, n: nat)
    requires
        sgr_len(x) == Some(n),
        n <= y.len(),
        x.take(n as int) == y.take(n as int),
    ensures
        sgr_len(y) == Some(n),
{
    lemma_sgr_len_bounds(x);
    assert forall|j: int| 0 <= j < n implies x[j] == y[j] by {
        assert(x.take(n as int)[j] == x[j]);
        assert(y.take(n as int)[j] == y[j]);
    }
    let k = n - 1;
    lemma_body_end_bounds(x, 2);
    assert(body_end(x, 2) == k);
    assert(x[k] == 'm');
    assert(y[k] == 'm');
    lemma_body_end_agree(x, y, 2, k);
    assert(x.subrange(2, k) =~= y.subrange(2, k));
}

/// The tokens of a text that starts with a complete SGR sequence.
pub proof fn lemma_parse_sgr_head(x: Seq<char>, y: Seq<char>, n: nat)
    requires
        sgr_len(x) == Some(n),
        n <= y.len(),
        x.take(n as int) == y.take(n as int),
    ensures
        parse(y) == seq![TokenView::Sgr(x.take(n as int))] + parse(y.skip(n as int)),
{
    lemma_sgr_len_bounds(x);
    lemma_sgr_len_prefix(x, y, n);
}

/// Parsing splits at an escape character: the tokens of `a + b` are those
/// of `a` followed by those of `b`, when `b` is empty or starts with `ESC`.
pub proof fn lemma_parse_concat(a: Seq<char>, b: Seq<char>)
    requires
        b.len() == 0 || b[0] == ESC,
    ensures
        parse(a + b) == parse(a) + parse(b),
    decreases a.len(),
{
    if a.len() == 0 {
        assert(a + b =~= b);
        assert(parse(a) + parse(b) =~= parse(b));
    } else {
        let ab = a + b;
        assert(ab.take(a.len() as int) =~= a.take(a.len() as int));
        assert(a.take(a.len() as int) =~= a);
        if b.len() > 0 {
            assert(ab[a.len() as int] == b[0]);
        } else {
            assert(ab =~= a);
        }
        lemma_sgr_len_stop(a, ab, a.len() as int);
        lemma_sgr_len_bounds(a);
        let n: int = match sgr_len(a) {
            Some(n) => n as int,
            None => 1,
        };
        assert(ab.take(n) =~= a.take(n));
        assert(ab.skip(n) =~= a.skip(n) + b);
        lemma_parse_concat(a.skip(n), b);
        assert(parse(ab) =~= parse(a) + parse(b));
    }
}

/// One token of a parsed fragment.
#[derive(Clone, Debug, PartialEq, Eq)]
pub enum Token {
    /// Literal text, passed through as it is.
    Text(String),
    /// The full text of a complete SGR escape sequence.
    Sgr(String),
}

impl View for Token {
    type V = TokenView;

    open spec fn view(&self) -> TokenView {
        match self {
            Token::Text(x) => TokenView::Text(x@),
            Token::Sgr(x) => TokenView::Sgr(x@),
        }
    }
}

/// The views of a vector of tokens.
pub open spec fn tokens_view(ts: Seq<Token>) -> Seq<TokenView> {
    ts.map_values(|t: Token| t@)
}

/// Append `cs[from..to]`.
pub fn push_range(out: &mut String, cs: &Vec<char>, from: usize, to: usize)
    requires
        from <= to <= cs@.len(),
    ensures
        final(out)@ == old(out)@ + cs@.subrange(from as int, to as int),
{
    let mut j = from;
    while j < to
        invariant
            from <= j <= to <= cs@.len(),
            out@ == old(out)@ + cs@.subrange(from as int, j as int),
        decreases to - j,
    {
        out.push(cs[j]);
        j = j + 1;
        assert(out@ =~= old(out)@ + cs@.subrange(from as int, j as int));
    }
}

/// Split a fragment into plain characters and complete SGR sequences.
pub fn tokenize(s: &str) -> (r: Vec<Token>)
    ensures
        tokens_view(r@) == parse(s@),
{
    let cs = chars_of(s);
    let mut r: Vec<Token> = Vec::new();
    let mut i: usize = 0;
    assert(cs@.skip(0) =~= cs@);
    assert(tokens_view(r@) + parse(cs@) =~= parse(cs@));
    while i < cs.len()
        invariant
            i <= cs@.len(),
            cs@ == s@,
            parse(cs@) == tokens_view(r@) + parse(cs@.skip(i as int)),
        decreases cs.len() - i,
    {
        let ghost rest = cs@.skip(i as int);
        proof {
            lemma_sgr_len_bounds(rest);
        }
        let (t, n) = match scan_sgr(&cs, i) {
            Some((n, _)) => {
                let mut x = String::new();
                push_range(&mut x, &cs, i, i + n);
                proof {
                    assert(x@ =~= rest.take(n as int));
                }
                (Token::Sgr(x), n)
            },
            None => {
                let mut x = String::new();
                x.push(cs[i]);
                proof {
                    assert(x@ =~= rest.take(1));
                }
                (Token::Text(x), 1)
            },
        };
        proof {
            assert(rest.skip(n as int) =~= cs@.skip(i + n));
            assert(parse(rest) == seq![t@] + parse(cs@.skip(i + n)));
            assert(tokens_view(r@.push(t)).len() == r@.len() + 1);
            assert(tokens_view(r@.push(t))[r@.len() as int] == t@);
            assert(tokens_view(r@.push(t)) =~= tokens_view(r@).push(t@));
            assert(tokens_view(r@) + parse(rest) =~= tokens_view(r@).push(t@) + parse(
                cs@.skip(i + n),
            ));
        }
        r.push(t);
        i = i + n;
    }
    proof {
        assert(cs@.skip(i as int) =~= Seq::<char>::empty());
        assert(tokens_view(r@) + Seq::<TokenView>::empty() =~= tokens_view(r@));
    }
    r
}

/// Write a token sequence out as text.
pub fn serialize_tokens(ts: &Vec<Token>) -> (r: String)
    ensures
        r@ == serialize(tokens_view(ts@)),
{
    let mut r = String::new();
    let mut i: usize = 0;
    while i < ts.len()
        invariant
            i <= ts@.len(),
            r@ == serialize(tokens_view(ts@.take(i as int))),
        decreases ts.len() - i,
    {
        let ghost before = tokens_view(ts@.take(i as int));
        match &ts[i] {
            Token::Text(x) => r.append(x.as_str()),
            Token::Sgr(x) => r.append(x.as_str()),
        }
        proof {
            assert(tokens_view(ts@.take(i + 1)) =~= before + seq![ts@[i as int]@]);
            lemma_serialize_concat(before, seq![ts@[i as int]@]);
            lemma_serialize_one(ts@[i as int]@);
        }
        i = i + 1;
    }
    assert(ts@.take(i as int) =~= ts@);
    r
}

} // verus!
