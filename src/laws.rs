//! What holds of every safe wrap, proved over the token model.

use vstd::prelude::*;

use crate::codes::{cancel_code, lemma_cancel_round_trip, Category};
use crate::compose::{
    corrected, is_wrap_pair, lemma_assign_effect, lemma_corrected_push, needs_restore,
    restore_after, safe_wrap_text, wrap_body, wrap_category, wrapped,
};
use crate::escape::ESC;
use crate::state::{
    lemma_slot_push, params_effect, params_reset, slot, token_effect,
    token_resets, unit_cancels, unit_category, unit_effect, unit_len, Effect,
};
use crate::token::{
    lemma_parse_sgr_head, lemma_serialize_concat, lemma_serialize_one, lemma_sgr_len_bounds,
    lemma_sgr_len_stop, parse, serialize, sgr_len, token_params, token_text, TokenView,
};

verus! {

/// The text of the corrected content.
pub open spec fn corrected_text(s: Seq<char>, open: Seq<char>, c: Category) -> Seq<char> {
    serialize(corrected(parse(s), open, c))
}

/// The number of characters of `s` before its first escape character.
pub open spec fn first_esc(s: Seq<char>) -> nat
    decreases s.len(),
{
    if s.len() == 0 || s[0] == ESC {
        0
    } else {
        1 + first_esc(s.skip(1))
    }
}

/// The length of the first token of a non-empty text.
pub open spec fn head_len(s: Seq<char>) -> int {
    match sgr_len(s) {
        Some(n) => n as int,
        None => 1,
    }
}

/// The first token of a non-empty text.
pub open spec fn head_token(s: Seq<char>) -> TokenView {
    match sgr_len(s) {
        Some(n) => TokenView::Sgr(s.take(n as int)),
        None => TokenView::Text(s.take(1)),
    }
}

/// The first token of a non-empty text, and the rest.
proof fn lemma_parse_head(s: Seq<char>)
    requires
        s.len() > 0,
    ensures
        1 <= head_len(s) <= s.len(),
        parse(s) == seq![head_token(s)] + parse(s.skip(head_len(s))),
        token_text(head_token(s)) == s.take(head_len(s)),
{
    lemma_sgr_len_bounds(s);
}

/// The text of a token followed by its correction, if any.
proof fn lemma_restore_text(t: TokenView, open: Seq<char>, c: Category)
    ensures
        serialize(restore_after(t, open, c)) == token_text(t) + (if needs_restore(t, c) {
            open
        } else {
            Seq::<char>::empty()
        }),
{
    lemma_serialize_one(t);
    if needs_restore(t, c) {
        let o = TokenView::Sgr(open);
        lemma_serialize_concat(seq![t], seq![o]);
        lemma_serialize_one(o);
        assert(seq![t] + seq![o] =~= seq![t, o]);
    } else {
        assert(token_text(t) + Seq::<char>::empty() =~= token_text(t));
    }
}

/// The corrected text of a non-empty text: its first token, the
/// correction after it if any, and the corrected text of the rest.
proof fn lemma_corrected_text_head(s: Seq<char>, open: Seq<char>, c: Category)
    requires
        s.len() > 0,
    ensures
        corrected_text(s, open, c) == s.take(head_len(s)) + (if needs_restore(head_token(s), c) {
            open
        } else {
            Seq::<char>::empty()
        }) + corrected_text(s.skip(head_len(s)), open, c),
{
    lemma_parse_head(s);
    let t = head_token(s);
    let ts = parse(s);
    assert(ts[0] == t);
    assert(ts.skip(1) =~= parse(s.skip(head_len(s))));
    lemma_serialize_concat(restore_after(t, open, c), corrected(ts.skip(1), open, c));
    lemma_restore_text(t, open, c);
}

/// Up to the first escape character of `s`, its corrected text (followed by
/// a tail that is empty or starts with an escape) is `s` itself, and both
/// hold an escape character or end right there.
proof fn lemma_corrected_text_plain_prefix(s: Seq<char>, open: Seq<char>, c: Category, tail: Seq<char>)
    requires
        tail.len() == 0 || tail[0] == ESC,
    ensures
        ({
            let q = first_esc(s) as int;
            let w = corrected_text(s, open, c) + tail;
            &&& q <= s.len()
            &&& q <= w.len()
            &&& w.take(q) == s.take(q)
            &&& (w.len() == q || w[q] == ESC)
            &&& (s.len() == q || s[q] == ESC)
        }),
    decreases s.len(),
{
    let w = corrected_text(s, open, c) + tail;
    if s.len() == 0 {
        assert(parse(s) =~= Seq::<TokenView>::empty());
        assert(corrected(parse(s), open, c) =~= Seq::<TokenView>::empty());
        assert(w =~= tail);
    } else if s[0] == ESC {
        lemma_corrected_text_head(s, open, c);
        lemma_parse_head(s);
        assert(w[0] == s[0]);
    } else {
        lemma_corrected_text_head(s, open, c);
        lemma_parse_head(s);
        assert(sgr_len(s) is None);
        assert(!needs_restore(head_token(s), c));
        let s1 = s.skip(1);
        lemma_corrected_text_plain_prefix(s1, open, c, tail);
        let q1 = first_esc(s1) as int;
        let w1 = corrected_text(s1, open, c) + tail;
        assert(w =~= s.take(1) + w1);
        assert(w.take(q1 + 1) =~= s.take(1) + w1.take(q1));
        assert(s.take(q1 + 1) =~= s.take(1) + s1.take(q1));
        if w1.len() > q1 {
            assert(w[q1 + 1] == w1[q1]);
        }
        if s1.len() > q1 {
            assert(s[q1 + 1] == s1[q1]);
        }
    }
}

/// The corrected tokens of a non-empty text, split after its first token.
proof fn lemma_corrected_head(s: Seq<char>, open: Seq<char>, c: Category)
    requires
        s.len() > 0,
    ensures
        corrected(parse(s), open, c) == restore_after(head_token(s), open, c) + corrected(
            parse(s.skip(head_len(s))),
            open,
            c,
        ),
{
    lemma_parse_head(s);
    let ts = parse(s);
    assert(ts[0] == head_token(s));
    assert(ts.skip(1) =~= parse(s.skip(head_len(s))));
}

/// A complete SGR sequence `x.take(n)` in front of any text is its first token.
proof fn lemma_parse_sgr_front(x: Seq<char>, n: nat, z: Seq<char>)
    requires
        sgr_len(x) == Some(n),
    ensures
        parse(x.take(n as int) + z) == seq![TokenView::Sgr(x.take(n as int))] + parse(z),
{
    lemma_sgr_len_bounds(x);
    let y = x.take(n as int) + z;
    assert(y.take(n as int) =~= x.take(n as int));
    lemma_parse_sgr_head(x, y, n);
    assert(y.skip(n as int) =~= z);
}

/// The step of the re-parse for a content that starts with an SGR sequence.
proof fn lemma_reparse_step_sgr(s: Seq<char>, open: Seq<char>, c: Category, tail: Seq<char>)
    requires
        s.len() > 0,
        sgr_len(s) is Some,
        sgr_len(open) == Some(open.len()),
        tail.len() == 0 || tail[0] == ESC,
        parse(corrected_text(s.skip(head_len(s)), open, c) + tail) == corrected(
            parse(s.skip(head_len(s))),
            open,
            c,
        ) + parse(tail),
    ensures
        parse(corrected_text(s, open, c) + tail) == corrected(parse(s), open, c) + parse(tail),
{
    lemma_corrected_text_head(s, open, c);
    lemma_corrected_head(s, open, c);
    let n = head_len(s);
    let t = head_token(s);
    let s1 = s.skip(n);
    let w1 = corrected_text(s1, open, c) + tail;
    let rest = corrected(parse(s1), open, c) + parse(tail);
    let y = corrected_text(s, open, c) + tail;
    if needs_restore(t, c) {
        assert(y =~= s.take(n) + (open + w1));
        lemma_parse_sgr_front(s, n as nat, open + w1);
        assert(open.take(open.len() as int) =~= open);
        lemma_parse_sgr_front(open, open.len(), w1);
        assert(parse(y) == seq![t] + (seq![TokenView::Sgr(open)] + rest));
        assert(restore_after(t, open, c) == seq![t, TokenView::Sgr(open)]);
        assert(parse(y) =~= restore_after(t, open, c) + rest);
    } else {
        assert(y =~= s.take(n) + w1);
        lemma_parse_sgr_front(s, n as nat, w1);
        assert(parse(y) == seq![t] + rest);
        assert(parse(y) =~= restore_after(t, open, c) + rest);
    }
}

/// The step of the re-parse for a content that starts with a literal
/// character.
proof fn lemma_reparse_step_text(s: Seq<char>, open: Seq<char>, c: Category, tail: Seq<char>)
    requires
        s.len() > 0,
        sgr_len(s) is None,
        tail.len() == 0 || tail[0] == ESC,
        parse(corrected_text(s.skip(1), open, c) + tail) == corrected(parse(s.skip(1)), open, c)
            + parse(tail),
    ensures
        parse(corrected_text(s, open, c) + tail) == corrected(parse(s), open, c) + parse(tail),
{
    lemma_corrected_text_head(s, open, c);
    lemma_parse_head(s);
    let t = head_token(s);
    let s1 = s.skip(1);
    let w1 = corrected_text(s1, open, c) + tail;
    let ts = parse(s);
    assert(ts[0] == t);
    assert(ts.skip(1) =~= parse(s1));
    assert(corrected(ts, open, c) == restore_after(t, open, c) + corrected(parse(s1), open, c));
    assert(!needs_restore(t, c));
    let y = corrected_text(s, open, c) + tail;
    lemma_corrected_text_plain_prefix(s1, open, c, tail);
    let q = first_esc(s1) as int;
    assert(y =~= s.take(1) + w1);
    assert(y.take(q + 1) =~= s.take(1) + w1.take(q));
    assert(s.take(q + 1) =~= s.take(1) + s1.take(q));
    if w1.len() > q {
        assert(y[q + 1] == w1[q]);
    }
    if s1.len() > q {
        assert(s[q + 1] == s1[q]);
    }
    lemma_sgr_len_stop(s, y, q + 1);
    assert(y.take(1) =~= s.take(1));
    assert(y.skip(1) =~= w1);
    assert(parse(y) == seq![TokenView::Text(y.take(1))] + parse(y.skip(1)));
    assert(parse(y) =~= corrected(ts, open, c) + parse(tail));
}

/// The corrected text, followed by a tail that is empty or starts with an
/// escape, parses into the corrected tokens followed by the tail's tokens.
pub proof fn lemma_reparse_corrected(s: Seq<char>, open: Seq<char>, c: Category, tail: Seq<char>)
    requires
        sgr_len(open) == Some(open.len()),
        tail.len() == 0 || tail[0] == ESC,
    ensures
        parse(corrected_text(s, open, c) + tail) == corrected(parse(s), open, c) + parse(tail),
    decreases s.len(),
{
    if s.len() == 0 {
        assert(parse(s) =~= Seq::<TokenView>::empty());
        assert(corrected(parse(s), open, c) =~= Seq::<TokenView>::empty());
        assert(corrected_text(s, open, c) + tail =~= tail);
        assert(corrected(parse(s), open, c) + parse(tail) =~= parse(tail));
    } else {
        lemma_parse_head(s);
        lemma_reparse_corrected(s.skip(head_len(s)), open, c, tail);
        if sgr_len(s) is Some {
            lemma_reparse_step_sgr(s, open, c, tail);
        } else {
            lemma_reparse_step_text(s, open, c, tail);
        }
    }
}


/// Correcting a concatenation corrects each part.
pub proof fn lemma_corrected_concat(a: Seq<TokenView>, b: Seq<TokenView>, open: Seq<char>, c: Category)
    ensures
        corrected(a + b, open, c) == corrected(a, open, c) + corrected(b, open, c),
    decreases a.len(),
{
    if a.len() == 0 {
        assert(a + b =~= b);
        assert(corrected(a, open, c) + corrected(b, open, c) =~= corrected(b, open, c));
    } else {
        assert((a + b)[0] == a[0]);
        assert((a + b).skip(1) =~= a.skip(1) + b);
        lemma_corrected_concat(a.skip(1), b, open, c);
        assert(corrected(a + b, open, c) =~= corrected(a, open, c) + corrected(b, open, c));
    }
}

/// What the two codes of a wrap pair do: `open` sets the wrap's category
/// and `close` switches it off; neither resets anything or touches another
/// category.
pub proof fn lemma_pair_effects(open: Seq<char>, close: Seq<char>, d: Category)
    requires
        is_wrap_pair(open, close),
    ensures
        token_effect(TokenView::Sgr(open), wrap_category(open)) is Assign,
        token_effect(TokenView::Sgr(close), wrap_category(open)) is Clear,
        !token_resets(TokenView::Sgr(open)),
        !token_resets(TokenView::Sgr(close)),
        d != wrap_category(open) ==> token_effect(TokenView::Sgr(open), d) is Keep,
        d != wrap_category(open) ==> token_effect(TokenView::Sgr(close), d) is Keep,
        open.len() > 0 && open[0] == ESC,
        close.len() > 0 && close[0] == ESC,
        slot(seq![TokenView::Sgr(open)], wrap_category(open)) is Some,
{
    let c = wrap_category(open);
    let ps = token_params(open);
    lemma_assign_effect(ps, c, d);
    lemma_sgr_len_bounds(open);
    lemma_sgr_len_bounds(close);
    lemma_cancel_round_trip(c);
    let cc = cancel_code(c)->0;
    let qs = token_params(close);
    assert(qs == seq![cc]);
    assert(unit_len(qs) == 1);
    assert(qs.take(1) =~= qs);
    assert(qs.skip(1) =~= Seq::<u32>::empty());
    assert(unit_category(qs) == c);
    assert(unit_cancels(qs));
    assert(params_effect(qs.skip(1), c) == Effect::Keep);
    assert(params_effect(qs.skip(1), d) == Effect::Keep);
    assert(!params_reset(qs.skip(1)));
    assert(params_effect(qs, c) == Effect::Clear);
    assert(params_effect(qs, d) == unit_effect(qs, d));
    assert(!params_reset(qs));
    assert(seq![TokenView::Sgr(open)].drop_last() =~= Seq::<TokenView>::empty());
}

/// The tokens of a safe wrap's text are exactly the wrapped tokens: the
/// opening code, the content's tokens with the corrections inserted, and
/// the closing code (after a final correction where one is needed).
pub proof fn lemma_reparse_wrap(x: Seq<char>, open: Seq<char>, close: Seq<char>)
    requires
        is_wrap_pair(open, close),
    ensures
        parse(safe_wrap_text(x, open, close)) == wrapped(x, open, close),
{
    let c = wrap_category(open);
    lemma_pair_effects(open, close, c);
    let opening = TokenView::Sgr(open);
    let closing = TokenView::Sgr(close);
    let corr = corrected(parse(x), open, c);
    let body = wrap_body(x, open);
    let fin = if slot(body, c) == slot(seq![opening], c) {
        seq![closing]
    } else {
        seq![opening, closing]
    };
    assert(wrapped(x, open, close) =~= seq![opening] + (corr + fin));
    lemma_serialize_concat(seq![opening], corr + fin);
    lemma_serialize_concat(corr, fin);
    lemma_serialize_one(opening);
    lemma_serialize_one(closing);
    let ft = serialize(fin);
    assert(open.take(open.len() as int) =~= open);
    assert(close.take(close.len() as int) =~= close);
    // The tokens of the final codes.
    lemma_parse_sgr_front(close, close.len(), Seq::<char>::empty());
    assert(close + Seq::<char>::empty() =~= close);
    assert(parse(Seq::<char>::empty()) =~= Seq::<TokenView>::empty());
    if fin == seq![closing] {
        assert(ft == close);
        assert(parse(ft) =~= fin);
    } else {
        lemma_serialize_concat(seq![opening], seq![closing]);
        assert(seq![opening] + seq![closing] =~= fin);
        assert(ft == open + close);
        lemma_parse_sgr_front(open, open.len(), close);
        assert(parse(ft) =~= fin);
    }
    let out = safe_wrap_text(x, open, close);
    assert(out =~= open + (corrected_text(x, open, c) + ft));
    lemma_parse_sgr_front(open, open.len(), corrected_text(x, open, c) + ft);
    lemma_reparse_corrected(x, open, c, ft);
    assert(parse(out) =~= seq![opening] + (corr + fin));
}

/// At every boundary between the content's tokens, the wrap leaves a
/// category other than its own exactly as the content alone has it.
proof fn lemma_independent_prefix(ts: Seq<TokenView>, open: Seq<char>, close: Seq<char>, d: Category, i: int)
    requires
        is_wrap_pair(open, close),
        d != wrap_category(open),
        0 <= i <= ts.len(),
    ensures
        slot(seq![TokenView::Sgr(open)] + corrected(ts.take(i), open, wrap_category(open)), d)
            == slot(ts.take(i), d),
    decreases i,
{
    let c = wrap_category(open);
    let opening = TokenView::Sgr(open);
    lemma_pair_effects(open, close, d);
    if i == 0 {
        assert(ts.take(0) =~= Seq::<TokenView>::empty());
        assert(corrected(ts.take(0), open, c) =~= Seq::<TokenView>::empty());
        assert(seq![opening] + Seq::<TokenView>::empty() =~= seq![opening]);
        assert(seq![opening].drop_last() =~= Seq::<TokenView>::empty());
    } else {
        lemma_independent_prefix(ts, open, close, d, i - 1);
        let t = ts[i - 1];
        let before = seq![opening] + corrected(ts.take(i - 1), open, c);
        assert(ts.take(i) =~= ts.take(i - 1).push(t));
        lemma_corrected_push(ts.take(i - 1), t, open, c);
        lemma_slot_push(ts.take(i - 1), t, d);
        lemma_slot_push(before, t, d);
        if needs_restore(t, c) {
            lemma_slot_push(before.push(t), opening, d);
            assert(seq![opening] + corrected(ts.take(i), open, c) =~= before.push(t).push(
                opening,
            ));
        } else {
            assert(seq![opening] + corrected(ts.take(i), open, c) =~= before.push(t));
        }
    }
}

/// At every boundary between the content's tokens, the wrap's own category
/// is showing some value.
proof fn lemma_shows_prefix(ts: Seq<TokenView>, open: Seq<char>, close: Seq<char>, i: int)
    requires
        is_wrap_pair(open, close),
        0 <= i <= ts.len(),
    ensures
        slot(
            seq![TokenView::Sgr(open)] + corrected(ts.take(i), open, wrap_category(open)),
            wrap_category(open),
        ) is Some,
    decreases i,
{
    let c = wrap_category(open);
    let opening = TokenView::Sgr(open);
    lemma_pair_effects(open, close, c);
    if i == 0 {
        assert(ts.take(0) =~= Seq::<TokenView>::empty());
        assert(corrected(ts.take(0), open, c) =~= Seq::<TokenView>::empty());
        assert(seq![opening] + Seq::<TokenView>::empty() =~= seq![opening]);
    } else {
        lemma_shows_prefix(ts, open, close, i - 1);
        let t = ts[i - 1];
        let before = seq![opening] + corrected(ts.take(i - 1), open, c);
        assert(ts.take(i) =~= ts.take(i - 1).push(t));
        lemma_corrected_push(ts.take(i - 1), t, open, c);
        lemma_slot_push(before, t, c);
        if needs_restore(t, c) {
            lemma_slot_push(before.push(t), opening, c);
            assert(seq![opening] + corrected(ts.take(i), open, c) =~= before.push(t).push(
                opening,
            ));
        } else {
            assert(seq![opening] + corrected(ts.take(i), open, c) =~= before.push(t));
        }
    }
}

/// The output up to (and with the correction after) the content's first
/// `i` tokens is a prefix of the output's tokens.
pub proof fn lemma_wrap_prefix(x: Seq<char>, open: Seq<char>, close: Seq<char>, i: int)
    requires
        is_wrap_pair(open, close),
        0 <= i <= parse(x).len(),
    ensures
        ({
            let pre = seq![TokenView::Sgr(open)] + corrected(
                parse(x).take(i),
                open,
                wrap_category(open),
            );
            &&& pre.len() <= parse(safe_wrap_text(x, open, close)).len()
            &&& parse(safe_wrap_text(x, open, close)).take(pre.len() as int) == pre
        }),
{
    let c = wrap_category(open);
    let ts = parse(x);
    let pre = seq![TokenView::Sgr(open)] + corrected(ts.take(i), open, c);
    lemma_reparse_wrap(x, open, close);
    assert(ts =~= ts.take(i) + ts.skip(i));
    lemma_corrected_concat(ts.take(i), ts.skip(i), open, c);
    let w = wrapped(x, open, close);
    assert(w.len() >= pre.len());
    assert(w.take(pre.len() as int) =~= pre);
}

/// No bleed: the output of a wrap leaves every category as the content alone
/// leaves it, except the wrap's own, which it switches off. So a content
/// that leaves every category off leaves every category off when wrapped.
pub proof fn lemma_no_bleed(x: Seq<char>, open: Seq<char>, close: Seq<char>, d: Category)
    requires
        is_wrap_pair(open, close),
    ensures
        slot(parse(safe_wrap_text(x, open, close)), d) == (if d == wrap_category(open) {
            None
        } else {
            slot(parse(x), d)
        }),
        slot(parse(x), d) is None ==> slot(parse(safe_wrap_text(x, open, close)), d) is None,
{
    let c = wrap_category(open);
    let ts = parse(x);
    let opening = TokenView::Sgr(open);
    let closing = TokenView::Sgr(close);
    lemma_reparse_wrap(x, open, close);
    lemma_pair_effects(open, close, d);
    let body = wrap_body(x, open);
    let w = wrapped(x, open, close);
    lemma_slot_push(w.drop_last(), closing, d);
    assert(w.drop_last().push(closing) =~= w);
    if d != c {
        lemma_independent_prefix(ts, open, close, d, ts.len() as int);
        assert(ts.take(ts.len() as int) =~= ts);
        if slot(body, c) == slot(seq![opening], c) {
            assert(w.drop_last() =~= body);
        } else {
            assert(w.drop_last() =~= body.push(opening));
            lemma_slot_push(body, opening, d);
        }
    }
}

/// Restoration: right after a sequence of the content that resets every
/// attribute, the wrap's category is back at the value its opening code
/// sets.
pub proof fn lemma_restoration(x: Seq<char>, open: Seq<char>, close: Seq<char>, i: int)
    requires
        is_wrap_pair(open, close),
        0 <= i < parse(x).len(),
        token_resets(parse(x)[i]),
    ensures
        ({
            let c = wrap_category(open);
            let pre = seq![TokenView::Sgr(open)] + corrected(parse(x).take(i + 1), open, c);
            &&& parse(safe_wrap_text(x, open, close)).take(pre.len() as int) == pre
            &&& pre.last() == TokenView::Sgr(open)
            &&& slot(pre, c) == slot(seq![TokenView::Sgr(open)], c)
        }),
{
    let c = wrap_category(open);
    let ts = parse(x);
    let t = ts[i];
    let opening = TokenView::Sgr(open);
    lemma_wrap_prefix(x, open, close, i + 1);
    lemma_pair_effects(open, close, c);
    let before = seq![opening] + corrected(ts.take(i), open, c);
    assert(ts.take(i + 1) =~= ts.take(i).push(t));
    lemma_corrected_push(ts.take(i), t, open, c);
    let pre = seq![opening] + corrected(ts.take(i + 1), open, c);
    assert(pre =~= before.push(t).push(opening));
    lemma_slot_push(before.push(t), opening, c);
    assert(seq![opening].drop_last() =~= Seq::<TokenView>::empty());
}

/// Category independence: at every boundary between the content's tokens,
/// a category other than the wrap's own has in the output exactly the value
/// it has in the content alone.
pub proof fn lemma_category_independence(
    x: Seq<char>,
    open: Seq<char>,
    close: Seq<char>,
    d: Category,
    i: int,
)
    requires
        is_wrap_pair(open, close),
        d != wrap_category(open),
        0 <= i <= parse(x).len(),
    ensures
        ({
            let pre = seq![TokenView::Sgr(open)] + corrected(
                parse(x).take(i),
                open,
                wrap_category(open),
            );
            &&& parse(safe_wrap_text(x, open, close)).take(pre.len() as int) == pre
            &&& slot(pre, d) == slot(parse(x).take(i), d)
        }),
{
    lemma_wrap_prefix(x, open, close, i);
    lemma_independent_prefix(parse(x), open, close, d, i);
}

/// The wrap's own category shows some value at every boundary between the
/// content's tokens: nothing inside the content erases it.
pub proof fn lemma_wrap_shows(x: Seq<char>, open: Seq<char>, close: Seq<char>, i: int)
    requires
        is_wrap_pair(open, close),
        0 <= i <= parse(x).len(),
    ensures
        ({
            let pre = seq![TokenView::Sgr(open)] + corrected(
                parse(x).take(i),
                open,
                wrap_category(open),
            );
            &&& pre.len() <= parse(safe_wrap_text(x, open, close)).len()
            &&& parse(safe_wrap_text(x, open, close)).take(pre.len() as int) == pre
            &&& slot(pre, wrap_category(open)) is Some
        }),
{
    lemma_wrap_prefix(x, open, close, i);
    lemma_shows_prefix(parse(x), open, close, i);
}


/// Nesting: in `safe_wrap(safe_wrap(x, A), B)`
/// - nothing of either wrap leaks past the outer close: every category ends
///   as `x` alone leaves it, except the two wraps' own, which end off;
/// - the inner wrap never erases the outer one: `B`'s category shows some
///   value at every boundary between the inner text's tokens;
/// - where the categories differ, the outer wrap never erases the inner
///   one: `A`'s category shows some value at every boundary between `x`'s
///   tokens, as placed in the final output;
/// - where they are the same, the inner value shows within its own span
///   and `B`'s own value is back before `B`'s close.
pub proof fn lemma_nested_wraps(
    x: Seq<char>,
    a_open: Seq<char>,
    a_close: Seq<char>,
    b_open: Seq<char>,
    b_close: Seq<char>,
)
    requires
        is_wrap_pair(a_open, a_close),
        is_wrap_pair(b_open, b_close),
    ensures
        ({
            let ca = wrap_category(a_open);
            let cb = wrap_category(b_open);
            let y = safe_wrap_text(x, a_open, a_close);
            let z = safe_wrap_text(y, b_open, b_close);
            &&& forall|d: Category|
                #![trigger slot(parse(z), d)]
                slot(parse(z), d) == (if d == ca || d == cb {
                    None
                } else {
                    slot(parse(x), d)
                })
            &&& forall|i: int|
                0 <= i <= parse(y).len() ==> slot(
                    seq![TokenView::Sgr(b_open)] + #[trigger] corrected(
                        parse(y).take(i),
                        b_open,
                        cb,
                    ),
                    cb,
                ) is Some
            &&& ca != cb ==> forall|i: int|
                0 <= i <= parse(x).len() ==> slot(
                    seq![TokenView::Sgr(b_open)] + corrected(
                        parse(y).take(1 + #[trigger] corrected(parse(x).take(i), a_open, ca).len() as int),
                        b_open,
                        cb,
                    ),
                    ca,
                ) is Some
            &&& ca == cb ==> slot(
                seq![TokenView::Sgr(b_open)] + corrected(parse(y), b_open, cb),
                cb,
            ) == slot(seq![TokenView::Sgr(b_open)], cb)
        }),
{
    let ca = wrap_category(a_open);
    let cb = wrap_category(b_open);
    let y = safe_wrap_text(x, a_open, a_close);
    let z = safe_wrap_text(y, b_open, b_close);
    assert forall|d: Category| #![trigger slot(parse(z), d)]
        slot(parse(z), d) == (if d == ca || d == cb {
            None
        } else {
            slot(parse(x), d)
        }) by {
        lemma_no_bleed(y, b_open, b_close, d);
        lemma_no_bleed(x, a_open, a_close, d);
    }
    assert forall|i: int| 0 <= i <= parse(y).len() implies slot(
        seq![TokenView::Sgr(b_open)] + #[trigger] corrected(parse(y).take(i), b_open, cb),
        cb,
    ) is Some by {
        lemma_wrap_shows(y, b_open, b_close, i);
    }
    if ca != cb {
        assert forall|i: int| 0 <= i <= parse(x).len() implies slot(
            seq![TokenView::Sgr(b_open)] + corrected(
                parse(y).take(1 + #[trigger] corrected(parse(x).take(i), a_open, ca).len() as int),
                b_open,
                cb,
            ),
            ca,
        ) is Some by {
            lemma_wrap_shows(x, a_open, a_close, i);
            let k = 1 + corrected(parse(x).take(i), a_open, ca).len() as int;
            lemma_category_independence(y, b_open, b_close, ca, k);
        }
    } else {
        lemma_reparse_wrap(x, a_open, a_close);
        lemma_pair_effects(a_open, a_close, cb);
        lemma_pair_effects(b_open, b_close, cb);
        let ty = parse(y);
        let a_closing = TokenView::Sgr(a_close);
        let b_opening = TokenView::Sgr(b_open);
        assert(ty.last() == a_closing);
        assert(ty =~= ty.drop_last().push(a_closing));
        lemma_corrected_push(ty.drop_last(), a_closing, b_open, cb);
        let before = seq![b_opening] + corrected(ty.drop_last(), b_open, cb);
        assert(seq![b_opening] + corrected(ty, b_open, cb) =~= before.push(a_closing).push(
            b_opening,
        ));
        lemma_slot_push(before.push(a_closing), b_opening, cb);
        assert(seq![b_opening].drop_last() =~= Seq::<TokenView>::empty());
    }
}

} // verus!
