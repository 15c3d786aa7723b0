//! The composition engine: wrap text that may already hold SGR sequences in
//! one more attribute, so that neither style bleeds into the other.
//!
//! The rule is "innermost wins within its own span, outermost wins after
//! it": an inner code of the wrap's own category may show for the extent of
//! its span, and the wrap's opening code is asserted again right after any
//! sequence that switches the category off (its cancel code, or a reset of
//! every attribute), and once more before the closing code if an inner value
//! is still showing there.

use vstd::prelude::*;
use vstd::string::StringExecFns;

use crate::codes::{cancel_code, is_style_category, Category};
use crate::state::{
    apply_effect, lemma_slot_push, params_effect, params_effect_of, params_reset,
    slot, token_effect, token_resets, unit_category, unit_cancels, unit_kind, unit_len,
    unit_len_at, Change,
};
use crate::token::{
    chars_of, lemma_serialize_concat, lemma_serialize_one, lemma_sgr_len_bounds, parse,
    push_range, scan_sgr, serialize, sgr_len, token_params, TokenView,
};

verus! {

/// Every logical code of `ps` sets category `c` (none cancels it).
pub open spec fn all_units_assign(ps: Seq<u32>, c: Category) -> bool
    decreases ps.len(),
{
    if ps.len() == 0 {
        true
    } else {
        let n = unit_len(ps) as int;
        &&& unit_category(ps.take(n)) == c
        &&& !unit_cancels(ps.take(n))
        &&& all_units_assign(ps.skip(n), c)
    }
}

/// The category of an opening sequence: that of its first code.
pub open spec fn wrap_category(open: Seq<char>) -> Category {
    let ps = token_params(open);
    unit_category(ps.take(unit_len(ps) as int))
}

/// `open` is one complete SGR sequence whose codes all set one category,
/// and `close` is the single cancel code of that category.
pub open spec fn is_wrap_pair(open: Seq<char>, close: Seq<char>) -> bool {
    let c = wrap_category(open);
    &&& is_style_category(c)
    &&& sgr_len(open) == Some(open.len())
    &&& all_units_assign(token_params(open), c)
    &&& sgr_len(close) == Some(close.len())
    &&& token_params(close) == seq![cancel_code(c)->0]
}

/// A token after which the wrap's opening code must be asserted again: it
/// resets every attribute, or switches category `c` off.
pub open spec fn needs_restore(t: TokenView, c: Category) -> bool {
    token_resets(t) || token_effect(t, c) is Clear
}

/// A token of the content, followed by the opening code where it is needed.
pub open spec fn restore_after(t: TokenView, open: Seq<char>, c: Category) -> Seq<TokenView> {
    if needs_restore(t, c) {
        seq![t, TokenView::Sgr(open)]
    } else {
        seq![t]
    }
}

/// The content's tokens with the corrective re-assertions inserted.
pub open spec fn corrected(ts: Seq<TokenView>, open: Seq<char>, c: Category) -> Seq<TokenView>
    decreases ts.len(),
{
    if ts.len() == 0 {
        seq![]
    } else {
        restore_after(ts[0], open, c) + corrected(ts.skip(1), open, c)
    }
}

/// The opening code followed by the corrected content.
pub open spec fn wrap_body(content: Seq<char>, open: Seq<char>) -> Seq<TokenView> {
    seq![TokenView::Sgr(open)] + corrected(parse(content), open, wrap_category(open))
}

/// The tokens of a safe wrap: the body, the opening code once more if an
/// inner value of the category is still showing, and the closing code.
pub open spec fn wrapped(content: Seq<char>, open: Seq<char>, close: Seq<char>) -> Seq<TokenView> {
    let body = wrap_body(content, open);
    let c = wrap_category(open);
    if slot(body, c) == slot(seq![TokenView::Sgr(open)], c) {
        body.push(TokenView::Sgr(close))
    } else {
        body + seq![TokenView::Sgr(open), TokenView::Sgr(close)]
    }
}

/// The text of a safe wrap.
pub open spec fn safe_wrap_text(content: Seq<char>, open: Seq<char>, close: Seq<char>) -> Seq<
    char,
> {
    serialize(wrapped(content, open, close))
}

/// Correcting one more token appends that token's correction.
pub proof fn lemma_corrected_push(ts: Seq<TokenView>, t: TokenView, open: Seq<char>, c: Category)
    ensures
        corrected(ts.push(t), open, c) == corrected(ts, open, c) + restore_after(t, open, c),
    decreases ts.len(),
{
    if ts.len() == 0 {
        assert(ts.push(t).skip(1) =~= ts);
        assert(corrected(ts, open, c) =~= Seq::<TokenView>::empty());
        assert(ts.push(t)[0] == t);
        assert(corrected(ts.push(t), open, c) =~= restore_after(t, open, c));
        assert(corrected(ts, open, c) + restore_after(t, open, c) =~= restore_after(t, open, c));
    } else {
        assert(ts.push(t).skip(1) =~= ts.skip(1).push(t));
        assert(ts.push(t)[0] == ts[0]);
        lemma_corrected_push(ts.skip(1), t, open, c);
        assert(corrected(ts.push(t), open, c) =~= corrected(ts, open, c) + restore_after(
            t,
            open,
            c,
        ));
    }
}

/// A sequence whose codes all set style category `c` sets `c`, resets
/// nothing, and leaves every other category alone.
pub proof fn lemma_assign_effect(ps: Seq<u32>, c: Category, d: Category)
    requires
        all_units_assign(ps, c),
        is_style_category(c),
        ps.len() > 0,
    ensures
        params_effect(ps, c) is Assign,
        !params_reset(ps),
        d != c ==> params_effect(ps, d) is Keep,
    decreases ps.len(),
{
    let n = unit_len(ps) as int;
    if ps.skip(n).len() > 0 {
        lemma_assign_effect(ps.skip(n), c, d);
    } else {
        assert(params_effect(ps.skip(n), c) is Keep);
        assert(params_effect(ps.skip(n), d) is Keep);
        assert(!params_reset(ps.skip(n)));
    }
}

/// Whether `a[a0..a1]` and `b[b0..b1]` hold the same values.
fn same_values(a: &Vec<u32>, a0: usize, a1: usize, b: &Vec<u32>, b0: usize, b1: usize) -> (r:
    bool)
    requires
        a0 <= a1 <= a@.len(),
        b0 <= b1 <= b@.len(),
    ensures
        r == (a@.subrange(a0 as int, a1 as int) == b@.subrange(b0 as int, b1 as int)),
{
    if a1 - a0 != b1 - b0 {
        assert(a@.subrange(a0 as int, a1 as int).len() != b@.subrange(b0 as int, b1 as int).len());
        return false;
    }
    let mut k: usize = 0;
    while k < a1 - a0
        invariant
            a0 <= a1 <= a@.len(),
            b0 <= b1 <= b@.len(),
            a1 - a0 == b1 - b0,
            k <= a1 - a0,
            forall|m: int| 0 <= m < k ==> #[trigger] a@[a0 + m] == b@[b0 + m],
        decreases a1 - a0 - k,
    {
        if a[a0 + k] != b[b0 + k] {
            assert(a@.subrange(a0 as int, a1 as int)[k as int] != b@.subrange(
                b0 as int,
                b1 as int,
            )[k as int]);
            return false;
        }
        k = k + 1;
    }
    assert forall|m: int| 0 <= m < a1 - a0 implies a@.subrange(a0 as int, a1 as int)[m] == b@.subrange(
        b0 as int,
        b1 as int,
    )[m] by {
        assert(a@[a0 + m] == b@[b0 + m]);
    }
    assert(a@.subrange(a0 as int, a1 as int) =~= b@.subrange(b0 as int, b1 as int));
    true
}

/// Wrap `content` in `open` ... `close` so that the wrap's category shows
/// over all of `content` except where an inner code of that category
/// overrides it, and ends at `close`.
///
/// `open` is one SGR sequence whose codes all belong to one category, and
/// `close` that category's cancel code, e.g. `"\x1b[31m"` and `"\x1b[39m"`.
pub fn safe_wrap(content: &str, open: &str, close: &str) -> (r: String)
    requires
        is_wrap_pair(open@, close@),
    ensures
        r@ == safe_wrap_text(content@, open@, close@),
{
    let os = chars_of(open);
    proof {
        assert(os@.skip(0) =~= os@);
        assert(os@.subrange(0, os@.len() as int) =~= os@);
    }
    let ops = match scan_sgr(&os, 0) {
        Some((_, ps)) => ps,
        None => Vec::new(),
    };
    let n0 = unit_len_at(&ops, 0);
    let (c, _) = unit_kind(&ops, 0, n0);
    let ghost opening = TokenView::Sgr(open@);
    proof {
        assert(ops@.skip(0) =~= ops@);
        assert(ops@.subrange(0, n0 as int) =~= ops@.take(n0 as int));
        lemma_assign_effect(ops@, c, c);
        assert(slot(seq![opening], c) == apply_effect(None, token_effect(opening, c))) by {
            assert(seq![opening].drop_last() =~= Seq::<TokenView>::empty());
        }
    }
    let (open_change, _) = params_effect_of(&ops, c);
    let (oa, ob) = match open_change {
        Change::Assign(a, b) => (a, b),
        _ => (0, 0),
    };
    let cs = chars_of(content);
    let mut out = String::new();
    out.append(open);
    let mut at_open = true;
    let mut i: usize = 0;
    let ghost mut done: Seq<TokenView> = seq![];
    proof {
        assert(cs@.skip(0) =~= cs@);
        assert(done + parse(cs@) =~= parse(cs@));
        assert(seq![opening] + corrected(done, open@, c) =~= seq![opening]);
        lemma_serialize_one(opening);
    }
    while i < cs.len()
        invariant
            i <= cs@.len(),
            cs@ == content@,
            c == wrap_category(open@),
            is_wrap_pair(open@, close@),
            opening == TokenView::Sgr(open@),
            oa <= ob <= ops@.len(),
            ops@ == token_params(open@),
            slot(seq![opening], c) == Some(ops@.subrange(oa as int, ob as int)),
            parse(cs@) == done + parse(cs@.skip(i as int)),
            out@ == serialize(seq![opening] + corrected(done, open@, c)),
            at_open == (slot(seq![opening] + corrected(done, open@, c), c) == slot(
                seq![opening],
                c,
            )),
        decreases cs.len() - i,
    {
        let ghost rest = cs@.skip(i as int);
        let ghost body = seq![opening] + corrected(done, open@, c);
        proof {
            lemma_sgr_len_bounds(rest);
        }
        let ghost t: TokenView;
        let n: usize;
        match scan_sgr(&cs, i) {
            Some((len, ps)) => {
                n = len;
                push_range(&mut out, &cs, i, i + n);
                proof {
                    t = TokenView::Sgr(cs@.subrange(i as int, i + n));
                    assert(rest.take(n as int) =~= cs@.subrange(i as int, i + n));
                }
                let (ch, reset) = params_effect_of(&ps, c);
                let clears = match ch {
                    Change::Clear => true,
                    _ => false,
                };
                if reset || clears {
                    out.append(open);
                    at_open = true;
                    proof {
                        let b1 = body.push(t);
                        lemma_slot_push(body, t, c);
                        lemma_slot_push(b1, opening, c);
                        assert(body + restore_after(t, open@, c) =~= b1.push(opening));
                    }
                } else {
                    match ch {
                        Change::Assign(a, b) => {
                            at_open = same_values(&ps, a, b, &ops, oa, ob);
                        },
                        _ => {},
                    }
                    proof {
                        lemma_slot_push(body, t, c);
                        assert(body + restore_after(t, open@, c) =~= body.push(t));
                    }
                }
                proof {
                    let tail = restore_after(t, open@, c);
                    lemma_serialize_concat(body, tail);
                    if needs_restore(t, c) {
                        lemma_serialize_concat(seq![t], seq![opening]);
                        lemma_serialize_one(t);
                        lemma_serialize_one(opening);
                        assert(seq![t] + seq![opening] =~= tail);
                    } else {
                        lemma_serialize_one(t);
                    }
                }
            },
            None => {
                n = 1;
                out.push(cs[i]);
                proof {
                    t = TokenView::Text(cs@.subrange(i as int, i + 1));
                    assert(rest.take(1) =~= cs@.subrange(i as int, i + 1));
                    lemma_slot_push(body, t, c);
                    assert(body + restore_after(t, open@, c) =~= body.push(t));
                    lemma_serialize_concat(body, seq![t]);
                    lemma_serialize_one(t);
                    assert(cs@.subrange(i as int, i + 1) =~= seq![cs@[i as int]]);
                }
            },
        }
        proof {
            assert(rest.skip(n as int) =~= cs@.skip(i + n));
            assert(parse(rest) == seq![t] + parse(cs@.skip(i + n)));
            lemma_corrected_push(done, t, open@, c);
            assert(done + parse(rest) =~= done.push(t) + parse(cs@.skip(i + n)));
            assert(seq![opening] + corrected(done.push(t), open@, c) =~= body + restore_after(
                t,
                open@,
                c,
            ));
            done = done.push(t);
        }
        i = i + n;
    }
    let ghost body = seq![opening] + corrected(done, open@, c);
    proof {
        assert(cs@.skip(i as int) =~= Seq::<char>::empty());
        assert(done + Seq::<TokenView>::empty() =~= done);
        assert(body == wrap_body(content@, open@));
    }
    let ghost closing = TokenView::Sgr(close@);
    if !at_open {
        out.append(open);
        proof {
            lemma_serialize_concat(body, seq![opening, closing]);
            lemma_serialize_concat(seq![opening], seq![closing]);
            lemma_serialize_one(opening);
            lemma_serialize_one(closing);
            assert(seq![opening] + seq![closing] =~= seq![opening, closing]);
        }
    } else {
        proof {
            lemma_serialize_concat(body, seq![closing]);
            lemma_serialize_one(closing);
            assert(body.push(closing) =~= body + seq![closing]);
        }
    }
    out.append(close);
    proof {
        if at_open {
            assert(wrapped(content@, open@, close@) == body.push(closing));
        } else {
            assert(wrapped(content@, open@, close@) == body + seq![opening, closing]);
        }
        assert(out@ =~= safe_wrap_text(content@, open@, close@));
    }
    out
}

} // verus!
