//! Attribute state: what each SGR sequence does to each category, and the
//! value of a category after a left-to-right replay of a token sequence.

use vstd::prelude::*;

use crate::codes::{category_of, classify, is_cancel_code, Category, BG_EXTENDED, FG_EXTENDED, PALETTE_MODE, RGB_MODE};
use crate::token::{token_params, TokenView};

verus! {

/// Largest value of a palette index or of an RGB channel.
pub const CHANNEL_MAX: u32 = 255;

/// How many parameters the logical code at the start of `ps` takes:
/// `38;5;n` and `48;5;n` take three, `38;2;r;g;b` and `48;2;r;g;b` five,
/// any other code one. A `38` or `48` that is not followed by a well-formed
/// palette or RGB tail takes the rest of the sequence, as one unknown code.
pub open spec fn unit_len(ps: Seq<u32>) -> nat {
    if ps.len() > 0 && (ps[0] == 38 || ps[0] == 48) {
        if ps.len() >= 3 && ps[1] == 5 && ps[2] <= 255 {
            3
        } else if ps.len() >= 5 && ps[1] == 2 && ps[2] <= 255 && ps[3] <= 255 && ps[4] <= 255 {
            5
        } else {
            ps.len()
        }
    } else {
        1
    }
}

/// A complete palette or RGB colour: `x;5;n` or `x;2;r;g;b`.
pub open spec fn extended_ok(u: Seq<u32>) -> bool {
    ||| (u.len() == 3 && u[1] == 5 && u[2] <= 255)
    ||| (u.len() == 5 && u[1] == 2 && u[2] <= 255 && u[3] <= 255 && u[4] <= 255)
}

/// The category of one logical code.
pub open spec fn unit_category(u: Seq<u32>) -> Category {
    if u.len() == 1 {
        category_of(u[0])
    } else if u.len() > 1 && extended_ok(u) && u[0] == 38 {
        Category::Foreground
    } else if u.len() > 1 && extended_ok(u) && u[0] == 48 {
        Category::Background
    } else {
        Category::Unknown
    }
}

/// Whether one logical code is the cancel code of its category.
pub open spec fn unit_cancels(u: Seq<u32>) -> bool {
    u.len() == 1 && is_cancel_code(u[0])
}

/// What a code, or a sequence of codes, does to one category.
pub enum Effect {
    /// Leaves it as it was.
    Keep,
    /// Switches it off.
    Clear,
    /// Sets it to the given code.
    Assign(Seq<u32>),
}

/// What one logical code does to category `c`.
pub open spec fn unit_effect(u: Seq<u32>, c: Category) -> Effect {
    let k = unit_category(u);
    if k == Category::ResetAll {
        Effect::Clear
    } else if k == c && k != Category::Unknown {
        if unit_cancels(u) {
            Effect::Clear
        } else {
            Effect::Assign(u)
        }
    } else {
        Effect::Keep
    }
}

/// `first`, then `second`: the later effect wins unless it keeps.
pub open spec fn then_effect(first: Effect, second: Effect) -> Effect {
    if second is Keep {
        first
    } else {
        second
    }
}

/// What the parameter list `ps`, read code by code, does to category `c`.
pub open spec fn params_effect(ps: Seq<u32>, c: Category) -> Effect
    decreases ps.len(),
{
    if ps.len() == 0 {
        Effect::Keep
    } else {
        let n = unit_len(ps) as int;
        then_effect(unit_effect(ps.take(n), c), params_effect(ps.skip(n), c))
    }
}

/// Whether the parameter list `ps` holds a reset of every attribute.
pub open spec fn params_reset(ps: Seq<u32>) -> bool
    decreases ps.len(),
{
    if ps.len() == 0 {
        false
    } else {
        let n = unit_len(ps) as int;
        unit_category(ps.take(n)) == Category::ResetAll || params_reset(ps.skip(n))
    }
}

/// What a token does to category `c`.
pub open spec fn token_effect(t: TokenView, c: Category) -> Effect {
    match t {
        TokenView::Text(_) => Effect::Keep,
        TokenView::Sgr(x) => params_effect(token_params(x), c),
    }
}

/// Whether a token resets every attribute.
pub open spec fn token_resets(t: TokenView) -> bool {
    match t {
        TokenView::Text(_) => false,
        TokenView::Sgr(x) => params_reset(token_params(x)),
    }
}

/// The value of a category after an effect: `None` when it is off.
pub open spec fn apply_effect(st: Option<Seq<u32>>, e: Effect) -> Option<Seq<u32>> {
    match e {
        Effect::Keep => st,
        Effect::Clear => None,
        Effect::Assign(u) => Some(u),
    }
}

/// The value of category `c` after replaying `ts` from a state where
/// everything is off.
pub open spec fn slot(ts: Seq<TokenView>, c: Category) -> Option<Seq<u32>>
    decreases ts.len(),
{
    if ts.len() == 0 {
        None
    } else {
        apply_effect(slot(ts.drop_last(), c), token_effect(ts.last(), c))
    }
}

/// Replaying `a + b` is replaying `b` after `a`.
pub proof fn lemma_slot_push(ts: Seq<TokenView>, t: TokenView, c: Category)
    ensures
        slot(ts.push(t), c) == apply_effect(slot(ts, c), token_effect(t, c)),
{
    assert(ts.push(t).drop_last() =~= ts);
}

/// What a computed effect stands for: indices `a..b` into the parameters
/// for an `Assign`.
pub enum Change {
    Keep,
    Clear,
    Assign(usize, usize),
}

pub open spec fn change_is(ch: Change, ps: Seq<u32>, e: Effect) -> bool {
    match ch {
        Change::Keep => e is Keep,
        Change::Clear => e is Clear,
        Change::Assign(a, b) => a <= b <= ps.len() && e == Effect::Assign(ps.subrange(a as int, b as int)),
    }
}

/// The number of parameters that the logical code at index `i` takes.
pub fn unit_len_at(ps: &Vec<u32>, i: usize) -> (n: usize)
    requires
        i < ps@.len(),
    ensures
        n == unit_len(ps@.skip(i as int)),
        1 <= n <= ps@.len() - i,
{
    let rest = ps.len() - i;
    let first = ps[i];
    if first == FG_EXTENDED || first == BG_EXTENDED {
        if rest >= 3 && ps[i + 1] == PALETTE_MODE && ps[i + 2] <= CHANNEL_MAX {
            3
        } else if rest >= 5 && ps[i + 1] == RGB_MODE && ps[i + 2] <= CHANNEL_MAX && ps[i + 3]
            <= CHANNEL_MAX && ps[i + 4] <= CHANNEL_MAX {
            5
        } else {
            rest
        }
    } else {
        1
    }
}

/// The category of the logical code `ps[a..b]`, and whether it cancels.
pub fn unit_kind(ps: &Vec<u32>, a: usize, b: usize) -> (r: (Category, bool))
    requires
        a < b <= ps@.len(),
    ensures
        r.0 == unit_category(ps@.subrange(a as int, b as int)),
        r.1 == unit_cancels(ps@.subrange(a as int, b as int)),
{
    let ghost u = ps@.subrange(a as int, b as int);
    if b - a == 1 {
        classify(ps[a])
    } else {
        let palette = b - a == 3 && ps[a + 1] == PALETTE_MODE && ps[a + 2] <= CHANNEL_MAX;
        let rgb = b - a == 5 && ps[a + 1] == RGB_MODE && ps[a + 2] <= CHANNEL_MAX && ps[a + 3]
            <= CHANNEL_MAX && ps[a + 4] <= CHANNEL_MAX;
        assert((palette || rgb) == extended_ok(u));
        if (palette || rgb) && ps[a] == FG_EXTENDED {
            (Category::Foreground, false)
        } else if (palette || rgb) && ps[a] == BG_EXTENDED {
            (Category::Background, false)
        } else {
            (Category::Unknown, false)
        }
    }
}

/// What the parameters `ps` do to category `c`, and whether they reset
/// every attribute.
pub fn params_effect_of(ps: &Vec<u32>, c: Category) -> (r: (Change, bool))
    ensures
        change_is(r.0, ps@, params_effect(ps@, c)),
        r.1 == params_reset(ps@),
{
    let mut cur = Change::Keep;
    let mut reset = false;
    let mut i: usize = 0;
    let ghost cur_e = Effect::Keep;
    assert(ps@.skip(0) =~= ps@);
    while i < ps.len()
        invariant
            i <= ps@.len(),
            change_is(cur, ps@, cur_e),
            params_effect(ps@, c) == then_effect(cur_e, params_effect(ps@.skip(i as int), c)),
            params_reset(ps@) == (reset || params_reset(ps@.skip(i as int))),
        decreases ps.len() - i,
    {
        let n = unit_len_at(ps, i);
        let (k, cancels) = unit_kind(ps, i, i + n);
        let ghost rest = ps@.skip(i as int);
        let ghost u = ps@.subrange(i as int, i + n);
        proof {
            assert(rest.take(n as int) =~= u);
            assert(rest.skip(n as int) =~= ps@.skip(i + n));
        }
        if k == Category::ResetAll {
            cur = Change::Clear;
            reset = true;
            proof {
                cur_e = Effect::Clear;
            }
        } else if k == c && k != Category::Unknown {
            if cancels {
                cur = Change::Clear;
                proof {
                    cur_e = Effect::Clear;
                }
            } else {
                cur = Change::Assign(i, i + n);
                proof {
                    cur_e = Effect::Assign(u);
                }
            }
        }
        i = i + n;
    }
    proof {
        assert(ps@.skip(i as int).len() == 0);
    }
    (cur, reset)
}

} // verus!
