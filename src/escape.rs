//! Building SGR escape sequences: `ESC [ p1 ; p2 ; ... ; pn m`.

use vstd::prelude::*;

verus! {

/// Relies on `String::push`: the character is appended at the end.
pub assume_specification[ std::string::String::push ](s: &mut std::string::String, ch: char)
    ensures
        final(s)@ == old(s)@.push(ch),
;

/// The escape character that introduces every sequence.
pub const ESC: char = '\x1b';

/// The character of decimal digit `d` (for `d < 10`).
pub open spec fn digit_char(d: nat) -> char {
    if d == 0 {
        '0'
    } else if d == 1 {
        '1'
    } else if d == 2 {
        '2'
    } else if d == 3 {
        '3'
    } else if d == 4 {
        '4'
    } else if d == 5 {
        '5'
    } else if d == 6 {
        '6'
    } else if d == 7 {
        '7'
    } else if d == 8 {
        '8'
    } else {
        '9'
    }
}

/// The decimal text of `n`, without leading zeros.
pub open spec fn decimal_text(n: nat) -> Seq<char>
    decreases n,
{
    if n < 10 {
        seq![digit_char(n)]
    } else {
        decimal_text(n / 10).push(digit_char(n % 10))
    }
}

/// The parameters in decimal, separated by `;`.
pub open spec fn joined_params(ps: Seq<u32>) -> Seq<char>
    decreases ps.len(),
{
    if ps.len() == 0 {
        seq![]
    } else if ps.len() == 1 {
        decimal_text(ps[0] as nat)
    } else {
        joined_params(ps.drop_last()).push(';') + decimal_text(ps.last() as nat)
    }
}

/// The escape sequence that sets the parameters `ps`.
pub open spec fn sgr_text(ps: Seq<u32>) -> Seq<char> {
    seq![ESC, '['] + joined_params(ps) + seq!['m']
}

fn digit_of(d: u32) -> (c: char)
    requires
        d < 10,
    ensures
        c == digit_char(d as nat),
{
    if d == 0 {
        '0'
    } else if d == 1 {
        '1'
    } else if d == 2 {
        '2'
    } else if d == 3 {
        '3'
    } else if d == 4 {
        '4'
    } else if d == 5 {
        '5'
    } else if d == 6 {
        '6'
    } else if d == 7 {
        '7'
    } else if d == 8 {
        '8'
    } else {
        '9'
    }
}

/// Append the decimal text of `n`.
pub fn push_decimal(out: &mut String, n: u32)
    ensures
        final(out)@ == old(out)@ + decimal_text(n as nat),
    decreases n,
{
    if n >= 10 {
        push_decimal(out, n / 10);
    }
    out.push(digit_of(n % 10));
    assert(final(out)@ =~= old(out)@ + decimal_text(n as nat));
}

/// The escape sequence with the given parameters, e.g. `[38, 5, 123]`
/// gives `"\x1b[38;5;123m"`.
pub fn escape(params: &[u32]) -> (r: String)
    ensures
        r@ == sgr_text(params@),
{
    let mut out = String::new();
    out.push(ESC);
    out.push('[');
    let mut i: usize = 0;
    while i < params.len()
        invariant
            i <= params@.len(),
            out@ == seq![ESC, '['] + joined_params(params@.take(i as int)),
        decreases params.len() - i,
    {
        if i > 0 {
            out.push(';');
        }
        push_decimal(&mut out, params[i]);
        proof {
            let t = params@.take(i + 1);
            assert(t.drop_last() =~= params@.take(i as int));
        }
        i = i + 1;
        assert(out@ =~= seq![ESC, '['] + joined_params(params@.take(i as int)));
    }
    out.push('m');
    assert(params@.take(i as int) =~= params@);
    assert(out@ =~= sgr_text(params@));
    out
}


/// The escape sequence of the single code `code`.
pub fn code_text(code: u32) -> (r: String)
    ensures
        r@ == sgr_text(seq![code]),
{
    let mut out = String::new();
    out.push(ESC);
    out.push('[');
    push_decimal(&mut out, code);
    out.push('m');
    assert(out@ =~= sgr_text(seq![code]));
    out
}

/// `raw` between the escape sequences of the codes `open` and `close`.
pub open spec fn decorated(raw: Seq<char>, open: u32, close: u32) -> Seq<char> {
    sgr_text(seq![open]) + raw + sgr_text(seq![close])
}

} // verus!
