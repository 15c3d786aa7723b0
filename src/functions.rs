//! The plain decorations as free functions, for use as colourisers.
//! Like the methods they call, they do not look inside the text.

use vstd::prelude::*;

use crate::codes::{
    BLINK, BLINK_FAST, BOLD, CANCEL_BG, CANCEL_BLINK, CANCEL_CONCEAL, CANCEL_FG, CANCEL_INVERSE,
    CANCEL_ITALIC, CANCEL_STRIKE, CANCEL_UNDERLINE, CANCEL_WEIGHT, CONCEAL, FAINT, INVERSE,
    ITALIC, STRIKETHROUGH, UNDERLINE, FG_BLACK, FG_RED, FG_GREEN, FG_YELLOW, FG_BLUE, FG_MAGENTA, FG_CYAN, FG_WHITE, FG_BRIGHT_BLACK, FG_BRIGHT_RED, FG_BRIGHT_GREEN, FG_BRIGHT_YELLOW, FG_BRIGHT_BLUE, FG_BRIGHT_MAGENTA, FG_BRIGHT_CYAN, FG_BRIGHT_WHITE, BG_BLACK, BG_RED, BG_GREEN, BG_YELLOW, BG_BLUE, BG_MAGENTA, BG_CYAN, BG_WHITE, BG_BRIGHT_BLACK, BG_BRIGHT_RED, BG_BRIGHT_GREEN, BG_BRIGHT_YELLOW, BG_BRIGHT_BLUE, BG_BRIGHT_MAGENTA, BG_BRIGHT_CYAN, BG_BRIGHT_WHITE,
};
use crate::decorate::{SimpleBackground, SimpleForeground, SimpleStyle, SimpleStyleAlias};
use crate::escape::decorated;

verus! {

/// Bold; also known as [simple_heavy].
pub fn simple_bold(raw: &str) -> (r: String)
    ensures
        r@ == decorated(raw@, BOLD, CANCEL_WEIGHT),
{
    raw.simple_bold()
}

/// Faint; also known as [simple_dim].
pub fn simple_faint(raw: &str) -> (r: String)
    ensures
        r@ == decorated(raw@, FAINT, CANCEL_WEIGHT),
{
    raw.simple_faint()
}

/// Italic; also known as [oblique].
pub fn italic(raw: &str) -> (r: String)
    ensures
        r@ == decorated(raw@, ITALIC, CANCEL_ITALIC),
{
    raw.italic()
}

/// Underline.
pub fn simple_underline(raw: &str) -> (r: String)
    ensures
        r@ == decorated(raw@, UNDERLINE, CANCEL_UNDERLINE),
{
    raw.simple_underline()
}

/// Slow blink.
pub fn simple_blink(raw: &str) -> (r: String)
    ensures
        r@ == decorated(raw@, BLINK, CANCEL_BLINK),
{
    raw.simple_blink()
}

/// Fast blink.
pub fn simple_blink_fast(raw: &str) -> (r: String)
    ensures
        r@ == decorated(raw@, BLINK_FAST, CANCEL_BLINK),
{
    raw.simple_blink_fast()
}

/// Swapped foreground and background; also known as [negative].
pub fn inverse(raw: &str) -> (r: String)
    ensures
        r@ == decorated(raw@, INVERSE, CANCEL_INVERSE),
{
    raw.inverse()
}

/// Hidden text; also known as [hidden].
pub fn conceal(raw: &str) -> (r: String)
    ensures
        r@ == decorated(raw@, CONCEAL, CANCEL_CONCEAL),
{
    raw.conceal()
}

/// Struck through; also known as [delete_line].
pub fn strikethrough(raw: &str) -> (r: String)
    ensures
        r@ == decorated(raw@, STRIKETHROUGH, CANCEL_STRIKE),
{
    raw.strikethrough()
}

/// Same as [simple_bold].
pub fn simple_heavy(raw: &str) -> (r: String)
    ensures
        r@ == decorated(raw@, BOLD, CANCEL_WEIGHT),
{
    raw.simple_bold()
}

/// Same as [simple_faint].
pub fn simple_dim(raw: &str) -> (r: String)
    ensures
        r@ == decorated(raw@, FAINT, CANCEL_WEIGHT),
{
    raw.simple_dim()
}

/// Same as [italic].
pub fn oblique(raw: &str) -> (r: String)
    ensures
        r@ == decorated(raw@, ITALIC, CANCEL_ITALIC),
{
    raw.oblique()
}

/// Same as [inverse].
pub fn negative(raw: &str) -> (r: String)
    ensures
        r@ == decorated(raw@, INVERSE, CANCEL_INVERSE),
{
    raw.negative()
}

/// Same as [conceal].
pub fn hidden(raw: &str) -> (r: String)
    ensures
        r@ == decorated(raw@, CONCEAL, CANCEL_CONCEAL),
{
    raw.hidden()
}

/// Same as [strikethrough].
pub fn delete_line(raw: &str) -> (r: String)
    ensures
        r@ == decorated(raw@, STRIKETHROUGH, CANCEL_STRIKE),
{
    raw.delete_line()
}

/// Foreground black.
pub fn simple_black(raw: &str) -> (r: String)
    ensures
        r@ == decorated(raw@, FG_BLACK, CANCEL_FG),
{
    raw.simple_black()
}

/// Foreground red.
pub fn simple_red(raw: &str) -> (r: String)
    ensures
        r@ == decorated(raw@, FG_RED, CANCEL_FG),
{
    raw.simple_red()
}

/// Foreground green.
pub fn simple_green(raw: &str) -> (r: String)
    ensures
        r@ == decorated(raw@, FG_GREEN, CANCEL_FG),
{
    raw.simple_green()
}

/// Foreground yellow.
pub fn simple_yellow(raw: &str) -> (r: String)
    ensures
        r@ == decorated(raw@, FG_YELLOW, CANCEL_FG),
{
    raw.simple_yellow()
}

/// Foreground blue.
pub fn simple_blue(raw: &str) -> (r: String)
    ensures
        r@ == decorated(raw@, FG_BLUE, CANCEL_FG),
{
    raw.simple_blue()
}

/// Foreground magenta.
pub fn simple_magenta(raw: &str) -> (r: String)
    ensures
        r@ == decorated(raw@, FG_MAGENTA, CANCEL_FG),
{
    raw.simple_magenta()
}

/// Foreground cyan.
pub fn simple_cyan(raw: &str) -> (r: String)
    ensures
        r@ == decorated(raw@, FG_CYAN, CANCEL_FG),
{
    raw.simple_cyan()
}

/// Foreground white.
pub fn simple_white(raw: &str) -> (r: String)
    ensures
        r@ == decorated(raw@, FG_WHITE, CANCEL_FG),
{
    raw.simple_white()
}

/// Bright foreground black.
pub fn simple_hi_black(raw: &str) -> (r: String)
    ensures
        r@ == decorated(raw@, FG_BRIGHT_BLACK, CANCEL_FG),
{
    raw.simple_hi_black()
}

/// Bright foreground red.
pub fn simple_hi_red(raw: &str) -> (r: String)
    ensures
        r@ == decorated(raw@, FG_BRIGHT_RED, CANCEL_FG),
{
    raw.simple_hi_red()
}

/// Bright foreground green.
pub fn simple_hi_green(raw: &str) -> (r: String)
    ensures
        r@ == decorated(raw@, FG_BRIGHT_GREEN, CANCEL_FG),
{
    raw.simple_hi_green()
}

/// Bright foreground yellow.
pub fn simple_hi_yellow(raw: &str) -> (r: String)
    ensures
        r@ == decorated(raw@, FG_BRIGHT_YELLOW, CANCEL_FG),
{
    raw.simple_hi_yellow()
}

/// Bright foreground blue.
pub fn simple_hi_blue(raw: &str) -> (r: String)
    ensures
        r@ == decorated(raw@, FG_BRIGHT_BLUE, CANCEL_FG),
{
    raw.simple_hi_blue()
}

/// Bright foreground magenta.
pub fn simple_hi_magenta(raw: &str) -> (r: String)
    ensures
        r@ == decorated(raw@, FG_BRIGHT_MAGENTA, CANCEL_FG),
{
    raw.simple_hi_magenta()
}

/// Bright foreground cyan.
pub fn simple_hi_cyan(raw: &str) -> (r: String)
    ensures
        r@ == decorated(raw@, FG_BRIGHT_CYAN, CANCEL_FG),
{
    raw.simple_hi_cyan()
}

/// Bright foreground white.
pub fn simple_hi_white(raw: &str) -> (r: String)
    ensures
        r@ == decorated(raw@, FG_BRIGHT_WHITE, CANCEL_FG),
{
    raw.simple_hi_white()
}

/// Background black.
pub fn simple_bg_black(raw: &str) -> (r: String)
    ensures
        r@ == decorated(raw@, BG_BLACK, CANCEL_BG),
{
    raw.simple_bg_black()
}

/// Background red.
pub fn simple_bg_red(raw: &str) -> (r: String)
    ensures
        r@ == decorated(raw@, BG_RED, CANCEL_BG),
{
    raw.simple_bg_red()
}

/// Background green.
pub fn simple_bg_green(raw: &str) -> (r: String)
    ensures
        r@ == decorated(raw@, BG_GREEN, CANCEL_BG),
{
    raw.simple_bg_green()
}

/// Background yellow.
pub fn simple_bg_yellow(raw: &str) -> (r: String)
    ensures
        r@ == decorated(raw@, BG_YELLOW, CANCEL_BG),
{
    raw.simple_bg_yellow()
}

/// Background blue.
pub fn simple_bg_blue(raw: &str) -> (r: String)
    ensures
        r@ == decorated(raw@, BG_BLUE, CANCEL_BG),
{
    raw.simple_bg_blue()
}

/// Background magenta.
pub fn simple_bg_magenta(raw: &str) -> (r: String)
    ensures
        r@ == decorated(raw@, BG_MAGENTA, CANCEL_BG),
{
    raw.simple_bg_magenta()
}

/// Background cyan.
pub fn simple_bg_cyan(raw: &str) -> (r: String)
    ensures
        r@ == decorated(raw@, BG_CYAN, CANCEL_BG),
{
    raw.simple_bg_cyan()
}

/// Background white.
pub fn simple_bg_white(raw: &str) -> (r: String)
    ensures
        r@ == decorated(raw@, BG_WHITE, CANCEL_BG),
{
    raw.simple_bg_white()
}

/// Bright background black.
pub fn simple_bg_hi_black(raw: &str) -> (r: String)
    ensures
        r@ == decorated(raw@, BG_BRIGHT_BLACK, CANCEL_BG),
{
    raw.simple_bg_hi_black()
}

/// Bright background red.
pub fn simple_bg_hi_red(raw: &str) -> (r: String)
    ensures
        r@ == decorated(raw@, BG_BRIGHT_RED, CANCEL_BG),
{
    raw.simple_bg_hi_red()
}

/// Bright background green.
pub fn simple_bg_hi_green(raw: &str) -> (r: String)
    ensures
        r@ == decorated(raw@, BG_BRIGHT_GREEN, CANCEL_BG),
{
    raw.simple_bg_hi_green()
}

/// Bright background yellow.
pub fn simple_bg_hi_yellow(raw: &str) -> (r: String)
    ensures
        r@ == decorated(raw@, BG_BRIGHT_YELLOW, CANCEL_BG),
{
    raw.simple_bg_hi_yellow()
}

/// Bright background blue.
pub fn simple_bg_hi_blue(raw: &str) -> (r: String)
    ensures
        r@ == decorated(raw@, BG_BRIGHT_BLUE, CANCEL_BG),
{
    raw.simple_bg_hi_blue()
}

/// Bright background magenta.
pub fn simple_bg_hi_magenta(raw: &str) -> (r: String)
    ensures
        r@ == decorated(raw@, BG_BRIGHT_MAGENTA, CANCEL_BG),
{
    raw.simple_bg_hi_magenta()
}

/// Bright background cyan.
pub fn simple_bg_hi_cyan(raw: &str) -> (r: String)
    ensures
        r@ == decorated(raw@, BG_BRIGHT_CYAN, CANCEL_BG),
{
    raw.simple_bg_hi_cyan()
}

/// Bright background white.
pub fn simple_bg_hi_white(raw: &str) -> (r: String)
    ensures
        r@ == decorated(raw@, BG_BRIGHT_WHITE, CANCEL_BG),
{
    raw.simple_bg_hi_white()
}

} // verus!
