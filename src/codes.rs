//! The SGR code table: every supported parameter value is placed in a
//! category of mutually exclusive attributes, together with the code that
//! switches that category back off.

use vstd::prelude::*;

verus! {

/// A group of SGR codes that exclude each other at render time.
///
/// `Foreground` and `Background` hold every colour form alike: the basic
/// and bright 16 colours, the 256-colour palette and 24-bit RGB all occupy
/// the same slot of the terminal's state.
#[derive(Clone, Copy, Debug, PartialEq, Eq, Structural)]
pub enum Category {
    Weight,
    Italic,
    Underline,
    Blink,
    Inverse,
    Conceal,
    Strike,
    Foreground,
    Background,
    ResetAll,
    Unknown,
}

/// Reset every attribute.
pub const RESET: u32 = 0;
pub const BOLD: u32 = 1;
pub const FAINT: u32 = 2;
pub const ITALIC: u32 = 3;
pub const UNDERLINE: u32 = 4;
pub const BLINK: u32 = 5;
pub const BLINK_FAST: u32 = 6;
pub const INVERSE: u32 = 7;
pub const CONCEAL: u32 = 8;
pub const STRIKETHROUGH: u32 = 9;
pub const DOUBLE_UNDERLINE: u32 = 21;
pub const CANCEL_WEIGHT: u32 = 22;
pub const CANCEL_ITALIC: u32 = 23;
pub const CANCEL_UNDERLINE: u32 = 24;
pub const CANCEL_BLINK: u32 = 25;
pub const CANCEL_INVERSE: u32 = 27;
pub const CANCEL_CONCEAL: u32 = 28;
pub const CANCEL_STRIKE: u32 = 29;
/// First of the eight basic foreground colours (black).
pub const FG_BASE: u32 = 30;
/// Introduces an extended foreground colour (`38;5;n` or `38;2;r;g;b`).
pub const FG_EXTENDED: u32 = 38;
pub const CANCEL_FG: u32 = 39;
/// First of the eight basic background colours (black).
pub const BG_BASE: u32 = 40;
/// Introduces an extended background colour (`48;5;n` or `48;2;r;g;b`).
pub const BG_EXTENDED: u32 = 48;
pub const CANCEL_BG: u32 = 49;
/// First of the eight bright foreground colours.
pub const FG_BRIGHT_BASE: u32 = 90;
/// First of the eight bright background colours.
pub const BG_BRIGHT_BASE: u32 = 100;
pub const FG_BLACK: u32 = 30;
pub const FG_RED: u32 = 31;
pub const FG_GREEN: u32 = 32;
pub const FG_YELLOW: u32 = 33;
pub const FG_BLUE: u32 = 34;
pub const FG_MAGENTA: u32 = 35;
pub const FG_CYAN: u32 = 36;
pub const FG_WHITE: u32 = 37;
pub const FG_BRIGHT_BLACK: u32 = 90;
pub const FG_BRIGHT_RED: u32 = 91;
pub const FG_BRIGHT_GREEN: u32 = 92;
pub const FG_BRIGHT_YELLOW: u32 = 93;
pub const FG_BRIGHT_BLUE: u32 = 94;
pub const FG_BRIGHT_MAGENTA: u32 = 95;
pub const FG_BRIGHT_CYAN: u32 = 96;
pub const FG_BRIGHT_WHITE: u32 = 97;
pub const BG_BLACK: u32 = 40;
pub const BG_RED: u32 = 41;
pub const BG_GREEN: u32 = 42;
pub const BG_YELLOW: u32 = 43;
pub const BG_BLUE: u32 = 44;
pub const BG_MAGENTA: u32 = 45;
pub const BG_CYAN: u32 = 46;
pub const BG_WHITE: u32 = 47;
pub const BG_BRIGHT_BLACK: u32 = 100;
pub const BG_BRIGHT_RED: u32 = 101;
pub const BG_BRIGHT_GREEN: u32 = 102;
pub const BG_BRIGHT_YELLOW: u32 = 103;
pub const BG_BRIGHT_BLUE: u32 = 104;
pub const BG_BRIGHT_MAGENTA: u32 = 105;
pub const BG_BRIGHT_CYAN: u32 = 106;
pub const BG_BRIGHT_WHITE: u32 = 107;
/// Second parameter of an extended colour that selects the 256-colour palette.
pub const PALETTE_MODE: u32 = 5;
/// Second parameter of an extended colour that selects 24-bit RGB.
pub const RGB_MODE: u32 = 2;

/// The category of a single SGR parameter value.
///
/// `38` and `48` are not complete codes on their own: only together with
/// their palette or RGB arguments do they form a colour (see the token
/// model), so alone they are `Unknown`.
pub open spec fn category_of(code: u32) -> Category {
    if code == 0 {
        Category::ResetAll
    } else if code == 1 || code == 2 || code == 22 {
        Category::Weight
    } else if code == 3 || code == 23 {
        Category::Italic
    } else if code == 4 || code == 21 || code == 24 {
        Category::Underline
    } else if code == 5 || code == 6 || code == 25 {
        Category::Blink
    } else if code == 7 || code == 27 {
        Category::Inverse
    } else if code == 8 || code == 28 {
        Category::Conceal
    } else if code == 9 || code == 29 {
        Category::Strike
    } else if (30 <= code <= 37) || (90 <= code <= 97) || code == 39 {
        Category::Foreground
    } else if (40 <= code <= 47) || (100 <= code <= 107) || code == 49 {
        Category::Background
    } else {
        Category::Unknown
    }
}

/// The code that switches category `c` back off; `0` for `ResetAll`,
/// and none for `Unknown`, which is never cancelled.
pub open spec fn cancel_code(c: Category) -> Option<u32> {
    match c {
        Category::Weight => Some(22),
        Category::Italic => Some(23),
        Category::Underline => Some(24),
        Category::Blink => Some(25),
        Category::Inverse => Some(27),
        Category::Conceal => Some(28),
        Category::Strike => Some(29),
        Category::Foreground => Some(39),
        Category::Background => Some(49),
        Category::ResetAll => Some(0),
        Category::Unknown => None,
    }
}

/// Whether `code` turns its category off rather than on.
pub open spec fn is_cancel_code(code: u32) -> bool {
    cancel_code(category_of(code)) == Some(code)
}

/// A category that a wrap can apply: neither the universal reset nor
/// an unrecognised code.
pub open spec fn is_style_category(c: Category) -> bool {
    c != Category::ResetAll && c != Category::Unknown
}

/// Classify one SGR parameter: its category, and whether it is the
/// category's cancel code.
pub fn classify(code: u32) -> (r: (Category, bool))
    ensures
        r.0 == category_of(code),
        r.1 == is_cancel_code(code),
{
    let c = if code == RESET {
        Category::ResetAll
    } else if code == BOLD || code == FAINT || code == CANCEL_WEIGHT {
        Category::Weight
    } else if code == ITALIC || code == CANCEL_ITALIC {
        Category::Italic
    } else if code == UNDERLINE || code == DOUBLE_UNDERLINE || code == CANCEL_UNDERLINE {
        Category::Underline
    } else if code == BLINK || code == BLINK_FAST || code == CANCEL_BLINK {
        Category::Blink
    } else if code == INVERSE || code == CANCEL_INVERSE {
        Category::Inverse
    } else if code == CONCEAL || code == CANCEL_CONCEAL {
        Category::Conceal
    } else if code == STRIKETHROUGH || code == CANCEL_STRIKE {
        Category::Strike
    } else if (FG_BASE <= code && code <= FG_BASE + 7) || (FG_BRIGHT_BASE <= code && code
        <= FG_BRIGHT_BASE + 7) || code == CANCEL_FG {
        Category::Foreground
    } else if (BG_BASE <= code && code <= BG_BASE + 7) || (BG_BRIGHT_BASE <= code && code
        <= BG_BRIGHT_BASE + 7) || code == CANCEL_BG {
        Category::Background
    } else {
        Category::Unknown
    };
    let cancel = match cancel_for(c) {
        Some(k) => k == code,
        None => false,
    };
    (c, cancel)
}

/// The code that switches category `c` back off (`None` for `Unknown`).
pub fn cancel_for(c: Category) -> (r: Option<u32>)
    ensures
        r == cancel_code(c),
{
    match c {
        Category::Weight => Some(CANCEL_WEIGHT),
        Category::Italic => Some(CANCEL_ITALIC),
        Category::Underline => Some(CANCEL_UNDERLINE),
        Category::Blink => Some(CANCEL_BLINK),
        Category::Inverse => Some(CANCEL_INVERSE),
        Category::Conceal => Some(CANCEL_CONCEAL),
        Category::Strike => Some(CANCEL_STRIKE),
        Category::Foreground => Some(CANCEL_FG),
        Category::Background => Some(CANCEL_BG),
        Category::ResetAll => Some(RESET),
        Category::Unknown => None,
    }
}

/// The cancel code of every category belongs to that category and is
/// recognised as its cancel code.
pub proof fn lemma_cancel_round_trip(c: Category)
    requires
        c != Category::Unknown,
    ensures
        category_of(cancel_code(c)->0) == c,
        is_cancel_code(cancel_code(c)->0),
{
}

} // verus!
