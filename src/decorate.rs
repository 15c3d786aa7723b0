//! Plain decoration: put an escape sequence before a text and its cancel
//! code after it, without looking inside the text. Fast, but an inner reset
//! or an inner code of the same category can spoil the result; the
//! composition engine (`compose`) is the safe alternative.

use vstd::prelude::*;
use vstd::string::StringExecFns;

use crate::codes::{
    BLINK, BLINK_FAST, BOLD, CANCEL_BG, CANCEL_BLINK, CANCEL_CONCEAL, CANCEL_FG, CANCEL_INVERSE,
    CANCEL_ITALIC, CANCEL_STRIKE, CANCEL_UNDERLINE, CANCEL_WEIGHT, CONCEAL, DOUBLE_UNDERLINE,
    FAINT, INVERSE, ITALIC, STRIKETHROUGH, UNDERLINE, FG_BLACK, FG_RED, FG_GREEN, FG_YELLOW, FG_BLUE, FG_MAGENTA, FG_CYAN, FG_WHITE, FG_BRIGHT_BLACK, FG_BRIGHT_RED, FG_BRIGHT_GREEN, FG_BRIGHT_YELLOW, FG_BRIGHT_BLUE, FG_BRIGHT_MAGENTA, FG_BRIGHT_CYAN, FG_BRIGHT_WHITE, BG_BLACK, BG_RED, BG_GREEN, BG_YELLOW, BG_BLUE, BG_MAGENTA, BG_CYAN, BG_WHITE, BG_BRIGHT_BLACK, BG_BRIGHT_RED, BG_BRIGHT_GREEN, BG_BRIGHT_YELLOW, BG_BRIGHT_BLUE, BG_BRIGHT_MAGENTA, BG_BRIGHT_CYAN, BG_BRIGHT_WHITE,
};
use crate::escape::{code_text, decorated};

verus! {

/// A text that can be wrapped in a prefix and a suffix.
pub trait Decorate {
    /// The characters of the text.
    spec fn text(&self) -> Seq<char>;

    /// `prefix`, then the text, then `suffix`.
    fn wrap(&self, prefix: &str, suffix: &str) -> (r: String)
        ensures
            r@ == prefix@ + self.text() + suffix@,
    ;
}

impl Decorate for str {
    open spec fn text(&self) -> Seq<char> {
        self@
    }

    fn wrap(&self, prefix: &str, suffix: &str) -> (r: String) {
        let mut r = String::new();
        r.append(prefix);
        r.append(self);
        r.append(suffix);
        r
    }
}

impl Decorate for String {
    open spec fn text(&self) -> Seq<char> {
        self@
    }

    fn wrap(&self, prefix: &str, suffix: &str) -> (r: String) {
        self.as_str().wrap(prefix, suffix)
    }
}

/// Wrap the text in the code `open` and the code `close`.
fn wrap_codes<T: Decorate + ?Sized>(raw: &T, open: u32, close: u32) -> (r: String)
    ensures
        r@ == decorated(raw.text(), open, close),
{
    let p = code_text(open);
    let s = code_text(close);
    raw.wrap(p.as_str(), s.as_str())
}

/// Font styles, each paired with its cancel code.
pub trait SimpleStyle: Decorate {
    fn simple_bold(&self) -> (r: String)
        ensures
            r@ == decorated(self.text(), BOLD, CANCEL_WEIGHT),
    {
        wrap_codes(self, BOLD, CANCEL_WEIGHT)
    }

    /// Also known as dim.
    fn simple_faint(&self) -> (r: String)
        ensures
            r@ == decorated(self.text(), FAINT, CANCEL_WEIGHT),
    {
        wrap_codes(self, FAINT, CANCEL_WEIGHT)
    }

    /// Also known as oblique.
    fn italic(&self) -> (r: String)
        ensures
            r@ == decorated(self.text(), ITALIC, CANCEL_ITALIC),
    {
        wrap_codes(self, ITALIC, CANCEL_ITALIC)
    }

    fn simple_underline(&self) -> (r: String)
        ensures
            r@ == decorated(self.text(), UNDERLINE, CANCEL_UNDERLINE),
    {
        wrap_codes(self, UNDERLINE, CANCEL_UNDERLINE)
    }

    fn simple_blink(&self) -> (r: String)
        ensures
            r@ == decorated(self.text(), BLINK, CANCEL_BLINK),
    {
        wrap_codes(self, BLINK, CANCEL_BLINK)
    }

    fn simple_blink_fast(&self) -> (r: String)
        ensures
            r@ == decorated(self.text(), BLINK_FAST, CANCEL_BLINK),
    {
        wrap_codes(self, BLINK_FAST, CANCEL_BLINK)
    }

    /// Also known as negative.
    fn inverse(&self) -> (r: String)
        ensures
            r@ == decorated(self.text(), INVERSE, CANCEL_INVERSE),
    {
        wrap_codes(self, INVERSE, CANCEL_INVERSE)
    }

    /// Also known as hidden.
    fn conceal(&self) -> (r: String)
        ensures
            r@ == decorated(self.text(), CONCEAL, CANCEL_CONCEAL),
    {
        wrap_codes(self, CONCEAL, CANCEL_CONCEAL)
    }

    /// Also known as delete line.
    fn strikethrough(&self) -> (r: String)
        ensures
            r@ == decorated(self.text(), STRIKETHROUGH, CANCEL_STRIKE),
    {
        wrap_codes(self, STRIKETHROUGH, CANCEL_STRIKE)
    }

    /// Often shown as a thick underline.
    fn simple_double_underline(&self) -> (r: String)
        ensures
            r@ == decorated(self.text(), DOUBLE_UNDERLINE, CANCEL_UNDERLINE),
    {
        wrap_codes(self, DOUBLE_UNDERLINE, CANCEL_UNDERLINE)
    }
}

impl SimpleStyle for str {}

impl SimpleStyle for String {}


/// Other names for some of the [SimpleStyle] methods.
pub trait SimpleStyleAlias: SimpleStyle {
    /// Same as [SimpleStyle::simple_faint].
    fn simple_dim(&self) -> (r: String)
        ensures
            r@ == decorated(self.text(), FAINT, CANCEL_WEIGHT),
    {
        self.simple_faint()
    }

    /// Same as [SimpleStyle::italic].
    fn oblique(&self) -> (r: String)
        ensures
            r@ == decorated(self.text(), ITALIC, CANCEL_ITALIC),
    {
        self.italic()
    }

    /// Same as [SimpleStyle::inverse].
    fn negative(&self) -> (r: String)
        ensures
            r@ == decorated(self.text(), INVERSE, CANCEL_INVERSE),
    {
        self.inverse()
    }

    /// Same as [SimpleStyle::conceal].
    fn hidden(&self) -> (r: String)
        ensures
            r@ == decorated(self.text(), CONCEAL, CANCEL_CONCEAL),
    {
        self.conceal()
    }

    /// Same as [SimpleStyle::strikethrough].
    fn delete_line(&self) -> (r: String)
        ensures
            r@ == decorated(self.text(), STRIKETHROUGH, CANCEL_STRIKE),
    {
        self.strikethrough()
    }
}

impl SimpleStyleAlias for str {}

impl SimpleStyleAlias for String {}

/// The sixteen named foreground colours, each closed by the foreground
/// cancel code.
pub trait SimpleForeground: Decorate {
    fn simple_black(&self) -> (r: String)
        ensures
            r@ == decorated(self.text(), FG_BLACK, CANCEL_FG),
    {
        wrap_codes(self, FG_BLACK, CANCEL_FG)
    }

    fn simple_red(&self) -> (r: String)
        ensures
            r@ == decorated(self.text(), FG_RED, CANCEL_FG),
    {
        wrap_codes(self, FG_RED, CANCEL_FG)
    }

    fn simple_green(&self) -> (r: String)
        ensures
            r@ == decorated(self.text(), FG_GREEN, CANCEL_FG),
    {
        wrap_codes(self, FG_GREEN, CANCEL_FG)
    }

    fn simple_yellow(&self) -> (r: String)
        ensures
            r@ == decorated(self.text(), FG_YELLOW, CANCEL_FG),
    {
        wrap_codes(self, FG_YELLOW, CANCEL_FG)
    }

    fn simple_blue(&self) -> (r: String)
        ensures
            r@ == decorated(self.text(), FG_BLUE, CANCEL_FG),
    {
        wrap_codes(self, FG_BLUE, CANCEL_FG)
    }

    fn simple_magenta(&self) -> (r: String)
        ensures
            r@ == decorated(self.text(), FG_MAGENTA, CANCEL_FG),
    {
        wrap_codes(self, FG_MAGENTA, CANCEL_FG)
    }

    fn simple_cyan(&self) -> (r: String)
        ensures
            r@ == decorated(self.text(), FG_CYAN, CANCEL_FG),
    {
        wrap_codes(self, FG_CYAN, CANCEL_FG)
    }

    fn simple_white(&self) -> (r: String)
        ensures
            r@ == decorated(self.text(), FG_WHITE, CANCEL_FG),
    {
        wrap_codes(self, FG_WHITE, CANCEL_FG)
    }

    fn simple_hi_black(&self) -> (r: String)
        ensures
            r@ == decorated(self.text(), FG_BRIGHT_BLACK, CANCEL_FG),
    {
        wrap_codes(self, FG_BRIGHT_BLACK, CANCEL_FG)
    }

    fn simple_hi_red(&self) -> (r: String)
        ensures
            r@ == decorated(self.text(), FG_BRIGHT_RED, CANCEL_FG),
    {
        wrap_codes(self, FG_BRIGHT_RED, CANCEL_FG)
    }

    fn simple_hi_green(&self) -> (r: String)
        ensures
            r@ == decorated(self.text(), FG_BRIGHT_GREEN, CANCEL_FG),
    {
        wrap_codes(self, FG_BRIGHT_GREEN, CANCEL_FG)
    }

    fn simple_hi_yellow(&self) -> (r: String)
        ensures
            r@ == decorated(self.text(), FG_BRIGHT_YELLOW, CANCEL_FG),
    {
        wrap_codes(self, FG_BRIGHT_YELLOW, CANCEL_FG)
    }

    fn simple_hi_blue(&self) -> (r: String)
        ensures
            r@ == decorated(self.text(), FG_BRIGHT_BLUE, CANCEL_FG),
    {
        wrap_codes(self, FG_BRIGHT_BLUE, CANCEL_FG)
    }

    fn simple_hi_magenta(&self) -> (r: String)
        ensures
            r@ == decorated(self.text(), FG_BRIGHT_MAGENTA, CANCEL_FG),
    {
        wrap_codes(self, FG_BRIGHT_MAGENTA, CANCEL_FG)
    }

    fn simple_hi_cyan(&self) -> (r: String)
        ensures
            r@ == decorated(self.text(), FG_BRIGHT_CYAN, CANCEL_FG),
    {
        wrap_codes(self, FG_BRIGHT_CYAN, CANCEL_FG)
    }

    fn simple_hi_white(&self) -> (r: String)
        ensures
            r@ == decorated(self.text(), FG_BRIGHT_WHITE, CANCEL_FG),
    {
        wrap_codes(self, FG_BRIGHT_WHITE, CANCEL_FG)
    }
}

impl SimpleForeground for str {}

impl SimpleForeground for String {}

/// The sixteen named background colours, each closed by the background
/// cancel code.
pub trait SimpleBackground: Decorate {
    fn simple_bg_black(&self) -> (r: String)
        ensures
            r@ == decorated(self.text(), BG_BLACK, CANCEL_BG),
    {
        wrap_codes(self, BG_BLACK, CANCEL_BG)
    }

    fn simple_bg_red(&self) -> (r: String)
        ensures
            r@ == decorated(self.text(), BG_RED, CANCEL_BG),
    {
        wrap_codes(self, BG_RED, CANCEL_BG)
    }

    fn simple_bg_green(&self) -> (r: String)
        ensures
            r@ == decorated(self.text(), BG_GREEN, CANCEL_BG),
    {
        wrap_codes(self, BG_GREEN, CANCEL_BG)
    }

    fn simple_bg_yellow(&self) -> (r: String)
        ensures
            r@ == decorated(self.text(), BG_YELLOW, CANCEL_BG),
    {
        wrap_codes(self, BG_YELLOW, CANCEL_BG)
    }

    fn simple_bg_blue(&self) -> (r: String)
        ensures
            r@ == decorated(self.text(), BG_BLUE, CANCEL_BG),
    {
        wrap_codes(self, BG_BLUE, CANCEL_BG)
    }

    fn simple_bg_magenta(&self) -> (r: String)
        ensures
            r@ == decorated(self.text(), BG_MAGENTA, CANCEL_BG),
    {
        wrap_codes(self, BG_MAGENTA, CANCEL_BG)
    }

    fn simple_bg_cyan(&self) -> (r: String)
        ensures
            r@ == decorated(self.text(), BG_CYAN, CANCEL_BG),
    {
        wrap_codes(self, BG_CYAN, CANCEL_BG)
    }

    fn simple_bg_white(&self) -> (r: String)
        ensures
            r@ == decorated(self.text(), BG_WHITE, CANCEL_BG),
    {
        wrap_codes(self, BG_WHITE, CANCEL_BG)
    }

    fn simple_bg_hi_black(&self) -> (r: String)
        ensures
            r@ == decorated(self.text(), BG_BRIGHT_BLACK, CANCEL_BG),
    {
        wrap_codes(self, BG_BRIGHT_BLACK, CANCEL_BG)
    }

    fn simple_bg_hi_red(&self) -> (r: String)
        ensures
            r@ == decorated(self.text(), BG_BRIGHT_RED, CANCEL_BG),
    {
        wrap_codes(self, BG_BRIGHT_RED, CANCEL_BG)
    }

    fn simple_bg_hi_green(&self) -> (r: String)
        ensures
            r@ == decorated(self.text(), BG_BRIGHT_GREEN, CANCEL_BG),
    {
        wrap_codes(self, BG_BRIGHT_GREEN, CANCEL_BG)
    }

    fn simple_bg_hi_yellow(&self) -> (r: String)
        ensures
            r@ == decorated(self.text(), BG_BRIGHT_YELLOW, CANCEL_BG),
    {
        wrap_codes(self, BG_BRIGHT_YELLOW, CANCEL_BG)
    }

    fn simple_bg_hi_blue(&self) -> (r: String)
        ensures
            r@ == decorated(self.text(), BG_BRIGHT_BLUE, CANCEL_BG),
    {
        wrap_codes(self, BG_BRIGHT_BLUE, CANCEL_BG)
    }

    fn simple_bg_hi_magenta(&self) -> (r: String)
        ensures
            r@ == decorated(self.text(), BG_BRIGHT_MAGENTA, CANCEL_BG),
    {
        wrap_codes(self, BG_BRIGHT_MAGENTA, CANCEL_BG)
    }

    fn simple_bg_hi_cyan(&self) -> (r: String)
        ensures
            r@ == decorated(self.text(), BG_BRIGHT_CYAN, CANCEL_BG),
    {
        wrap_codes(self, BG_BRIGHT_CYAN, CANCEL_BG)
    }

    fn simple_bg_hi_white(&self) -> (r: String)
        ensures
            r@ == decorated(self.text(), BG_BRIGHT_WHITE, CANCEL_BG),
    {
        wrap_codes(self, BG_BRIGHT_WHITE, CANCEL_BG)
    }
}

impl SimpleBackground for str {}

impl SimpleBackground for String {}

} // verus!
