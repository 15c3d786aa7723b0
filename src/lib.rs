//! ANSI SGR styling: plain prefix/suffix decoration, and a composition
//! engine that wraps already-styled text without letting the styles bleed
//! into each other.

pub mod codes;
pub mod compose;
pub mod custom_color;
pub mod decorate;
pub mod escape;
pub mod functions;
pub mod laws;
pub mod state;
pub mod token;

pub use codes::{cancel_for, classify, Category};
pub use compose::safe_wrap;
pub use custom_color::{ColorCode, RGBColor, SimpleCustomColor};
pub use decorate::{Decorate, SimpleBackground, SimpleForeground, SimpleStyle, SimpleStyleAlias};
pub use escape::{code_text, escape};
pub use functions::{
    simple_bold, simple_faint, italic, simple_underline, simple_blink, simple_blink_fast,
    inverse, conceal, strikethrough, simple_heavy, simple_dim, oblique, negative, hidden,
    delete_line, simple_black, simple_red, simple_green, simple_yellow, simple_blue,
    simple_magenta, simple_cyan, simple_white, simple_hi_black, simple_hi_red, simple_hi_green,
    simple_hi_yellow, simple_hi_blue, simple_hi_magenta, simple_hi_cyan, simple_hi_white,
    simple_bg_black, simple_bg_red, simple_bg_green, simple_bg_yellow, simple_bg_blue,
    simple_bg_magenta, simple_bg_cyan, simple_bg_white, simple_bg_hi_black, simple_bg_hi_red,
    simple_bg_hi_green, simple_bg_hi_yellow, simple_bg_hi_blue, simple_bg_hi_magenta,
    simple_bg_hi_cyan, simple_bg_hi_white,
};
pub use token::{serialize_tokens, tokenize, Token};
