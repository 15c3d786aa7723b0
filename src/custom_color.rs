//! Custom colours: a 256-colour palette index (`u8`) or a 24-bit
//! [RGBColor], as foreground or background decorations.

use vstd::prelude::*;

use crate::codes::{BG_EXTENDED, CANCEL_BG, CANCEL_FG, FG_EXTENDED, PALETTE_MODE, RGB_MODE};
use crate::decorate::Decorate;
use crate::escape::{code_text, escape, sgr_text};

verus! {

/// A 24-bit colour.
#[derive(Clone, Copy, Debug, PartialEq, Eq, Structural)]
pub struct RGBColor {
    pub r: u8,
    pub g: u8,
    pub b: u8,
}

impl From<(u8, u8, u8)> for RGBColor {
    /// Red, green and blue, in that order.
    fn from(value: (u8, u8, u8)) -> (c: RGBColor) {
        RGBColor { r: value.0, g: value.1, b: value.2 }
    }
}

impl vstd::std_specs::convert::FromSpecImpl<(u8, u8, u8)> for RGBColor {
    open spec fn obeys_from_spec() -> bool {
        true
    }

    open spec fn from_spec(v: (u8, u8, u8)) -> RGBColor {
        RGBColor { r: v.0, g: v.1, b: v.2 }
    }
}

impl From<u32> for RGBColor {
    /// From a hex code such as `0x123456`: red from bits 16..24, green from
    /// bits 8..16, blue from bits 0..8; higher bits are ignored.
    fn from(value: u32) -> (c: RGBColor) {
        assert(((value >> 16) & 0xff) == (value / 0x10000) % 0x100) by (bit_vector);
        assert(((value >> 8) & 0xff) == (value / 0x100) % 0x100) by (bit_vector);
        assert((value & 0xff) == value % 0x100) by (bit_vector);
        RGBColor {
            r: ((value >> 16) & 0xff) as u8,
            g: ((value >> 8) & 0xff) as u8,
            b: (value & 0xff) as u8,
        }
    }
}

impl vstd::std_specs::convert::FromSpecImpl<u32> for RGBColor {
    open spec fn obeys_from_spec() -> bool {
        true
    }

    open spec fn from_spec(v: u32) -> RGBColor {
        RGBColor {
            r: ((v / 0x10000) % 0x100) as u8,
            g: ((v / 0x100) % 0x100) as u8,
            b: (v % 0x100) as u8,
        }
    }
}

/// A colour that has a foreground and a background escape sequence.
pub trait ColorCode {
    /// The parameters that set this colour as the foreground.
    spec fn fg_params(&self) -> Seq<u32>;

    /// The parameters that set this colour as the background.
    spec fn bg_params(&self) -> Seq<u32>;

    fn fg_code(&self) -> (r: String)
        ensures
            r@ == sgr_text(self.fg_params()),
    ;

    fn bg_code(&self) -> (r: String)
        ensures
            r@ == sgr_text(self.bg_params()),
    ;
}

/// A 256-colour palette index: `38;5;n` and `48;5;n`.
impl ColorCode for u8 {
    open spec fn fg_params(&self) -> Seq<u32> {
        seq![38, 5, *self as u32]
    }

    open spec fn bg_params(&self) -> Seq<u32> {
        seq![48, 5, *self as u32]
    }

    fn fg_code(&self) -> (r: String) {
        let ps: [u32; 3] = [FG_EXTENDED, PALETTE_MODE, *self as u32];
        let r = escape(ps.as_slice());
        assert(ps@ =~= self.fg_params());
        r
    }

    fn bg_code(&self) -> (r: String) {
        let ps: [u32; 3] = [BG_EXTENDED, PALETTE_MODE, *self as u32];
        let r = escape(ps.as_slice());
        assert(ps@ =~= self.bg_params());
        r
    }
}

/// A 24-bit colour: `38;2;r;g;b` and `48;2;r;g;b`.
impl ColorCode for RGBColor {
    open spec fn fg_params(&self) -> Seq<u32> {
        seq![38, 2, self.r as u32, self.g as u32, self.b as u32]
    }

    open spec fn bg_params(&self) -> Seq<u32> {
        seq![48, 2, self.r as u32, self.g as u32, self.b as u32]
    }

    fn fg_code(&self) -> (r: String) {
        let ps: [u32; 5] = [FG_EXTENDED, RGB_MODE, self.r as u32, self.g as u32, self.b as u32];
        let r = escape(ps.as_slice());
        assert(ps@ =~= self.fg_params());
        r
    }

    fn bg_code(&self) -> (r: String) {
        let ps: [u32; 5] = [BG_EXTENDED, RGB_MODE, self.r as u32, self.g as u32, self.b as u32];
        let r = escape(ps.as_slice());
        assert(ps@ =~= self.bg_params());
        r
    }
}

/// Custom-colour decorations, closed by the foreground or background
/// cancel code. Like the other plain decorations they do not look inside
/// the text.
pub trait SimpleCustomColor<T: ColorCode>: Decorate {
    fn simple_fg(&self, code: T) -> (r: String)
        ensures
            r@ == sgr_text(code.fg_params()) + self.text() + sgr_text(seq![CANCEL_FG]),
    {
        let p = code.fg_code();
        let s = code_text(CANCEL_FG);
        self.wrap(p.as_str(), s.as_str())
    }

    fn simple_bg(&self, code: T) -> (r: String)
        ensures
            r@ == sgr_text(code.bg_params()) + self.text() + sgr_text(seq![CANCEL_BG]),
    {
        let p = code.bg_code();
        let s = code_text(CANCEL_BG);
        self.wrap(p.as_str(), s.as_str())
    }
}

impl SimpleCustomColor<u8> for str {}

impl SimpleCustomColor<u8> for String {}

impl SimpleCustomColor<RGBColor> for str {}

impl SimpleCustomColor<RGBColor> for String {}

} // verus!
