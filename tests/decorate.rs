use terminal_font::{
    conceal, delete_line, hidden, inverse, italic, negative, oblique, simple_bg_blue,
    simple_bg_hi_white, simple_blink, simple_blink_fast, simple_bold, simple_dim, simple_faint,
    simple_heavy, simple_hi_black, simple_red, simple_underline, strikethrough, Decorate,
    RGBColor, SimpleBackground, SimpleCustomColor, SimpleForeground, SimpleStyle,
    SimpleStyleAlias,
};

#[test]
fn wrap_prefix_and_suffix() {
    assert_eq!("hello".wrap("[", "]"), "[hello]");
    let prefix = String::from("[");
    assert_eq!("hello".wrap(&prefix, "]"), "[hello]");
    assert_eq!(String::from("hello").wrap("<", ">"), "<hello>");
}

#[test]
fn simple_style_methods() {
    assert_eq!(" hello ".simple_bold(), "\x1b[1m hello \x1b[22m");
    assert_eq!(" hello ".simple_faint(), "\x1b[2m hello \x1b[22m");
    assert_eq!(" hello ".italic(), "\x1b[3m hello \x1b[23m");
    assert_eq!(" hello ".simple_underline(), "\x1b[4m hello \x1b[24m");
    assert_eq!(" hello ".simple_blink(), "\x1b[5m hello \x1b[25m");
    assert_eq!(" hello ".simple_blink_fast(), "\x1b[6m hello \x1b[25m");
    assert_eq!(" hello ".inverse(), "\x1b[7m hello \x1b[27m");
    assert_eq!(" hello ".conceal(), "\x1b[8m hello \x1b[28m");
    assert_eq!(" hello ".strikethrough(), "\x1b[9m hello \x1b[29m");
    assert_eq!(" hello ".simple_double_underline(), "\x1b[21m hello \x1b[24m");
}

#[test]
fn simple_style_alias_methods() {
    assert_eq!(" hello ".simple_dim(), "\x1b[2m hello \x1b[22m");
    assert_eq!(" hello ".oblique(), "\x1b[3m hello \x1b[23m");
    assert_eq!(" hello ".negative(), "\x1b[7m hello \x1b[27m");
    assert_eq!(" hello ".hidden(), "\x1b[8m hello \x1b[28m");
    assert_eq!(" hello ".delete_line(), "\x1b[9m hello \x1b[29m");
}

#[test]
fn simple_foreground_methods() {
    assert_eq!(" hello ".simple_black(), "\x1b[30m hello \x1b[39m");
    assert_eq!(" hello ".simple_red(), "\x1b[31m hello \x1b[39m");
    assert_eq!(" hello ".simple_green(), "\x1b[32m hello \x1b[39m");
    assert_eq!(" hello ".simple_yellow(), "\x1b[33m hello \x1b[39m");
    assert_eq!(" hello ".simple_blue(), "\x1b[34m hello \x1b[39m");
    assert_eq!(" hello ".simple_magenta(), "\x1b[35m hello \x1b[39m");
    assert_eq!(" hello ".simple_cyan(), "\x1b[36m hello \x1b[39m");
    assert_eq!(" hello ".simple_white(), "\x1b[37m hello \x1b[39m");
    assert_eq!(" hello ".simple_hi_black(), "\x1b[90m hello \x1b[39m");
    assert_eq!(" hello ".simple_hi_red(), "\x1b[91m hello \x1b[39m");
    assert_eq!(" hello ".simple_hi_green(), "\x1b[92m hello \x1b[39m");
    assert_eq!(" hello ".simple_hi_yellow(), "\x1b[93m hello \x1b[39m");
    assert_eq!(" hello ".simple_hi_blue(), "\x1b[94m hello \x1b[39m");
    assert_eq!(" hello ".simple_hi_magenta(), "\x1b[95m hello \x1b[39m");
    assert_eq!(" hello ".simple_hi_cyan(), "\x1b[96m hello \x1b[39m");
    assert_eq!(" hello ".simple_hi_white(), "\x1b[97m hello \x1b[39m");
}

#[test]
fn simple_background_methods() {
    assert_eq!(" hello ".simple_bg_black(), "\x1b[40m hello \x1b[49m");
    assert_eq!(" hello ".simple_bg_red(), "\x1b[41m hello \x1b[49m");
    assert_eq!(" hello ".simple_bg_green(), "\x1b[42m hello \x1b[49m");
    assert_eq!(" hello ".simple_bg_yellow(), "\x1b[43m hello \x1b[49m");
    assert_eq!(" hello ".simple_bg_blue(), "\x1b[44m hello \x1b[49m");
    assert_eq!(" hello ".simple_bg_magenta(), "\x1b[45m hello \x1b[49m");
    assert_eq!(" hello ".simple_bg_cyan(), "\x1b[46m hello \x1b[49m");
    assert_eq!(" hello ".simple_bg_white(), "\x1b[47m hello \x1b[49m");
    assert_eq!(" hello ".simple_bg_hi_black(), "\x1b[100m hello \x1b[49m");
    assert_eq!(" hello ".simple_bg_hi_red(), "\x1b[101m hello \x1b[49m");
    assert_eq!(" hello ".simple_bg_hi_green(), "\x1b[102m hello \x1b[49m");
    assert_eq!(" hello ".simple_bg_hi_yellow(), "\x1b[103m hello \x1b[49m");
    assert_eq!(" hello ".simple_bg_hi_blue(), "\x1b[104m hello \x1b[49m");
    assert_eq!(" hello ".simple_bg_hi_magenta(), "\x1b[105m hello \x1b[49m");
    assert_eq!(" hello ".simple_bg_hi_cyan(), "\x1b[106m hello \x1b[49m");
    assert_eq!(" hello ".simple_bg_hi_white(), "\x1b[107m hello \x1b[49m");
}

#[test]
fn methods_on_owned_strings() {
    let s = String::from("x");
    assert_eq!(s.simple_bold(), "\x1b[1mx\x1b[22m");
    assert_eq!(s.simple_dim(), "\x1b[2mx\x1b[22m");
    assert_eq!(s.simple_hi_red(), "\x1b[91mx\x1b[39m");
    assert_eq!(s.simple_bg_cyan(), "\x1b[46mx\x1b[49m");
}

#[test]
fn free_functions() {
    assert_eq!(simple_bold("a"), "\x1b[1ma\x1b[22m");
    assert_eq!(simple_heavy("a"), "\x1b[1ma\x1b[22m");
    assert_eq!(simple_faint("a"), "\x1b[2ma\x1b[22m");
    assert_eq!(simple_dim("a"), "\x1b[2ma\x1b[22m");
    assert_eq!(italic("a"), "\x1b[3ma\x1b[23m");
    assert_eq!(oblique("a"), "\x1b[3ma\x1b[23m");
    assert_eq!(simple_underline("a"), "\x1b[4ma\x1b[24m");
    assert_eq!(simple_blink("a"), "\x1b[5ma\x1b[25m");
    assert_eq!(simple_blink_fast("a"), "\x1b[6ma\x1b[25m");
    assert_eq!(inverse("a"), "\x1b[7ma\x1b[27m");
    assert_eq!(negative("a"), "\x1b[7ma\x1b[27m");
    assert_eq!(conceal("a"), "\x1b[8ma\x1b[28m");
    assert_eq!(hidden("a"), "\x1b[8ma\x1b[28m");
    assert_eq!(strikethrough("a"), "\x1b[9ma\x1b[29m");
    assert_eq!(delete_line("a"), "\x1b[9ma\x1b[29m");
    assert_eq!(simple_red(""), "\x1b[31m\x1b[39m");
    assert_eq!(simple_hi_black("a"), "\x1b[90ma\x1b[39m");
    assert_eq!(simple_bg_blue("a"), "\x1b[44ma\x1b[49m");
    assert_eq!(simple_bg_hi_white("a"), "\x1b[107ma\x1b[49m");
}

#[test]
fn rgb_from_tuple() {
    let color = RGBColor::from((12, 34, 56));
    assert_eq!(color.r, 12);
    assert_eq!(color.g, 34);
    assert_eq!(color.b, 56);
}

#[test]
fn rgb_from_hex() {
    let color = RGBColor::from(0x123456u32);
    assert_eq!(color.r, 0x12);
    assert_eq!(color.g, 0x34);
    assert_eq!(color.b, 0x56);
    let color = RGBColor::from(0xff00ff80u32);
    assert_eq!((color.r, color.g, color.b), (0x00, 0xff, 0x80));
}

#[test]
fn custom_palette_colour() {
    assert_eq!(" hello ".simple_fg(123u8), "\x1b[38;5;123m hello \x1b[39m");
    assert_eq!(" hello ".simple_bg(123u8), "\x1b[48;5;123m hello \x1b[49m");
}

#[test]
fn custom_rgb_colour() {
    let c = RGBColor::from((143, 76, 78));
    assert_eq!(" hello ".simple_fg(c), "\x1b[38;2;143;76;78m hello \x1b[39m");
    assert_eq!(" hello ".simple_bg(c), "\x1b[48;2;143;76;78m hello \x1b[49m");
    assert_eq!(String::from("x").simple_fg(RGBColor::from(0u32)), "\x1b[38;2;0;0;0mx\x1b[39m");
}
