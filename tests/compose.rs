use terminal_font::{classify, safe_wrap, serialize_tokens, tokenize, Category, Token};

const RED: &str = "\x1b[31m";
const GREEN: &str = "\x1b[32m";
const BLUE: &str = "\x1b[34m";
const FG_OFF: &str = "\x1b[39m";
const BG_RED: &str = "\x1b[41m";
const BG_OFF: &str = "\x1b[49m";
const BOLD: &str = "\x1b[1m";
const WEIGHT_OFF: &str = "\x1b[22m";

#[test]
fn plain_content_gets_no_corrections() {
    assert_eq!(safe_wrap("plain", RED, FG_OFF), "\x1b[31mplain\x1b[39m");
}

#[test]
fn reset_inside_content_restores_the_wrap() {
    let out = safe_wrap("\x1b[1mX\x1b[0mY", RED, FG_OFF);
    assert_eq!(out, "\x1b[31m\x1b[1mX\x1b[0m\x1b[31mY\x1b[39m");
}

#[test]
fn reset_example_renders_y_red_but_not_bold() {
    let out = safe_wrap("\x1b[1mX\x1b[0mY", RED, FG_OFF);
    let y = out.find('Y').unwrap();
    let before_y = &out[..y];
    // The last foreground code before Y is red, and the last weight-related
    // code before Y is the reset.
    assert!(before_y.ends_with(RED));
    assert!(before_y.rfind("\x1b[0m").unwrap() > before_y.rfind(BOLD).unwrap());
}

#[test]
fn empty_content() {
    assert_eq!(safe_wrap("", RED, FG_OFF), "\x1b[31m\x1b[39m");
}

#[test]
fn inner_cancel_of_same_category_restores_outer() {
    let inner = safe_wrap("a", GREEN, FG_OFF);
    assert_eq!(inner, "\x1b[32ma\x1b[39m");
    let outer = safe_wrap(&inner, RED, FG_OFF);
    assert_eq!(outer, "\x1b[31m\x1b[32ma\x1b[39m\x1b[31m\x1b[39m");
}

#[test]
fn nested_different_categories() {
    let inner = safe_wrap("a\x1b[0mb", BOLD, WEIGHT_OFF);
    assert_eq!(inner, "\x1b[1ma\x1b[0m\x1b[1mb\x1b[22m");
    let outer = safe_wrap(&inner, BLUE, FG_OFF);
    assert_eq!(outer, "\x1b[34m\x1b[1ma\x1b[0m\x1b[34m\x1b[1mb\x1b[22m\x1b[39m");
}

#[test]
fn unclosed_inner_value_is_overridden_before_close() {
    let out = safe_wrap("\x1b[32mX", RED, FG_OFF);
    assert_eq!(out, "\x1b[31m\x1b[32mX\x1b[31m\x1b[39m");
}

#[test]
fn inner_value_equal_to_outer_needs_no_final_correction() {
    let out = safe_wrap("\x1b[31mX", RED, FG_OFF);
    assert_eq!(out, "\x1b[31m\x1b[31mX\x1b[39m");
}

#[test]
fn other_category_is_left_alone() {
    let out = safe_wrap("\x1b[1mX\x1b[22mY", RED, FG_OFF);
    assert_eq!(out, "\x1b[31m\x1b[1mX\x1b[22mY\x1b[39m");
    let out = safe_wrap("\x1b[31mX\x1b[39m", BG_RED, BG_OFF);
    assert_eq!(out, "\x1b[41m\x1b[31mX\x1b[39m\x1b[49m");
}

#[test]
fn palette_colour_inside_is_one_code() {
    let out = safe_wrap("\x1b[38;5;100mX\x1b[39m", RED, FG_OFF);
    assert_eq!(out, "\x1b[31m\x1b[38;5;100mX\x1b[39m\x1b[31m\x1b[39m");
}

#[test]
fn rgb_colour_inside_is_one_code() {
    // 38;2;1;2;3 is one colour: the 2 is not a faint code, the 1 not bold.
    let out = safe_wrap("\x1b[38;2;1;2;3mX", BOLD, WEIGHT_OFF);
    assert_eq!(out, "\x1b[1m\x1b[38;2;1;2;3mX\x1b[22m");
}

#[test]
fn reset_followed_by_code_in_one_sequence() {
    let out = safe_wrap("\x1b[0;1mX", RED, FG_OFF);
    assert_eq!(out, "\x1b[31m\x1b[0;1m\x1b[31mX\x1b[39m");
}

#[test]
fn truncated_escape_is_literal() {
    assert_eq!(safe_wrap("a\x1b[3", RED, FG_OFF), "\x1b[31ma\x1b[3\x1b[39m");
    assert_eq!(safe_wrap("\x1b[;0m", RED, FG_OFF), "\x1b[31m\x1b[;0m\x1b[39m");
    assert_eq!(safe_wrap("\x1b[0;m", RED, FG_OFF), "\x1b[31m\x1b[0;m\x1b[39m");
    assert_eq!(safe_wrap("\x1b[m", RED, FG_OFF), "\x1b[31m\x1b[m\x1b[39m");
    assert_eq!(safe_wrap("\x1b\x1b[0m", RED, FG_OFF), "\x1b[31m\x1b\x1b[0m\x1b[31m\x1b[39m");
}

#[test]
fn multi_code_opening() {
    let out = safe_wrap("\x1b[22mX", "\x1b[1;2m", WEIGHT_OFF);
    assert_eq!(out, "\x1b[1;2m\x1b[22m\x1b[1;2mX\x1b[22m");
}

#[test]
fn non_ascii_content_passes_through() {
    let out = safe_wrap("héllo ✓\x1b[0m", RED, FG_OFF);
    assert_eq!(out, "\x1b[31mhéllo ✓\x1b[0m\x1b[31m\x1b[39m");
}

#[test]
fn output_of_nested_wraps_reparses_losslessly() {
    let inner = safe_wrap("x\x1b[0my", GREEN, FG_OFF);
    let outer = safe_wrap(&inner, BOLD, WEIGHT_OFF);
    assert_eq!(serialize_tokens(&tokenize(&outer)), outer);
    let toks = tokenize(&outer);
    assert_eq!(toks[0], Token::Sgr(String::from(BOLD)));
    assert_eq!(toks[toks.len() - 1], Token::Sgr(String::from(WEIGHT_OFF)));
}

/// Replays single-parameter codes and returns the categories left on.
fn categories_left_on(s: &str) -> Vec<Category> {
    let mut on: Vec<Category> = Vec::new();
    for t in tokenize(s) {
        if let Token::Sgr(x) = t {
            for p in x[2..x.len() - 1].split(';') {
                let (c, cancel) = classify(p.parse::<u32>().unwrap());
                if c == Category::ResetAll {
                    on.clear();
                } else if cancel {
                    on.retain(|k| *k != c);
                } else if !on.contains(&c) {
                    on.push(c);
                }
            }
        }
    }
    on
}

#[test]
fn no_bleed_past_close() {
    let content = "a\x1b[1mb\x1b[22mc\x1b[32md\x1b[0me";
    assert!(categories_left_on(content).is_empty());
    let once = safe_wrap(content, RED, FG_OFF);
    assert!(categories_left_on(&once).is_empty());
    let twice = safe_wrap(&once, BG_RED, BG_OFF);
    assert!(categories_left_on(&twice).is_empty());
    let thrice = safe_wrap(&twice, BOLD, WEIGHT_OFF);
    assert!(categories_left_on(&thrice).is_empty());
}

#[test]
fn wrap_switches_off_only_its_own_category() {
    let out = safe_wrap("\x1b[1m\x1b[32mX", RED, FG_OFF);
    assert_eq!(categories_left_on(&out), vec![Category::Weight]);
}
