use terminal_font::{cancel_for, classify, code_text, escape, Category};

#[test]
fn classify_style_codes() {
    assert_eq!(classify(0), (Category::ResetAll, true));
    assert_eq!(classify(1), (Category::Weight, false));
    assert_eq!(classify(2), (Category::Weight, false));
    assert_eq!(classify(22), (Category::Weight, true));
    assert_eq!(classify(3), (Category::Italic, false));
    assert_eq!(classify(21), (Category::Underline, false));
    assert_eq!(classify(24), (Category::Underline, true));
    assert_eq!(classify(6), (Category::Blink, false));
    assert_eq!(classify(27), (Category::Inverse, true));
    assert_eq!(classify(8), (Category::Conceal, false));
    assert_eq!(classify(29), (Category::Strike, true));
}

#[test]
fn classify_colours() {
    assert_eq!(classify(31), (Category::Foreground, false));
    assert_eq!(classify(97), (Category::Foreground, false));
    assert_eq!(classify(39), (Category::Foreground, true));
    assert_eq!(classify(40), (Category::Background, false));
    assert_eq!(classify(107), (Category::Background, false));
    assert_eq!(classify(49), (Category::Background, true));
}

#[test]
fn classify_unknown_codes() {
    assert_eq!(classify(26), (Category::Unknown, false));
    assert_eq!(classify(38), (Category::Unknown, false));
    assert_eq!(classify(48), (Category::Unknown, false));
    assert_eq!(classify(108), (Category::Unknown, false));
    assert_eq!(classify(u32::MAX), (Category::Unknown, false));
}

#[test]
fn cancel_codes() {
    assert_eq!(cancel_for(Category::Weight), Some(22));
    assert_eq!(cancel_for(Category::Foreground), Some(39));
    assert_eq!(cancel_for(Category::Background), Some(49));
    assert_eq!(cancel_for(Category::ResetAll), Some(0));
    assert_eq!(cancel_for(Category::Unknown), None);
    for c in [
        Category::Weight,
        Category::Italic,
        Category::Underline,
        Category::Blink,
        Category::Inverse,
        Category::Conceal,
        Category::Strike,
        Category::Foreground,
        Category::Background,
    ] {
        let k = cancel_for(c).unwrap();
        assert_eq!(classify(k), (c, true));
    }
}

#[test]
fn escape_sequences() {
    assert_eq!(escape(&[123]), "\x1b[123m");
    assert_eq!(escape(&[38, 2, 123]), "\x1b[38;2;123m");
    assert_eq!(escape(&[38, 5, 143, 76, 76]), "\x1b[38;5;143;76;76m");
    assert_eq!(escape(&[0]), "\x1b[0m");
    assert_eq!(escape(&[]), "\x1b[m");
    assert_eq!(code_text(4294967295), "\x1b[4294967295m");
}
