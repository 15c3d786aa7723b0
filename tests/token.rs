use terminal_font::{serialize_tokens, tokenize, Token};

fn text(s: &str) -> Token {
    Token::Text(String::from(s))
}

fn sgr(s: &str) -> Token {
    Token::Sgr(String::from(s))
}

#[test]
fn tokenize_splits_sequences_from_text() {
    let toks = tokenize("a\x1b[1mb");
    assert_eq!(toks, vec![text("a"), sgr("\x1b[1m"), text("b")]);
}

#[test]
fn tokenize_keeps_multi_parameter_sequence_whole() {
    let toks = tokenize("\x1b[38;2;143;76;78m");
    assert_eq!(toks, vec![sgr("\x1b[38;2;143;76;78m")]);
}

#[test]
fn malformed_sequences_are_literal_characters() {
    let toks = tokenize("\x1b[1");
    assert_eq!(toks, vec![text("\x1b"), text("["), text("1")]);
    let toks = tokenize("\x1b[1;;2m");
    assert_eq!(toks.len(), 7);
    assert!(toks.iter().all(|t| matches!(t, Token::Text(_))));
}

#[test]
fn empty_text_has_no_tokens() {
    assert_eq!(tokenize(""), Vec::<Token>::new());
    assert_eq!(serialize_tokens(&Vec::new()), "");
}

#[test]
fn parse_round_trip() {
    for s in [
        "",
        "plain",
        "\x1b[0m",
        "a\x1b[1;31mb\x1b[0mc",
        "\x1b[38;5;300mX",
        "\x1b[99999999999m",
        "\x1b[\x1b[1m",
        "ünï\x1bcode\x1b[",
    ] {
        assert_eq!(serialize_tokens(&tokenize(s)), s);
    }
}

#[test]
fn long_parameter_is_still_one_sequence() {
    let toks = tokenize("\x1b[00000000000000000001m");
    assert_eq!(toks, vec![sgr("\x1b[00000000000000000001m")]);
}
