use lexparse::lexer::Lexer;
use lexparse::token::Tag;

fn breaker_lexer() -> Lexer {
    Lexer::new("+-()", vec![])
}

fn standard_lexer() -> Lexer {
    Lexer::new(
        r#"&(){}[]?/<>*+-='"\:;"#,
        vec!["int", "for", "while", "and", "bool", "if", "or", "return", "true", "false"],
    )
}

#[test]
fn scanner_splits_breakers_from_letters() {
    let lexer = breaker_lexer();
    let toks = lexer.tokenize("+ a -aa a");
    assert_eq!(toks, vec!["+", "a", "-", "aa", "a"]);
}

#[test]
fn scanner_lone_breaker_is_one_token() {
    let lexer = breaker_lexer();
    assert_eq!(lexer.tokenize("("), vec!["("]);
}

#[test]
fn scanner_adjacent_symbols_split() {
    let lexer = breaker_lexer();
    assert_eq!(lexer.tokenize("+a"), vec!["+", "a"]);
    assert_eq!(lexer.tokenize("(a)"), vec!["(", "a", ")"]);
}

#[test]
fn scanner_empty_line_yields_nothing() {
    let lexer = breaker_lexer();
    assert_eq!(lexer.tokenize(""), Vec::<String>::new());
}

#[test]
fn scanner_whitespace_line_yields_nothing() {
    let lexer = breaker_lexer();
    assert_eq!(lexer.tokenize("   \t  "), Vec::<String>::new());
}

#[test]
fn scanner_round_trip_is_stable() {
    let lexer = breaker_lexer();
    let toks = lexer.tokenize("+ a -aa a");
    let joined = toks.join(" ");
    let again = lexer.tokenize(&joined);
    assert_eq!(toks, again);
}

#[test]
fn scanner_round_trip_normalizes_whitespace() {
    let lexer = standard_lexer();
    let toks = lexer.tokenize("  x=(1+2)\t ; ");
    let joined = toks.join(" ");
    assert_eq!(lexer.tokenize(&joined), toks);
}

#[test]
fn filtered_round_trip_is_stable() {
    let lexer = standard_lexer();
    let toks = lexer.tokenize("x = 1 / / note");
    let filtered = lexer.filter_line_comments(toks);
    assert_eq!(filtered, vec!["x", "=", "1"]);
    let joined = filtered.join(" ");
    assert_eq!(lexer.tokenize(&joined), filtered);
}

#[test]
fn classifier_number() {
    let lexer = standard_lexer();
    assert_eq!(lexer.determine_tag("123".to_string()), Tag::Number);
    assert_eq!(lexer.determine_tag("7".to_string()), Tag::Number);
    assert_eq!(lexer.determine_tag("-42".to_string()), Tag::Number);
}

#[test]
fn classifier_punctuation() {
    let lexer = standard_lexer();
    assert_eq!(lexer.determine_tag("(".to_string()), Tag::LeftParen);
    assert_eq!(lexer.determine_tag(";".to_string()), Tag::Semicolon);
    assert_eq!(lexer.determine_tag("-".to_string()), Tag::Minus);
    assert_eq!(lexer.determine_tag("&".to_string()), Tag::Ampersand);
}

#[test]
fn classifier_keyword_flag() {
    let lexer = standard_lexer();
    assert_eq!(lexer.determine_tag("int".to_string()), Tag::KeywordFlag);
    assert_eq!(lexer.determine_tag("true".to_string()), Tag::KeywordFlag);
    assert_eq!(lexer.determine_tag("false".to_string()), Tag::KeywordFlag);
}

#[test]
fn classifier_identifier_fallback() {
    let lexer = standard_lexer();
    assert_eq!(lexer.determine_tag("foo".to_string()), Tag::Identifier);
    assert_eq!(lexer.determine_tag("12a".to_string()), Tag::Identifier);
    assert_eq!(lexer.determine_tag("x".to_string()), Tag::Identifier);
}

#[test]
fn comment_filter_truncates_at_marker() {
    let lexer = standard_lexer();
    let toks: Vec<String> =
        vec!["a", "+", "b", "/", "/", "c"].into_iter().map(str::to_string).collect();
    let filtered = lexer.filter_line_comments(toks);
    assert_eq!(filtered, vec!["a", "+", "b"]);
}

#[test]
fn comment_filter_keeps_marker_free_sequence() {
    let lexer = standard_lexer();
    let toks: Vec<String> = vec!["a", "/", "b"].into_iter().map(str::to_string).collect();
    let filtered = lexer.filter_line_comments(toks);
    assert_eq!(filtered, vec!["a", "/", "b"]);
}

#[test]
fn tag_names() {
    assert_eq!(Tag::Number.string(), "Number");
    assert_eq!(Tag::Identifier.string(), "Identifier");
    assert_eq!(Tag::KeywordFlag.string(), "KeywordFlag");
    assert_eq!(Tag::LeftParen.string(), "LeftParen");
    assert_eq!(Tag::Nil.string(), "Nil");
}

#[test]
fn token_stream_carries_line_numbers_and_tags() {
    let lexer = standard_lexer();
    let lines: Vec<String> =
        vec!["int x = 1", "", "x + 2 / / trailing comment", "y"].into_iter().map(
            str::to_string,
        ).collect();
    let tokens = lexer.tokenize_lines(&lines);
    let expected: Vec<(usize, &str, Tag)> = vec![
        (1, "int", Tag::KeywordFlag),
        (1, "x", Tag::Identifier),
        (1, "=", Tag::Equals),
        (1, "1", Tag::Number),
        (3, "x", Tag::Identifier),
        (3, "+", Tag::Plus),
        (3, "2", Tag::Number),
        (4, "y", Tag::Identifier),
    ];
    assert_eq!(tokens.len(), expected.len());
    for (tok, (line, text, tag)) in tokens.iter().zip(expected.iter()) {
        assert_eq!(tok.line_number, *line);
        assert_eq!(tok.text, *text);
        assert_eq!(tok.tag, *tag);
    }
}

#[test]
fn scanner_standard_symbols_line() {
    let lexer = standard_lexer();
    assert_eq!(lexer.tokenize("x=(1+2);"), vec!["x", "=", "(", "1", "+", "2", ")", ";"]);
}
