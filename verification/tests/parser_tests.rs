use lexparse::brackets::ZeroOneRDP;
use lexparse::lexer::Lexer;
use lexparse::prefix::PrefixRDP;

fn words(s: &str) -> Vec<String> {
    Lexer::new("", vec![]).tokenize(s)
}

#[test]
fn prefix_accepts_terminal() {
    let mut p = PrefixRDP::new(words("a"));
    assert!(p.stmt().is_ok());
}

#[test]
fn prefix_accepts_binary_plus() {
    let mut p = PrefixRDP::new(words("+ a a"));
    assert!(p.stmt().is_ok());
}

#[test]
fn prefix_accepts_nested_operators() {
    let mut p = PrefixRDP::new(words("+ - a a a"));
    assert!(p.stmt().is_ok());
}

#[test]
fn prefix_rejects_unknown_token() {
    let mut p = PrefixRDP::new(words("b"));
    assert!(p.stmt().is_err());
}

#[test]
fn prefix_rejects_bad_operand() {
    let mut p = PrefixRDP::new(words("+ a b"));
    assert!(p.stmt().is_err());
}

#[test]
fn prefix_accepts_exhausted_input_as_empty_continuation() {
    // The grammar's base case: an absent lookahead is accepted, so an
    // operand cut off by the end of input does not fail.
    let mut p = PrefixRDP::new(words("+ a"));
    assert!(p.stmt().is_ok());
}

#[test]
fn prefix_empty_input_accepts() {
    let mut p = PrefixRDP::new(Vec::new());
    assert!(p.stmt().is_ok());
}

#[test]
fn brackets_accept_nested_pairs() {
    let mut p = ZeroOneRDP::new(words("0 0 0 1 1 1"));
    assert!(p.parse());
}

#[test]
fn brackets_accept_single_pair() {
    let mut p = ZeroOneRDP::new(words("0 1"));
    assert!(p.parse());
}

#[test]
fn brackets_reject_leftover_close() {
    // "1" alone: stmt consumes nothing, the leftover token is the reported
    // syntax error.
    let mut p = ZeroOneRDP::new(words("1"));
    assert!(!p.parse());
}

#[test]
fn brackets_reject_trailing_tokens() {
    let mut p = ZeroOneRDP::new(words("0 1 1"));
    assert!(!p.parse());
}

#[test]
fn brackets_tolerate_missing_close() {
    // The permissive match skips an absent closing "1" silently, so an
    // unbalanced but fully consumed input is still accepted.
    let mut p = ZeroOneRDP::new(words("0 0 1"));
    assert!(p.parse());
    let mut q = ZeroOneRDP::new(words("0"));
    assert!(q.parse());
}

#[test]
fn brackets_empty_input_accepts() {
    let mut p = ZeroOneRDP::new(Vec::new());
    assert!(p.parse());
}
