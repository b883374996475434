//! Tokens and their tags: the closed set of semantic tags, the classifier's
//! mathematical model, and the tagged token the stream builder emits.

use vstd::prelude::*;

use crate::chars::{is_digit, is_digit_char};

verus! {

/// The semantic tag of a token. Classification is total: every token gets
/// exactly one tag, with `Identifier` as the fallback. Keywords collapse to
/// the single `KeywordFlag` variant; `Nil` is declared for completeness and
/// never produced by the classifier.
#[derive(Clone, Copy, PartialEq, Eq, Structural, Debug)]
pub enum Tag {
    Number,
    Identifier,
    KeywordFlag,
    Semicolon,
    Backslash,
    Equals,
    Minus,
    Plus,
    Asterisk,
    ForwardSlash,
    QuestionMark,
    LeftBracket,
    RightBracket,
    LeftBrace,
    RightBrace,
    LeftParen,
    RightParen,
    SingleQuote,
    DoubleQuote,
    Colon,
    LessThan,
    GreaterThan,
    Ampersand,
    Nil,
}

/// The display name of each tag.
pub open spec fn tag_name(t: Tag) -> Seq<char> {
    match t {
        Tag::Number => "Number"@,
        Tag::Identifier => "Identifier"@,
        Tag::KeywordFlag => "KeywordFlag"@,
        Tag::Semicolon => "Semicolon"@,
        Tag::Backslash => "Backslash"@,
        Tag::Equals => "Equals"@,
        Tag::Minus => "Minus"@,
        Tag::Plus => "Plus"@,
        Tag::Asterisk => "Asterisk"@,
        Tag::ForwardSlash => "ForwardSlash"@,
        Tag::QuestionMark => "QuestionMark"@,
        Tag::LeftBracket => "LeftBracket"@,
        Tag::RightBracket => "RightBracket"@,
        Tag::LeftBrace => "LeftBrace"@,
        Tag::RightBrace => "RightBrace"@,
        Tag::LeftParen => "LeftParen"@,
        Tag::RightParen => "RightParen"@,
        Tag::SingleQuote => "SingleQuote"@,
        Tag::DoubleQuote => "DoubleQuote"@,
        Tag::Colon => "Colon"@,
        Tag::LessThan => "LessThan"@,
        Tag::GreaterThan => "GreaterThan"@,
        Tag::Ampersand => "Ampersand"@,
        Tag::Nil => "Nil"@,
    }
}

impl Tag {
    /// The display name of this tag.
    pub fn string(&self) -> (s: String)
        ensures
            s@ == tag_name(*self),
    {
        match *self {
            Tag::Number => String::from_str("Number"),
            Tag::Identifier => String::from_str("Identifier"),
            Tag::KeywordFlag => String::from_str("KeywordFlag"),
            Tag::Semicolon => String::from_str("Semicolon"),
            Tag::Backslash => String::from_str("Backslash"),
            Tag::Equals => String::from_str("Equals"),
            Tag::Minus => String::from_str("Minus"),
            Tag::Plus => String::from_str("Plus"),
            Tag::Asterisk => String::from_str("Asterisk"),
            Tag::ForwardSlash => String::from_str("ForwardSlash"),
            Tag::QuestionMark => String::from_str("QuestionMark"),
            Tag::LeftBracket => String::from_str("LeftBracket"),
            Tag::RightBracket => String::from_str("RightBracket"),
            Tag::LeftBrace => String::from_str("LeftBrace"),
            Tag::RightBrace => String::from_str("RightBrace"),
            Tag::LeftParen => String::from_str("LeftParen"),
            Tag::RightParen => String::from_str("RightParen"),
            Tag::SingleQuote => String::from_str("SingleQuote"),
            Tag::DoubleQuote => String::from_str("DoubleQuote"),
            Tag::Colon => String::from_str("Colon"),
            Tag::LessThan => String::from_str("LessThan"),
            Tag::GreaterThan => String::from_str("GreaterThan"),
            Tag::Ampersand => String::from_str("Ampersand"),
            Tag::Nil => String::from_str("Nil"),
        }
    }
}

/// A base-10 integer literal: at least one decimal digit, with an optional
/// leading minus sign.
pub open spec fn is_number(s: Seq<char>) -> bool {
    if s.len() > 0 && s[0] == '-' {
        s.len() > 1 && forall|k: int| 1 <= k < s.len() ==> is_digit_char(s[k])
    } else {
        s.len() > 0 && forall|k: int| 0 <= k < s.len() ==> is_digit_char(s[k])
    }
}

/// Executable test for `is_number`.
pub fn check_number(s: &str) -> (r: bool)
    ensures
        r == is_number(s@),
{
    let n = s.unicode_len();
    if n == 0 {
        return false;
    }
    let c0 = s.get_char(0);
    let start: usize = if c0 == '-' {
        1
    } else {
        0
    };
    if start == 1 && n == 1 {
        return false;
    }
    let mut i: usize = start;
    while i < n
        invariant
            start <= i <= n,
            n == s@.len(),
            start == 1 ==> s@[0] == '-',
            start == 0 ==> s@[0] != '-',
            forall|k: int| start <= k < i ==> is_digit_char(s@[k]),
        decreases n - i,
    {
        let c = s.get_char(i);
        if !is_digit(c) {
            return false;
        }
        i += 1;
    }
    true
}

/// The punctuation tag of a single-character token, `Identifier` where the
/// character has no punctuation variant.
pub open spec fn punct_tag(c: char) -> Tag {
    match c {
        '(' => Tag::LeftParen,
        ')' => Tag::RightParen,
        '{' => Tag::LeftBrace,
        '}' => Tag::RightBrace,
        '[' => Tag::LeftBracket,
        ']' => Tag::RightBracket,
        '?' => Tag::QuestionMark,
        '/' => Tag::ForwardSlash,
        '<' => Tag::LessThan,
        '>' => Tag::GreaterThan,
        '*' => Tag::Asterisk,
        '+' => Tag::Plus,
        '-' => Tag::Minus,
        '=' => Tag::Equals,
        '\'' => Tag::SingleQuote,
        '"' => Tag::DoubleQuote,
        '\\' => Tag::Backslash,
        ';' => Tag::Semicolon,
        ':' => Tag::Colon,
        '&' => Tag::Ampersand,
        _ => Tag::Identifier,
    }
}

/// The classifier's model: a base-10 integer literal is a `Number`; a
/// single-character token gets its punctuation tag; a longer token in the
/// keyword set is a `KeywordFlag`; everything else is an `Identifier`.
pub open spec fn tag_of(tok: Seq<char>, kws: Seq<Seq<char>>) -> Tag {
    if is_number(tok) {
        Tag::Number
    } else if tok.len() == 1 {
        punct_tag(tok[0])
    } else if kws.contains(tok) {
        Tag::KeywordFlag
    } else {
        Tag::Identifier
    }
}

/// A tagged token of the stream: the 1-indexed line it came from, its raw
/// text, and its tag.
pub struct Token {
    pub line_number: usize,
    pub text: String,
    pub tag: Tag,
}

/// The mathematical value of a `Token`.
pub struct TokenView {
    pub line_number: int,
    pub text: Seq<char>,
    pub tag: Tag,
}

impl View for Token {
    type V = TokenView;

    open spec fn view(&self) -> TokenView {
        TokenView { line_number: self.line_number as int, text: self.text@, tag: self.tag }
    }
}

impl Clone for Token {
    /// A clone keeps the line number, the text and the tag.
    fn clone(&self) -> (r: Token)
        ensures
            r@ == self@,
    {
        Token { line_number: self.line_number, text: self.text.clone(), tag: self.tag }
    }
}

} // verus!
