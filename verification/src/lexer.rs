//! The lexer: a configurable scanner, the line-comment filter, the token
//! classifier, and the token stream builder that runs all three over a
//! sequence of input lines.

use vstd::prelude::*;

use crate::chars::{is_space, is_space_char, str_is_char};
use crate::scanning::{filter_comments, filter_from, first_token_len, lemma_run_len_range, marker_at, scan};
use crate::token::{check_number, punct_tag, tag_of, Tag, Token, TokenView};

verus! {

/// The views of a sequence of strings.
pub open spec fn str_views(s: Seq<String>) -> Seq<Seq<char>> {
    s.map_values(|x: String| x@)
}

/// The views of a sequence of string slices.
pub open spec fn str_slice_views(s: Seq<&str>) -> Seq<Seq<char>> {
    s.map_values(|x: &str| x@)
}

/// The views of a sequence of tokens.
pub open spec fn token_views(s: Seq<Token>) -> Seq<TokenView> {
    s.map_values(|t: Token| t@)
}

/// The token sequence of one line: the scan of the line with comments
/// dropped, each surviving raw token tagged and carrying the line's number.
pub open spec fn line_token_views(
    line: Seq<char>,
    n: int,
    bs: Seq<char>,
    kws: Seq<Seq<char>>,
) -> Seq<TokenView> {
    filter_comments(scan(line, bs)).map_values(
        |t: Seq<char>| TokenView { line_number: n, text: t, tag: tag_of(t, kws) },
    )
}

/// The token stream of a sequence of lines, lines numbered from 1.
pub open spec fn build_tokens(lines: Seq<Seq<char>>, bs: Seq<char>, kws: Seq<Seq<char>>) -> Seq<
    TokenView,
>
    decreases lines.len(),
{
    if lines.len() == 0 {
        Seq::empty()
    } else {
        build_tokens(lines.drop_last(), bs, kws) + line_token_views(
            lines.last(),
            lines.len() as int,
            bs,
            kws,
        )
    }
}

/// The lexer's configuration: the single-character symbol breakers and the
/// keyword set, immutable after construction.
pub struct Lexer {
    pub symbol_breakers: Vec<char>,
    pub keywords: Vec<String>,
}

impl Lexer {
    /// The keyword set as a sequence of character sequences.
    pub open spec fn keyword_views(&self) -> Seq<Seq<char>> {
        str_views(self.keywords@)
    }

    /// Builds a lexer from the breaker characters in `tokens` and the given
    /// keywords.
    pub fn new(tokens: &str, keywords: Vec<&str>) -> (l: Lexer)
        ensures
            l.symbol_breakers@ == tokens@,
            l.keyword_views() == str_slice_views(keywords@),
    {
        let n = tokens.unicode_len();
        let mut breakers: Vec<char> = Vec::new();
        let mut i: usize = 0;
        while i < n
            invariant
                i <= n,
                n == tokens@.len(),
                breakers@ == tokens@.take(i as int),
            decreases n - i,
        {
            let c = tokens.get_char(i);
            breakers.push(c);
            proof {
                assert(tokens@.take(i as int).push(tokens@[i as int]) =~= tokens@.take(
                    i as int + 1,
                ));
            }
            i += 1;
        }
        let m = keywords.len();
        let mut kws: Vec<String> = Vec::new();
        let mut j: usize = 0;
        while j < m
            invariant
                j <= m,
                m == keywords@.len(),
                str_views(kws@) == str_slice_views(keywords@).take(j as int),
            decreases m - j,
        {
            proof {
                assert(str_slice_views(keywords@).take(j as int).len() == j);
                assert(str_views(kws@).len() == kws@.len());
                assert(kws@.len() == j);
            }
            let k = keywords[j];
            let kw = k.to_owned();
            proof {
                assert(kw@ == str_slice_views(keywords@)[j as int]);
            }
            kws.push(kw);
            proof {
                assert forall|idx: int| 0 <= idx < j + 1 implies str_views(kws@)[idx]
                    == str_slice_views(keywords@).take(j as int + 1)[idx] by {
                    assert(str_views(kws@)[idx] == kws@[idx]@);
                }
                assert(str_views(kws@) =~= str_slice_views(keywords@).take(j as int + 1));
            }
            j += 1;
        }
        proof {
            assert(tokens@.take(n as int) =~= tokens@);
            assert(str_slice_views(keywords@).take(m as int) =~= str_slice_views(keywords@));
        }
        Lexer { symbol_breakers: breakers, keywords: kws }
    }

    /// True when `c` is one of the configured symbol breakers.
    pub fn is_breaker(&self, c: char) -> (r: bool)
        ensures
            r == self.symbol_breakers@.contains(c),
    {
        let n = self.symbol_breakers.len();
        let mut i: usize = 0;
        while i < n
            invariant
                i <= n,
                n == self.symbol_breakers@.len(),
                forall|k: int| 0 <= k < i ==> self.symbol_breakers@[k] != c,
            decreases n - i,
        {
            if self.symbol_breakers[i] == c {
                return true;
            }
            i += 1;
        }
        false
    }

    /// True when the keyword set holds `tok`.
    fn contains_keyword(&self, tok: &String) -> (r: bool)
        ensures
            r == self.keyword_views().contains(tok@),
    {
        let n = self.keywords.len();
        let mut i: usize = 0;
        while i < n
            invariant
                i <= n,
                n == self.keywords@.len(),
                forall|k: int| 0 <= k < i ==> self.keyword_views()[k] != tok@,
            decreases n - i,
        {
            if self.keywords[i].eq(tok) {
                proof {
                    assert(self.keyword_views()[i as int] == tok@);
                }
                return true;
            }
            i += 1;
        }
        false
    }

    /// Splits a line into raw tokens: whitespace separates tokens, a breaker
    /// character is a token of its own, and anything else extends a maximal
    /// run of plain characters.
    pub fn tokenize(&self, string: &str) -> (toks: Vec<String>)
        ensures
            str_views(toks@) == scan(string@, self.symbol_breakers@),
    {
        let ghost l = string@;
        let ghost bs = self.symbol_breakers@;
        let n = string.unicode_len();
        let mut toks: Vec<String> = Vec::new();
        proof {
            assert(str_views(toks@) =~= Seq::<Seq<char>>::empty());
            assert(l.skip(0) =~= l);
            assert(Seq::<Seq<char>>::empty() + scan(l, bs) =~= scan(l, bs));
        }
        let mut i: usize = 0;
        while i < n
            invariant
                i <= n,
                n == l.len(),
                l == string@,
                bs == self.symbol_breakers@,
                scan(l, bs) == str_views(toks@) + scan(l.skip(i as int), bs),
            decreases n - i,
        {
            let c = string.get_char(i);
            proof {
                assert(l.skip(i as int)[0] == l[i as int]);
            }
            if is_space(c) {
                proof {
                    assert(l.skip(i as int).skip(1) =~= l.skip(i as int + 1));
                }
                i += 1;
            } else if self.is_breaker(c) {
                let t = string.substring_char(i, i + 1).to_owned();
                proof {
                    assert(first_token_len(l.skip(i as int), bs) == 1);
                    assert(l.skip(i as int).take(1) =~= l.subrange(i as int, i as int + 1));
                    assert(l.skip(i as int).skip(1) =~= l.skip(i as int + 1));
                    assert(str_views(toks@.push(t)) =~= str_views(toks@).push(t@));
                    assert(str_views(toks@) + (seq![t@] + scan(l.skip(i as int + 1), bs))
                        =~= str_views(toks@).push(t@) + scan(l.skip(i as int + 1), bs));
                }
                toks.push(t);
                i += 1;
            } else {
                let mut j: usize = i + 1;
                let mut stop = false;
                while j < n && !stop
                    invariant
                        i < j <= n,
                        n == l.len(),
                        l == string@,
                        bs == self.symbol_breakers@,
                        forall|k: int| i < k < j ==> !is_space_char(l[k]) && !bs.contains(l[k]),
                        stop ==> j < n && (is_space_char(l[j as int]) || bs.contains(l[j as int])),
                    decreases n - j + (if stop { 0int } else { 1int }),
                {
                    let c2 = string.get_char(j);
                    if is_space(c2) || self.is_breaker(c2) {
                        stop = true;
                    } else {
                        j += 1;
                    }
                }
                let t = string.substring_char(i, j).to_owned();
                proof {
                    assert(l.skip(i as int).skip(1) =~= l.skip(i as int + 1));
                    lemma_run_len_range(l, bs, i as int + 1, j as int);
                    assert(first_token_len(l.skip(i as int), bs) == j - i);
                    assert(l.skip(i as int).take(j - i) =~= l.subrange(i as int, j as int));
                    assert(l.skip(i as int).skip(j - i) =~= l.skip(j as int));
                    assert(str_views(toks@.push(t)) =~= str_views(toks@).push(t@));
                    assert(str_views(toks@) + (seq![t@] + scan(l.skip(j as int), bs)) =~= str_views(
                        toks@,
                    ).push(t@) + scan(l.skip(j as int), bs));
                }
                toks.push(t);
                i = j;
            }
        }
        proof {
            assert(l.skip(n as int) =~= Seq::<char>::empty());
            assert(scan(l.skip(n as int), bs) =~= Seq::<Seq<char>>::empty());
            assert(str_views(toks@) + Seq::<Seq<char>>::empty() =~= str_views(toks@));
        }
        toks
    }

    /// Cuts the token sequence at the first line-comment marker (a `/` token
    /// followed immediately by another `/` token); without a marker the
    /// sequence comes back unchanged.
    #[verifier::loop_isolation(false)]
    pub fn filter_line_comments(&self, tokens: Vec<String>) -> (r: Vec<String>)
        ensures
            str_views(r@) == filter_comments(str_views(tokens@)),
    {
        let ghost v = str_views(tokens@);
        let mut toks = tokens;
        let n = toks.len();
        let mut s: usize = 0;
        while s < n
            invariant
                s <= n,
                n == toks@.len(),
                v == str_views(toks@),
                filter_comments(v) == filter_from(v, s as int),
            decreases n - s,
        {
            if s + 1 < n && str_is_char(toks[s].as_str(), '/') && str_is_char(
                toks[s + 1].as_str(),
                '/',
            ) {
                proof {
                    assert(marker_at(v, s as int));
                }
                toks.truncate(s);
                proof {
                    assert(str_views(toks@) =~= v.take(s as int));
                    assert(filter_from(v, s as int) == v.take(s as int));
                    assert(str_views(toks@) == filter_comments(v));
                }
                return toks;
            }
            proof {
                assert(!marker_at(v, s as int));
            }
            s += 1;
        }
        toks
    }

    /// Tags one raw token: a base-10 integer literal is a `Number`, a
    /// single-character token gets its punctuation tag, a longer token in
    /// the keyword set is a `KeywordFlag`, and anything else is an
    /// `Identifier`.
    pub fn determine_tag(&self, token: String) -> (t: Tag)
        ensures
            t == tag_of(token@, self.keyword_views()),
    {
        if check_number(token.as_str()) {
            return Tag::Number;
        }
        if token.as_str().unicode_len() == 1 {
            let c = token.as_str().get_char(0);
            return punct_of(c);
        }
        if self.contains_keyword(&token) {
            return Tag::KeywordFlag;
        }
        Tag::Identifier
    }

    /// Runs scanner, comment filter and classifier over each line (numbered
    /// from 1) and emits the resulting tagged token stream.
    pub fn tokenize_lines(&self, lines: &Vec<String>) -> (out: Vec<Token>)
        ensures
            token_views(out@) == build_tokens(
                str_views(lines@),
                self.symbol_breakers@,
                self.keyword_views(),
            ),
    {
        let ghost v = str_views(lines@);
        let ghost bs = self.symbol_breakers@;
        let ghost kws = self.keyword_views();
        let n = lines.len();
        let mut out: Vec<Token> = Vec::new();
        proof {
            assert(token_views(out@) =~= Seq::<TokenView>::empty());
            assert(v.take(0) =~= Seq::<Seq<char>>::empty());
            assert(build_tokens(v.take(0), bs, kws) =~= Seq::<TokenView>::empty());
        }
        let mut s: usize = 0;
        while s < n
            invariant
                s <= n,
                n == v.len(),
                v == str_views(lines@),
                bs == self.symbol_breakers@,
                kws == self.keyword_views(),
                token_views(out@) == build_tokens(v.take(s as int), bs, kws),
            decreases n - s,
        {
            let raw = self.tokenize(lines[s].as_str());
            let filtered = self.filter_line_comments(raw);
            let ghost lv = line_token_views(v[s as int], s as int + 1, bs, kws);
            proof {
                assert(str_views(filtered@) == filter_comments(scan(v[s as int], bs)));
            }
            let m = filtered.len();
            let mut k: usize = 0;
            while k < m
                invariant
                    k <= m,
                    m == filtered@.len(),
                    str_views(filtered@) == filter_comments(scan(v[s as int], bs)),
                    lv == line_token_views(v[s as int], s as int + 1, bs, kws),
                    bs == self.symbol_breakers@,
                    kws == self.keyword_views(),
                    s < n,
                    n == v.len(),
                    v == str_views(lines@),
                    token_views(out@) == build_tokens(v.take(s as int), bs, kws) + lv.take(
                        k as int,
                    ),
                decreases m - k,
            {
                let text = filtered[k].clone();
                let tag = self.determine_tag(filtered[k].clone());
                let tok = Token { line_number: s + 1, text, tag };
                proof {
                    assert(lv[k as int] == tok@);
                    assert(lv.take(k as int).push(lv[k as int]) =~= lv.take(k as int + 1));
                    assert(token_views(out@.push(tok)) =~= token_views(out@).push(tok@));
                    assert((build_tokens(v.take(s as int), bs, kws) + lv.take(k as int)).push(
                        lv[k as int],
                    ) =~= build_tokens(v.take(s as int), bs, kws) + lv.take(k as int + 1));
                }
                out.push(tok);
                k += 1;
            }
            proof {
                assert(lv.take(m as int) =~= lv);
                assert(v.take(s as int + 1).drop_last() =~= v.take(s as int));
                assert(v.take(s as int + 1).last() == v[s as int]);
                assert(v.take(s as int + 1).len() == s + 1);
                assert(build_tokens(v.take(s as int + 1), bs, kws) == build_tokens(
                    v.take(s as int),
                    bs,
                    kws,
                ) + lv);
            }
            s += 1;
        }
        proof {
            assert(v.take(n as int) =~= v);
        }
        out
    }
}

/// The punctuation tag of a single character.
pub fn punct_of(c: char) -> (t: Tag)
    ensures
        t == punct_tag(c),
{
    match c {
        '(' => Tag::LeftParen,
        ')' => Tag::RightParen,
        '{' => Tag::LeftBrace,
        '}' => Tag::RightBrace,
        '[' => Tag::LeftBracket,
        ']' => Tag::RightBracket,
        '?' => Tag::QuestionMark,
        '/' => Tag::ForwardSlash,
        '<' => Tag::LessThan,
        '>' => Tag::GreaterThan,
        '*' => Tag::Asterisk,
        '+' => Tag::Plus,
        '-' => Tag::Minus,
        '=' => Tag::Equals,
        '\'' => Tag::SingleQuote,
        '"' => Tag::DoubleQuote,
        '\\' => Tag::Backslash,
        ';' => Tag::Semicolon,
        ':' => Tag::Colon,
        '&' => Tag::Ampersand,
        _ => Tag::Identifier,
    }
}

} // verus!
