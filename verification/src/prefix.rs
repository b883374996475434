//! Recursive-descent parser for prefix expressions over the grammar
//! `S -> '+' S S | '-' S S | 'a'`, with fail-fast error semantics: the first
//! unexpected token aborts the parse with a `SyntaxError`.

use vstd::prelude::*;

use crate::chars::{str_eq, str_is_char};
use crate::lexer::str_views;

verus! {

/// The fatal parse error of the prefix parser. It carries no detail beyond
/// "syntax error".
#[derive(Clone, Copy, PartialEq, Eq, Structural, Debug)]
pub struct SyntaxError;

/// One derivation step of the prefix grammar starting at `pos`: `Some(p)`
/// when a statement parses and consumes the tokens up to `p` (an absent
/// lookahead is accepted as the empty base case), `None` on the first
/// unexpected token.
pub open spec fn prefix_stmt(toks: Seq<Seq<char>>, pos: int) -> Option<int>
    decreases toks.len() - pos,
{
    if pos < 0 || pos >= toks.len() {
        Option::Some(pos)
    } else if toks[pos] == seq!['+'] || toks[pos] == seq!['-'] {
        match prefix_stmt(toks, pos + 1) {
            Option::None => Option::None,
            // The range test keeps the recursion well founded; it never
            // fails, since a parsed statement never rewinds and never runs
            // past the input (lemma_prefix_stmt_bounds).
            Option::Some(p1) => if p1 < pos + 1 || p1 > toks.len() {
                Option::None
            } else {
                prefix_stmt(toks, p1)
            },
        }
    } else if toks[pos] == seq!['a'] {
        Option::Some(pos + 1)
    } else {
        Option::None
    }
}

/// A parsed statement never rewinds and never runs past the input.
pub proof fn lemma_prefix_stmt_bounds(toks: Seq<Seq<char>>, pos: int)
    requires
        0 <= pos <= toks.len(),
    ensures
        match prefix_stmt(toks, pos) {
            Option::Some(p) => pos <= p <= toks.len(),
            Option::None => true,
        },
    decreases toks.len() - pos,
{
    if pos < toks.len() && (toks[pos] == seq!['+'] || toks[pos] == seq!['-']) {
        lemma_prefix_stmt_bounds(toks, pos + 1);
        match prefix_stmt(toks, pos + 1) {
            Option::None => {},
            Option::Some(p1) => {
                if pos + 1 <= p1 <= toks.len() {
                    lemma_prefix_stmt_bounds(toks, p1);
                }
            },
        }
    }
}

/// The prefix parser's state: the token arena and a cursor. The lookahead is
/// the token under the cursor; it is absent exactly when the cursor has
/// passed the last token.
pub struct PrefixRDP {
    pub tokens: Vec<String>,
    pub pos: usize,
}

impl PrefixRDP {
    /// The token texts the parser was built over.
    pub open spec fn toks(&self) -> Seq<Seq<char>> {
        str_views(self.tokens@)
    }

    /// The cursor never passes the end of the arena.
    pub open spec fn wf(&self) -> bool {
        self.pos <= self.tokens@.len()
    }

    /// The current lookahead: the token under the cursor, absent when input
    /// is exhausted.
    pub open spec fn lookahead_view(&self) -> Option<Seq<char>> {
        if self.pos < self.tokens@.len() {
            Option::Some(self.toks()[self.pos as int])
        } else {
            Option::None
        }
    }

    /// Builds a parser whose lookahead is the first token of `tokens`.
    pub fn new(tokens: Vec<String>) -> (p: PrefixRDP)
        ensures
            p.wf(),
            p.toks() == str_views(tokens@),
            p.pos == 0,
    {
        PrefixRDP { tokens, pos: 0 }
    }

    /// Parses one statement of the grammar `S -> '+' S S | '-' S S | 'a'`
    /// at the cursor. An absent lookahead is accepted (the empty base case);
    /// the first unexpected token is a fatal `SyntaxError`.
    pub fn stmt(&mut self) -> (r: Result<(), SyntaxError>)
        requires
            old(self).wf(),
        ensures
            final(self).wf(),
            final(self).tokens == old(self).tokens,
            old(self).pos <= final(self).pos,
            r is Ok <==> prefix_stmt(old(self).toks(), old(self).pos as int) is Some,
            r is Ok ==> Option::Some(final(self).pos as int) == prefix_stmt(
                old(self).toks(),
                old(self).pos as int,
            ),
        decreases self.tokens@.len() - self.pos,
    {
        let ghost t0 = self.toks();
        let ghost p0 = self.pos as int;
        if self.pos >= self.tokens.len() {
            return Ok(());
        }
        let is_plus = str_is_char(self.tokens[self.pos].as_str(), '+');
        let is_minus = str_is_char(self.tokens[self.pos].as_str(), '-');
        if is_plus || is_minus {
            proof {
                reveal_strlit("+");
                reveal_strlit("-");
                assert("+"@ =~= seq!['+']);
                assert("-"@ =~= seq!['-']);
            }
            let outcome = if is_plus {
                self._match("+")
            } else {
                self._match("-")
            };
            proof {
                assert(outcome is Ok && self.pos == p0 + 1);
            }
            let first = self.stmt();
            if first.is_err() {
                return Err(SyntaxError);
            }
            proof {
                lemma_prefix_stmt_bounds(t0, p0 + 1);
            }
            let second = self.stmt();
            if second.is_err() {
                return Err(SyntaxError);
            }
            Ok(())
        } else if str_is_char(self.tokens[self.pos].as_str(), 'a') {
            proof {
                reveal_strlit("a");
                assert("a"@ =~= seq!['a']);
            }
            let outcome = self._match("a");
            proof {
                assert(outcome is Ok);
            }
            Ok(())
        } else {
            Err(SyntaxError)
        }
    }

    /// The prefix grammar has no optional production; this is a no-op kept
    /// for symmetry with the bracket parser.
    pub fn optexpr(&self) {
    }

    /// Fail-fast match: when the lookahead equals `string` the cursor
    /// advances; anything else (an absent lookahead included) is a fatal
    /// `SyntaxError`.
    pub fn _match(&mut self, string: &str) -> (r: Result<(), SyntaxError>)
        requires
            old(self).wf(),
        ensures
            final(self).wf(),
            final(self).tokens == old(self).tokens,
            r is Ok <==> old(self).lookahead_view() == Option::<Seq<char>>::Some(string@),
            r is Ok ==> final(self).pos == old(self).pos + 1,
            r is Err ==> final(self).pos == old(self).pos,
    {
        if self.pos < self.tokens.len() && str_eq(self.tokens[self.pos].as_str(), string) {
            self.pos = self.pos + 1;
            Ok(())
        } else {
            Err(SyntaxError)
        }
    }
}

} // verus!
