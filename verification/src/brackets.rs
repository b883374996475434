//! Recursive-descent parser for the balanced bracket grammar
//! `S -> '0' E '1'`, `E -> S | empty`, with permissive error semantics: a
//! mismatch never aborts; the only failure surfaced is leftover input after
//! the top-level parse.

use vstd::prelude::*;

use crate::chars::{str_eq, str_is_char};
use crate::lexer::str_views;

verus! {

/// Cursor position after one statement of the bracket grammar at `pos`: a
/// leading `'0'` is consumed, an optional expression follows, then a `'1'`
/// is consumed when present. Any other lookahead (an absent one included)
/// leaves the cursor alone; this parser never fails.
pub open spec fn bracket_stmt(toks: Seq<Seq<char>>, pos: int) -> int
    decreases toks.len() - pos, 0int,
{
    if pos < 0 || pos >= toks.len() {
        pos
    } else if toks[pos] == seq!['0'] {
        let p1 = bracket_optexpr(toks, pos + 1);
        if 0 <= p1 < toks.len() && toks[p1] == seq!['1'] {
            p1 + 1
        } else {
            p1
        }
    } else {
        pos
    }
}

/// Cursor position after the optional expression at `pos`: a nested
/// statement when the lookahead is `'0'`, the empty production otherwise.
pub open spec fn bracket_optexpr(toks: Seq<Seq<char>>, pos: int) -> int
    decreases toks.len() - pos, 1int,
{
    if 0 <= pos < toks.len() && toks[pos] == seq!['0'] {
        bracket_stmt(toks, pos)
    } else {
        pos
    }
}

/// The bracket parser never rewinds and never runs past the input.
pub proof fn lemma_bracket_stmt_bounds(toks: Seq<Seq<char>>, pos: int)
    requires
        0 <= pos <= toks.len(),
    ensures
        pos <= bracket_stmt(toks, pos) <= toks.len(),
    decreases toks.len() - pos, 0int,
{
    if pos < toks.len() && toks[pos] == seq!['0'] {
        lemma_bracket_optexpr_bounds(toks, pos + 1);
    }
}

/// The optional expression never rewinds and never runs past the input.
pub proof fn lemma_bracket_optexpr_bounds(toks: Seq<Seq<char>>, pos: int)
    requires
        0 <= pos <= toks.len(),
    ensures
        pos <= bracket_optexpr(toks, pos) <= toks.len(),
    decreases toks.len() - pos, 1int,
{
    if 0 <= pos < toks.len() && toks[pos] == seq!['0'] {
        lemma_bracket_stmt_bounds(toks, pos);
    }
}

/// The bracket parser's state: the token arena and a cursor. The lookahead
/// is the token under the cursor; it is absent exactly when the cursor has
/// passed the last token.
pub struct ZeroOneRDP {
    pub tokens: Vec<String>,
    pub pos: usize,
}

impl ZeroOneRDP {
    /// The token texts the parser was built over.
    pub open spec fn toks(&self) -> Seq<Seq<char>> {
        str_views(self.tokens@)
    }

    /// The cursor never passes the end of the arena.
    pub open spec fn wf(&self) -> bool {
        self.pos <= self.tokens@.len()
    }

    /// The current lookahead: the token under the cursor, absent when input
    /// is exhausted.
    pub open spec fn lookahead_view(&self) -> Option<Seq<char>> {
        if self.pos < self.tokens@.len() {
            Option::Some(self.toks()[self.pos as int])
        } else {
            Option::None
        }
    }

    /// Builds a parser whose lookahead is the first token of `tokens`.
    pub fn new(tokens: Vec<String>) -> (p: ZeroOneRDP)
        ensures
            p.wf(),
            p.toks() == str_views(tokens@),
            p.pos == 0,
    {
        ZeroOneRDP { tokens, pos: 0 }
    }

    /// Top-level parse: runs one statement, then accepts exactly when no
    /// lookahead is left; leftover input is the reported syntax error.
    pub fn parse(&mut self) -> (accepted: bool)
        requires
            old(self).wf(),
        ensures
            final(self).wf(),
            final(self).tokens == old(self).tokens,
            final(self).pos as int == bracket_stmt(old(self).toks(), old(self).pos as int),
            accepted <==> final(self).lookahead_view() is None,
    {
        self.stmt();
        self.pos == self.tokens.len()
    }

    /// One statement of the grammar `S -> '0' E '1'`: consumes a leading
    /// `'0'`, an optional expression, and a closing `'1'` when present. Any
    /// other lookahead is left for the caller; nothing fails here.
    pub fn stmt(&mut self)
        requires
            old(self).wf(),
        ensures
            final(self).wf(),
            final(self).tokens == old(self).tokens,
            final(self).pos as int == bracket_stmt(old(self).toks(), old(self).pos as int),
        decreases self.tokens@.len() - self.pos, 0int,
    {
        let ghost t0 = self.toks();
        let ghost p0 = self.pos as int;
        if self.pos >= self.tokens.len() {
            return;
        }
        if str_is_char(self.tokens[self.pos].as_str(), '0') {
            proof {
                reveal_strlit("0");
                reveal_strlit("1");
                assert("0"@ =~= seq!['0']);
                assert("1"@ =~= seq!['1']);
            }
            self._match("0");
            self.optexpr();
            proof {
                lemma_bracket_optexpr_bounds(t0, p0 + 1);
            }
            self._match("1");
        }
    }

    /// The optional production `E -> S | empty`: parses a nested statement
    /// when the lookahead is `'0'`, does nothing otherwise.
    pub fn optexpr(&mut self)
        requires
            old(self).wf(),
        ensures
            final(self).wf(),
            final(self).tokens == old(self).tokens,
            final(self).pos as int == bracket_optexpr(old(self).toks(), old(self).pos as int),
        decreases self.tokens@.len() - self.pos, 1int,
    {
        if self.pos < self.tokens.len() && str_is_char(self.tokens[self.pos].as_str(), '0') {
            proof {
                reveal_strlit("0");
                assert("0"@ =~= seq!['0']);
            }
            self.stmt();
        }
    }

    /// Permissive match: when the lookahead equals `string` the cursor
    /// advances; anything else (an absent lookahead included) is silently
    /// tolerated and the cursor stays put.
    pub fn _match(&mut self, string: &str)
        requires
            old(self).wf(),
        ensures
            final(self).wf(),
            final(self).tokens == old(self).tokens,
            old(self).lookahead_view() == Option::<Seq<char>>::Some(string@) ==> final(self).pos
                == old(self).pos + 1,
            old(self).lookahead_view() != Option::<Seq<char>>::Some(string@) ==> final(self).pos
                == old(self).pos,
    {
        if self.pos < self.tokens.len() && str_eq(self.tokens[self.pos].as_str(), string) {
            self.pos = self.pos + 1;
        }
    }
}

} // verus!
