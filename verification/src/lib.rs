//! A small lexical analyzer and two recursive-descent parsers.
//!
//! The lexer splits lines of text into raw tokens around a configurable set
//! of single-character symbol breakers, drops line comments, and tags every
//! surviving token. The two parsers validate token sequences against fixed
//! grammars: prefix expressions (`S -> + S S | - S S | a`) with fail-fast
//! errors, and balanced brackets (`S -> 0 E 1`, `E -> S | empty`) with a
//! permissive, report-at-the-end error policy.

pub mod chars;
pub mod scanning;
pub mod token;
pub mod lexer;
pub mod prefix;
pub mod brackets;
