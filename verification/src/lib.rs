//! A lexical scanner for CalcLang, a minimal calculator language.
//!
//! The scanner turns a text into the sequence of its tokens in a single
//! left-to-right pass. What that sequence is, for every text, is defined by
//! the spec function [`grammar::tokenize`]; the executable scanner in
//! [`scanner`] is proved to compute exactly that sequence.
//!
//! Scanning never fails. A character that belongs to no token is kept as
//! [`token::Token::Unknown`]. An integer literal too large for 64 bits is
//! clamped to `i64::MAX`. A scanner runs its pass once: calling
//! [`scanner::Scanner::scan`] again leaves the tokens as they are.

pub mod grammar;
pub mod scanner;
pub mod token;
