//! The lexical units of CalcLang.

use vstd::prelude::*;

verus! {

/// One classified lexical unit.
#[derive(Debug, Clone, Copy, PartialEq, Eq, Structural)]
pub enum Token {
    /// A run of decimal digits, read as a number. A number too large for 64
    /// bits is read as `i64::MAX`.
    Integer(i64),
    /// `+`
    Addition,
    /// `-`
    Subtraction,
    /// `*`
    Multiplication,
    /// `/`
    Division,
    /// `%`
    Modulus,
    /// `^`
    Exponent,
    /// `=`
    Assignment,
    /// `;`
    Terminator,
    /// The reserved word `quit`.
    Quit,
    /// A one-letter identifier, `a` to `z`.
    Variable(char),
    /// Any character that belongs to no other token, kept as it was read.
    Unknown(char),
}

} // verus!
