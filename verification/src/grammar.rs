//! The lexical grammar of CalcLang, as mathematics.
//!
//! A text is a sequence of characters. Reading from the left, each lexeme is
//! the longest one that starts at the current position: a maximal run of
//! decimal digits, the reserved word `quit`, or a single character. The
//! functions here say, for every text, which tokens it holds; nothing in this
//! file is executable.

use vstd::prelude::*;
use crate::token::Token;

verus! {

/// Space, tab, carriage return and line feed separate lexemes and yield no
/// token.
pub open spec fn is_blank(c: char) -> bool {
    c == ' ' || c == '\t' || c == '\r' || c == '\n'
}

/// The decimal digits `0` to `9`.
pub open spec fn is_digit(c: char) -> bool {
    '0' <= c && c <= '9'
}

/// The lowercase letters `a` to `z`.
pub open spec fn is_letter(c: char) -> bool {
    'a' <= c && c <= 'z'
}

/// The number that a single decimal digit stands for.
pub open spec fn digit_value(c: char) -> nat
    recommends
        is_digit(c),
{
    (c as int - '0' as int) as nat
}

/// The token of a single-character operator or punctuation mark, if `c` is
/// one.
pub open spec fn symbol_token(c: char) -> Option<Token> {
    if c == '+' {
        Some(Token::Addition)
    } else if c == '-' {
        Some(Token::Subtraction)
    } else if c == '*' {
        Some(Token::Multiplication)
    } else if c == '/' {
        Some(Token::Division)
    } else if c == '%' {
        Some(Token::Modulus)
    } else if c == '^' {
        Some(Token::Exponent)
    } else if c == '=' {
        Some(Token::Assignment)
    } else if c == ';' {
        Some(Token::Terminator)
    } else {
        None
    }
}

/// The number written by a string of decimal digits, most significant digit
/// first. It has no upper bound.
pub open spec fn decimal_value(digits: Seq<char>) -> nat
    decreases digits.len(),
{
    if digits.len() == 0 {
        0
    } else {
        10 * decimal_value(digits.drop_last()) + digit_value(digits.last())
    }
}

/// The value that an `Integer` token carries for a literal that denotes `n`:
/// `n` itself where it fits, and otherwise the largest value there is. A
/// literal too large for 64 bits is clamped, never wrapped around.
pub open spec fn clamp_literal(n: nat) -> i64 {
    if n <= i64::MAX {
        n as i64
    } else {
        i64::MAX
    }
}

/// The position just behind the maximal run of decimal digits that starts at
/// `i`; `i` itself where no digit stands at `i`.
pub open spec fn digits_end(text: Seq<char>, i: int) -> int
    decreases text.len() - i,
{
    if 0 <= i < text.len() && is_digit(text[i]) {
        digits_end(text, i + 1)
    } else {
        i
    }
}

/// Whether the reserved word `quit` stands at position `i`.
pub open spec fn quit_at(text: Seq<char>, i: int) -> bool {
    &&& 0 <= i
    &&& i + 4 <= text.len()
    &&& text[i] == 'q'
    &&& text[i + 1] == 'u'
    &&& text[i + 2] == 'i'
    &&& text[i + 3] == 't'
}

/// The position just behind the lexeme that starts at `i`.
///
/// A digit starts a maximal run of digits. A `q` starts the reserved word
/// only where all of `quit` follows; where it does not, the `q` stands alone
/// and the letters behind it are lexemes of their own.
pub open spec fn lexeme_end(text: Seq<char>, i: int) -> int
    recommends
        0 <= i < text.len(),
{
    if is_digit(text[i]) {
        digits_end(text, i)
    } else if quit_at(text, i) {
        i + 4
    } else {
        i + 1
    }
}

/// The token of a character that is a lexeme by itself: none for a blank, a
/// variable for a letter, the operator or punctuation mark that it writes,
/// and `Unknown` for everything else.
pub open spec fn char_token(c: char) -> Option<Token> {
    if is_blank(c) {
        None
    } else if is_letter(c) {
        Some(Token::Variable(c))
    } else if symbol_token(c) is Some {
        symbol_token(c)
    } else {
        Some(Token::Unknown(c))
    }
}

/// The value of the integer literal that starts at `i`.
pub open spec fn literal_at(text: Seq<char>, i: int) -> i64
    recommends
        0 <= i < text.len(),
        is_digit(text[i]),
{
    clamp_literal(decimal_value(text.subrange(i, digits_end(text, i))))
}

/// The token of the lexeme that starts at `i`; `None` for a blank.
pub open spec fn lexeme_token(text: Seq<char>, i: int) -> Option<Token>
    recommends
        0 <= i < text.len(),
{
    if is_digit(text[i]) {
        Some(Token::Integer(literal_at(text, i)))
    } else if quit_at(text, i) {
        Some(Token::Quit)
    } else {
        char_token(text[i])
    }
}

/// The tokens of `text` from position `i` to its end, in the order in which
/// they stand.
pub open spec fn tokens_from(text: Seq<char>, i: int) -> Seq<Token>
    decreases text.len() - i,
    via tokens_from_terminates
{
    if 0 <= i < text.len() {
        let rest = tokens_from(text, lexeme_end(text, i));
        match lexeme_token(text, i) {
            Some(t) => seq![t] + rest,
            None => rest,
        }
    } else {
        Seq::empty()
    }
}

/// Each lexeme ends behind its start, so `tokens_from` comes nearer to the end
/// of the text with every lexeme.
#[via_fn]
proof fn tokens_from_terminates(text: Seq<char>, i: int) {
    if 0 <= i < text.len() {
        lemma_lexeme_end_bounds(text, i);
    }
}

/// The tokens of a whole text.
pub open spec fn tokenize(text: Seq<char>) -> Seq<Token> {
    tokens_from(text, 0)
}

/// A run of digits ends at or behind the position where it starts, and inside
/// the text; it is not empty where a digit stands at its start.
pub proof fn lemma_digits_end_bounds(text: Seq<char>, i: int)
    requires
        0 <= i <= text.len(),
    ensures
        i <= digits_end(text, i) <= text.len(),
        i < text.len() && is_digit(text[i]) ==> i < digits_end(text, i),
    decreases text.len() - i,
{
    if i < text.len() && is_digit(text[i]) {
        lemma_digits_end_bounds(text, i + 1);
    }
}

/// Every lexeme holds at least one character and ends inside the text.
pub proof fn lemma_lexeme_end_bounds(text: Seq<char>, i: int)
    requires
        0 <= i < text.len(),
    ensures
        i < lexeme_end(text, i) <= text.len(),
{
    lemma_digits_end_bounds(text, i);
}

/// From any position on, a text holds no more tokens than characters.
pub proof fn lemma_tokens_from_bounded(text: Seq<char>, i: int)
    requires
        0 <= i <= text.len(),
    ensures
        tokens_from(text, i).len() <= text.len() - i,
    decreases text.len() - i,
{
    if i < text.len() {
        lemma_lexeme_end_bounds(text, i);
        lemma_tokens_from_bounded(text, lexeme_end(text, i));
    }
}

/// No text holds more tokens than characters: every token takes at least one
/// character of its own, and blanks take one each and give none.
pub proof fn lemma_token_count_bounded(text: Seq<char>)
    ensures
        tokenize(text).len() <= text.len(),
{
    lemma_tokens_from_bounded(text, 0);
}

/// The tokens of a text are determined by its characters alone: two texts
/// that agree character by character have the same tokens.
pub proof fn lemma_equal_texts_equal_tokens(a: Seq<char>, b: Seq<char>)
    requires
        a.len() == b.len(),
        forall|i: int| 0 <= i < a.len() ==> a[i] == b[i],
    ensures
        tokenize(a) == tokenize(b),
{
    assert(a =~= b);
}

} // verus!
