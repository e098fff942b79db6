//! The scanner: it owns a text and, in one pass over it, produces the text's
//! tokens.
//!
//! A [`Scanner`] is built from a text, scanned once, and read. Its contracts
//! speak of a [`ScannerModel`]: the text, the tokens produced so far and the
//! place in the scanner's life.

use vstd::prelude::*;
use crate::grammar::{
    char_token, clamp_literal, decimal_value, digit_value, digits_end, is_digit,
    lemma_equal_texts_equal_tokens, lemma_token_count_bounded, literal_at, quit_at, tokenize,
    tokens_from,
};
use crate::token::Token;

verus! {

/// Where a scanner stands in its life. It only ever moves forward:
/// `NotStarted`, then `InProgress` while the pass runs, then `Done`.
#[derive(Debug, Clone, Copy, PartialEq, Eq, Structural)]
pub enum ScannerState {
    /// Built, not scanned yet: no tokens.
    NotStarted,
    /// The pass is running.
    InProgress,
    /// The pass is over: the tokens are those of the whole text.
    Done,
}

/// What a scanner is to its callers: the text it was built from, the tokens it
/// has produced so far, and its place in its life.
pub struct ScannerModel {
    pub text: Seq<char>,
    pub tokens: Seq<Token>,
    pub state: ScannerState,
}

impl ScannerModel {
    /// A scanner just built from `text`.
    pub open spec fn fresh(text: Seq<char>) -> ScannerModel {
        ScannerModel { text, tokens: Seq::empty(), state: ScannerState::NotStarted }
    }

    /// What one run of the pass makes of a scanner. A scanner that has not
    /// started gets the tokens of its text and is done. On any other the pass
    /// does nothing: tokens are never produced twice.
    pub open spec fn scanned(self) -> ScannerModel {
        if self.state is NotStarted {
            ScannerModel { text: self.text, tokens: tokenize(self.text), state: ScannerState::Done }
        } else {
            self
        }
    }

    /// What holds of every scanner at all times: its tokens are the first
    /// tokens of its text, none of them before the pass and all of them after
    /// it.
    pub open spec fn consistent(self) -> bool {
        &&& self.tokens.is_prefix_of(tokenize(self.text))
        &&& self.state is NotStarted ==> self.tokens.len() == 0
        &&& self.state is Done ==> self.tokens == tokenize(self.text)
    }

    /// A scanner never holds more tokens than its text has characters, in any
    /// state.
    pub proof fn lemma_consistent_bounded(self)
        requires
            self.consistent(),
        ensures
            self.tokens.len() <= self.text.len(),
    {
        lemma_token_count_bounded(self.text);
    }

    /// What holds of every scanner holds of one just built, and the pass
    /// keeps it.
    pub proof fn lemma_consistency_kept(self)
        requires
            self.consistent(),
        ensures
            ScannerModel::fresh(self.text).consistent(),
            self.scanned().consistent(),
    {
    }

    /// The pass runs once: a second run on the same scanner changes nothing,
    /// so no token is ever produced twice.
    pub proof fn lemma_scanned_twice(self)
        ensures
            self.scanned().scanned() == self.scanned(),
    {
    }

    /// Two scanners just built from texts that agree character by character
    /// hold the same tokens after the pass.
    pub proof fn lemma_scan_deterministic(a: Seq<char>, b: Seq<char>)
        requires
            a.len() == b.len(),
            forall|i: int| 0 <= i < a.len() ==> a[i] == b[i],
        ensures
            ScannerModel::fresh(a).scanned().tokens == ScannerModel::fresh(b).scanned().tokens,
    {
        lemma_equal_texts_equal_tokens(a, b);
    }
}

/// The characters of a text, in order, for reading by position.
fn characters(text: &str) -> (chars: Vec<char>)
    ensures
        chars@ == text@,
{
    broadcast use vstd::string::group_string_axioms;

    let mut chars: Vec<char> = Vec::new();
    for c in iter: text.chars()
        invariant
            iter.seq() == text@,
            chars@ == text@.take(iter.index()),
    {
        chars.push(c);
    }
    chars
}

/// Whether `c` is a decimal digit.
fn is_decimal(c: char) -> (yes: bool)
    ensures
        yes == is_digit(c),
{
    '0' <= c && c <= '9'
}

/// Reads the integer literal that starts at `start`: the position behind its
/// last digit, and its value, clamped where it does not fit.
fn read_integer(chars: &Vec<char>, start: usize) -> (read: (i64, usize))
    requires
        start < chars.len(),
        is_digit(chars[start as int]),
    ensures
        read.0 == literal_at(chars@, start as int),
        read.1 == digits_end(chars@, start as int),
        start < read.1 <= chars.len(),
{
    let mut value: i64 = 0;
    let mut i: usize = start;
    while i < chars.len() && is_decimal(chars[i])
        invariant
            start <= i <= chars.len(),
            is_digit(chars[start as int]),
            digits_end(chars@, start as int) == digits_end(chars@, i as int),
            value == clamp_literal(decimal_value(chars@.subrange(start as int, i as int))),
        decreases chars.len() - i,
    {
        let digit: i64 = (chars[i] as u32 - '0' as u32) as i64;
        proof {
            let run = chars@.subrange(start as int, i + 1);
            assert(run.drop_last() == chars@.subrange(start as int, i as int));
            assert(digit == digit_value(run.last()));
        }
        value = if value > (i64::MAX - digit) / 10 {
            i64::MAX
        } else {
            value * 10 + digit
        };
        i += 1;
    }
    (value, i)
}

/// Whether the reserved word `quit` stands at `start`.
fn quit_follows(chars: &Vec<char>, start: usize) -> (found: bool)
    requires
        start <= chars.len(),
    ensures
        found == quit_at(chars@, start as int),
{
    chars.len() - start >= 4 && chars[start] == 'q' && chars[start + 1] == 'u' && chars[start + 2]
        == 'i' && chars[start + 3] == 't'
}

/// The token of a character that is a lexeme by itself.
fn classify(c: char) -> (token: Option<Token>)
    ensures
        token == char_token(c),
{
    match c {
        '+' => Some(Token::Addition),
        '-' => Some(Token::Subtraction),
        '*' => Some(Token::Multiplication),
        '/' => Some(Token::Division),
        '%' => Some(Token::Modulus),
        '^' => Some(Token::Exponent),
        '=' => Some(Token::Assignment),
        ';' => Some(Token::Terminator),
        ' ' | '\r' | '\n' | '\t' => None,
        'a'..='z' => Some(Token::Variable(c)),
        _ => Some(Token::Unknown(c)),
    }
}

/// A one-shot lexical scanner over a text that it owns.
pub struct Scanner {
    input: String,
    output: Vec<Token>,
    state: ScannerState,
}

impl View for Scanner {
    type V = ScannerModel;

    closed spec fn view(&self) -> ScannerModel {
        ScannerModel { text: self.input@, tokens: self.output@, state: self.state }
    }
}

impl Scanner {
    /// Holds of every scanner that exists; the public functions hand it on
    /// as `consistent` of the view.
    #[verifier::type_invariant]
    spec fn inv(self) -> bool {
        self@.consistent()
    }

    /// Makes a scanner for `input`. Any text is accepted, the empty one too.
    pub fn new(input: &str) -> (scanner: Scanner)
        ensures
            scanner@ == ScannerModel::fresh(input@),
            scanner@.consistent(),
    {
        Scanner { input: input.to_owned(), output: Vec::new(), state: ScannerState::NotStarted }
    }

    /// Runs the pass: reads the text once from left to right and produces its
    /// tokens, in order.
    ///
    /// The pass runs once in a scanner's life. On a scanner that has been
    /// scanned, a further call does nothing: the tokens stay as they are.
    pub fn scan(&mut self)
        ensures
            final(self)@ == old(self)@.scanned(),
            final(self)@.consistent(),
            final(self)@.tokens.len() <= final(self)@.text.len(),
    {
        proof {
            use_type_invariant(&*self);
            old(self)@.lemma_consistent_bounded();
            lemma_token_count_bounded(self.input@);
        }
        if !matches!(self.state, ScannerState::NotStarted) {
            return;
        }
        self.state = ScannerState::InProgress;
        let chars = characters(self.input.as_str());
        let mut tokens: Vec<Token> = Vec::new();
        let mut i: usize = 0;
        while i < chars.len()
            invariant
                i <= chars.len(),
                tokens@ + tokens_from(chars@, i as int) == tokenize(chars@),
            decreases chars.len() - i,
        {
            let c = chars[i];
            let token: Option<Token>;
            let end: usize;
            if is_decimal(c) {
                let (value, behind) = read_integer(&chars, i);
                token = Some(Token::Integer(value));
                end = behind;
            } else if quit_follows(&chars, i) {
                token = Some(Token::Quit);
                end = i + 4;
            } else {
                token = classify(c);
                end = i + 1;
            }
            if let Some(t) = token {
                proof {
                    let rest = tokens_from(chars@, end as int);
                    assert(tokens@.push(t) + rest == tokens@ + (seq![t] + rest));
                }
                tokens.push(t);
            }
            i = end;
        }
        self.output = tokens;
        self.state = ScannerState::Done;
    }

    /// The tokens produced so far, in the order of the text: none before the
    /// pass, those of the whole text after it.
    pub fn output(&self) -> (tokens: &Vec<Token>)
        ensures
            tokens@ == self@.tokens,
            self@.consistent(),
            tokens@.len() <= self@.text.len(),
    {
        proof {
            use_type_invariant(self);
            self@.lemma_consistent_bounded();
        }
        &self.output
    }

    /// Where this scanner stands in its life.
    pub fn state(&self) -> (state: ScannerState)
        ensures
            state == self@.state,
            self@.consistent(),
    {
        proof {
            use_type_invariant(self);
        }
        self.state
    }
}

} // verus!
