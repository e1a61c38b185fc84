//! The lexical rules, as functions of the source text.
//!
//! A source is a `Seq<char>` and a position is an index into it. The token
//! that is read from a position, and the position at which reading stops,
//! are functions of the two: [`token_at`] and [`token_end`]. The lexer
//! computes them; everything else that is known about tokens is proved
//! from these definitions.
//!
//! Reading a token skips whitespace and then goes by the first character:
//!
//! - `=` or `!` with a `=` after it: the two characters, `==` or `!=`;
//! - a letter or `_`: the letters, digits and `_` that follow, as a keyword
//!   if they spell one and as an identifier if not;
//! - a digit: the digits that follow, as an integer, or as an illegal token
//!   if the number does not fit a `usize`;
//! - one of `= + - ! * / < > , ; ( ) { }`: that character;
//! - any other character: that character, as an illegal token;
//! - no character: the end-of-input token.

use vstd::prelude::*;

use crate::token::{SpecKind, SpecToken};
use crate::utils::{is_digit, is_letter, spec_is_whitespace};

verus! {

/// The sets of characters that are read as a run.
pub enum CharClass {
    /// Whitespace between tokens.
    Blank,
    /// What an identifier or keyword may hold after its first character.
    Word,
    /// Decimal digits.
    Digit,
}

impl CharClass {
    /// Whether `ch` is of the class.
    pub open spec fn contains(self, ch: char) -> bool {
        match self {
            CharClass::Blank => spec_is_whitespace(ch),
            CharClass::Word => is_letter(ch) || is_digit(ch),
            CharClass::Digit => is_digit(ch),
        }
    }
}

/// The character at `pos`, if `pos` lies inside the source.
pub open spec fn char_at(src: Seq<char>, pos: int) -> Option<char> {
    if 0 <= pos < src.len() {
        Some(src[pos])
    } else {
        None
    }
}

/// The end of the longest run of characters of `class` that begins at `pos`:
/// the first position from `pos` on that holds a character outside `class`,
/// or the end of the source.
pub open spec fn run_end(src: Seq<char>, class: CharClass, pos: int) -> int
    decreases src.len() - pos,
{
    if 0 <= pos < src.len() && class.contains(src[pos]) {
        run_end(src, class, pos + 1)
    } else {
        pos
    }
}

/// The end of the identifier-shaped word that begins at `pos`: a letter and
/// then letters and digits, as many as there are. Where `pos` holds no
/// letter the word is empty and ends at `pos`.
pub open spec fn word_end(src: Seq<char>, pos: int) -> int {
    if 0 <= pos < src.len() && is_letter(src[pos]) {
        run_end(src, CharClass::Word, pos)
    } else {
        pos
    }
}

/// The end of the run of digits that begins at `pos`.
pub open spec fn number_end(src: Seq<char>, pos: int) -> int {
    run_end(src, CharClass::Digit, pos)
}

/// Where a scan from `pos` to `end` leaves the cursor: on the last character
/// it has read, so that one step forward passes the run; at `pos` where it
/// has read nothing.
pub open spec fn resting_place(pos: int, end: int) -> int {
    if pos < end {
        end - 1
    } else {
        pos
    }
}

/// The value of one decimal digit.
pub open spec fn digit_value(ch: char) -> nat {
    (ch as int - '0' as int) as nat
}

/// The number that a sequence of decimal digits denotes.
pub open spec fn decimal_value(digits: Seq<char>) -> nat
    decreases digits.len(),
{
    if digits.len() == 0 {
        0
    } else {
        decimal_value(digits.drop_last()) * 10 + digit_value(digits.last())
    }
}

/// The kind of an identifier-shaped word: a keyword where the word is one,
/// an identifier of that name otherwise.
pub open spec fn word_kind(word: Seq<char>) -> SpecKind {
    if word == "let"@ {
        SpecKind::Let
    } else if word == "fn"@ {
        SpecKind::Function
    } else if word == "true"@ {
        SpecKind::True
    } else if word == "false"@ {
        SpecKind::False
    } else if word == "if"@ {
        SpecKind::If
    } else if word == "else"@ {
        SpecKind::Else
    } else if word == "return"@ {
        SpecKind::Return
    } else {
        SpecKind::Ident(word)
    }
}

/// The kind of a run of digits: the integer it denotes, unless that does
/// not fit the machine's `usize`; then the run is illegal.
pub open spec fn number_kind(digits: Seq<char>) -> SpecKind {
    if decimal_value(digits) <= usize::MAX {
        SpecKind::Int(decimal_value(digits))
    } else {
        SpecKind::Illegal
    }
}

/// The kind of a token that is a single character, for the characters that
/// are one; `None` for every other character.
pub open spec fn symbol_kind(ch: char) -> Option<SpecKind> {
    if ch == '=' {
        Some(SpecKind::Assign)
    } else if ch == '!' {
        Some(SpecKind::Bang)
    } else if ch == '+' {
        Some(SpecKind::Plus)
    } else if ch == '-' {
        Some(SpecKind::Minus)
    } else if ch == '*' {
        Some(SpecKind::Asterisk)
    } else if ch == '/' {
        Some(SpecKind::Slash)
    } else if ch == '<' {
        Some(SpecKind::LessThan)
    } else if ch == '>' {
        Some(SpecKind::GreaterThan)
    } else if ch == ',' {
        Some(SpecKind::Comma)
    } else if ch == ';' {
        Some(SpecKind::Semicolon)
    } else if ch == '(' {
        Some(SpecKind::LParen)
    } else if ch == ')' {
        Some(SpecKind::RParen)
    } else if ch == '{' {
        Some(SpecKind::LBrace)
    } else if ch == '}' {
        Some(SpecKind::RBrace)
    } else {
        None
    }
}

/// Whether the two characters at `start` spell `==` or `!=`.
pub open spec fn is_pair(src: Seq<char>, start: int) -> bool {
    &&& 0 <= start
    &&& start + 1 < src.len()
    &&& src[start] == '=' || src[start] == '!'
    &&& src[start + 1] == '='
}

/// Where the token ends whose first character is at `start`: one past its
/// last character.
pub open spec fn lexeme_end(src: Seq<char>, start: int) -> int
    recommends
        0 <= start < src.len(),
{
    if is_pair(src, start) {
        start + 2
    } else if is_letter(src[start]) {
        word_end(src, start)
    } else if is_digit(src[start]) {
        number_end(src, start)
    } else {
        start + 1
    }
}

/// The kind of the token whose first character is at `start`.
pub open spec fn lexeme_kind(src: Seq<char>, start: int) -> SpecKind
    recommends
        0 <= start < src.len(),
{
    let text = src.subrange(start, lexeme_end(src, start));
    if is_pair(src, start) {
        if src[start] == '=' {
            SpecKind::Equal
        } else {
            SpecKind::NotEqual
        }
    } else if is_letter(src[start]) {
        word_kind(text)
    } else if is_digit(src[start]) {
        number_kind(text)
    } else {
        match symbol_kind(src[start]) {
            Some(kind) => kind,
            None => SpecKind::Illegal,
        }
    }
}

/// Where the token that is read from `pos` begins: the first position from
/// `pos` on that holds no whitespace.
pub open spec fn token_start(src: Seq<char>, pos: int) -> int {
    run_end(src, CharClass::Blank, pos)
}

/// The token that is read from `pos`. Its literal is the piece of the source
/// between [`token_start`] and [`token_end`]; where only whitespace is left,
/// it is the end-of-input token with an empty literal.
pub open spec fn token_at(src: Seq<char>, pos: int) -> SpecToken {
    let start = token_start(src, pos);
    if start < src.len() {
        SpecToken {
            kind: lexeme_kind(src, start),
            literal: src.subrange(start, lexeme_end(src, start)),
        }
    } else {
        SpecToken { kind: SpecKind::Eof, literal: Seq::empty() }
    }
}

/// The position just after the token that is read from `pos`.
pub open spec fn token_end(src: Seq<char>, pos: int) -> int {
    let start = token_start(src, pos);
    if start < src.len() {
        lexeme_end(src, start)
    } else {
        start
    }
}

/// All the tokens that are read from `pos` on, one after the other, up to
/// and including the first end-of-input token.
pub open spec fn tokens_from(src: Seq<char>, pos: int) -> Seq<SpecToken>
    decreases src.len() - pos,
{
    if 0 <= pos && token_start(src, pos) < src.len() {
        proof {
            lemma_token_end(src, pos);
        }
        seq![token_at(src, pos)] + tokens_from(src, token_end(src, pos))
    } else {
        seq![token_at(src, pos)]
    }
}

/// All the tokens of a source.
pub open spec fn tokens(src: Seq<char>) -> Seq<SpecToken> {
    tokens_from(src, 0)
}

/// What is known of a run's end: it lies between `pos` and the end of the
/// source, all characters before it are of the class, and the one at it,
/// if there is one, is not.
pub proof fn lemma_run_end(src: Seq<char>, class: CharClass, pos: int)
    requires
        0 <= pos <= src.len(),
    ensures
        pos <= run_end(src, class, pos) <= src.len(),
        forall|i: int| pos <= i < run_end(src, class, pos) ==> class.contains(#[trigger] src[i]),
        run_end(src, class, pos) < src.len() ==> !class.contains(src[run_end(src, class, pos)]),
    decreases src.len() - pos,
{
    if pos < src.len() && class.contains(src[pos]) {
        lemma_run_end(src, class, pos + 1);
    }
}

/// A position with these three properties is the run's end.
pub proof fn lemma_run_end_is(src: Seq<char>, class: CharClass, pos: int, end: int)
    requires
        0 <= pos <= end <= src.len(),
        forall|i: int| pos <= i < end ==> class.contains(#[trigger] src[i]),
        end < src.len() ==> !class.contains(src[end]),
    ensures
        run_end(src, class, pos) == end,
    decreases end - pos,
{
    if pos < end {
        lemma_run_end_is(src, class, pos + 1, end);
    }
}

/// A prefix of a number's digits denotes no more than the number.
pub proof fn lemma_decimal_value_grows(digits: Seq<char>, len: int)
    requires
        0 <= len <= digits.len(),
    ensures
        decimal_value(digits.subrange(0, len)) <= decimal_value(digits),
    decreases digits.len() - len,
{
    if len < digits.len() {
        let longer = digits.subrange(0, len + 1);
        assert(longer.drop_last() =~= digits.subrange(0, len));
        lemma_decimal_value_grows(digits, len + 1);
    } else {
        assert(digits.subrange(0, len) =~= digits);
    }
}

/// No token that begins with a character is the end-of-input token.
pub proof fn lemma_lexeme_is_not_eof(src: Seq<char>, start: int)
    requires
        0 <= start < src.len(),
    ensures
        lexeme_kind(src, start) != SpecKind::Eof,
{
}

/// Reading a token moves forward and stays inside the source. A token is the
/// end-of-input token exactly where only whitespace is left; every other
/// token holds at least one character; and the literal of every token is
/// the piece of the source from which it was read.
pub proof fn lemma_token_end(src: Seq<char>, pos: int)
    requires
        0 <= pos <= src.len(),
    ensures
        pos <= token_start(src, pos) <= token_end(src, pos) <= src.len(),
        token_start(src, pos) < src.len() ==> token_start(src, pos) < token_end(src, pos),
        token_start(src, pos) < src.len() <==> token_at(src, pos).kind != SpecKind::Eof,
        token_at(src, pos).literal == src.subrange(token_start(src, pos), token_end(src, pos)),
{
    lemma_run_end(src, CharClass::Blank, pos);
    let start = token_start(src, pos);
    if start < src.len() {
        lemma_run_end(src, CharClass::Word, start);
        lemma_run_end(src, CharClass::Digit, start);
        lemma_lexeme_is_not_eof(src, start);
    } else {
        assert(src.subrange(start, start) =~= Seq::empty());
    }
}

} // verus!
