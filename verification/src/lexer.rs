//! The lexer: a cursor over the source text that hands out one token per
//! call.

use vstd::prelude::*;

use crate::lexical::{
    char_at, decimal_value, digit_value, lemma_decimal_value_grows, lemma_run_end,
    lemma_token_end, number_end, number_kind, resting_place, run_end, token_at, token_end,
    token_start, tokens, tokens_from, word_end, word_kind, CharClass,
};
use crate::token::{SpecToken, Token, TokenType};
use crate::utils::{is_digit, is_letter, spec_is_whitespace};

verus! {

/// The mathematical value of a [`Lexer`]: the text it reads and how far it
/// has read.
pub struct LexerView {
    pub source: Seq<char>,
    pub position: int,
}

/// A cursor over a source text. The text is fixed when the lexer is made;
/// only the position moves, and it never moves back before a token that was
/// handed out.
#[derive(Debug)]
pub struct Lexer {
    input: String,
    length: usize,
    position: usize,
    current_char: Option<char>,
}

impl View for Lexer {
    type V = LexerView;

    closed spec fn view(&self) -> LexerView {
        LexerView { source: self.input@, position: self.position as int }
    }
}

/// Whether `word` and `keyword` are the same text.
fn spells(word: &str, keyword: &str) -> (same: bool)
    ensures
        same == (word@ == keyword@),
{
    let length = word.unicode_len();
    if length != keyword.unicode_len() {
        return false;
    }
    let mut index: usize = 0;
    while index < length
        invariant
            index <= length,
            length == word@.len(),
            length == keyword@.len(),
            forall|i: int| 0 <= i < index ==> word@[i] == keyword@[i],
        decreases length - index,
    {
        if word.get_char(index) != keyword.get_char(index) {
            return false;
        }
        index += 1;
    }
    assert(word@ =~= keyword@);
    true
}

/// The kind of an identifier-shaped word: keyword or identifier.
fn lookup_word(word: &String) -> (kind: TokenType)
    ensures
        kind@ == word_kind(word@),
{
    let text = word.as_str();
    if spells(text, "let") {
        TokenType::LET
    } else if spells(text, "fn") {
        TokenType::FUNCTION
    } else if spells(text, "true") {
        TokenType::TRUE
    } else if spells(text, "false") {
        TokenType::FALSE
    } else if spells(text, "if") {
        TokenType::IF
    } else if spells(text, "else") {
        TokenType::ELSE
    } else if spells(text, "return") {
        TokenType::RETURN
    } else {
        TokenType::IDENT(word.clone())
    }
}

/// The kind of a run of digits: the integer it denotes if a `usize` can hold
/// it, illegal if not.
fn lookup_number(digits: &String) -> (kind: TokenType)
    requires
        forall|i: int| 0 <= i < digits@.len() ==> is_digit(#[trigger] digits@[i]),
    ensures
        kind@ == number_kind(digits@),
{
    let text = digits.as_str();
    let length = text.unicode_len();
    let mut value: usize = 0;
    let mut index: usize = 0;
    assert(text@.subrange(0, 0) =~= Seq::empty());
    while index < length
        invariant
            index <= length,
            length == text@.len(),
            text@ == digits@,
            forall|i: int| 0 <= i < text@.len() ==> is_digit(#[trigger] text@[i]),
            value == decimal_value(text@.subrange(0, index as int)),
        decreases length - index,
    {
        let ch = text.get_char(index);
        let digit: usize = (ch as u32 - '0' as u32) as usize;
        proof {
            let longer = text@.subrange(0, index + 1);
            assert(longer.drop_last() =~= text@.subrange(0, index as int));
            assert(longer.last() == ch);
            assert(digit == digit_value(ch));
            assert(decimal_value(longer) == value * 10 + digit);
            lemma_decimal_value_grows(text@, index + 1);
        }
        let shifted = match value.checked_mul(10) {
            Some(shifted) => shifted,
            None => {
                return TokenType::ILLEGAL;
            },
        };
        value = match shifted.checked_add(digit) {
            Some(sum) => sum,
            None => {
                return TokenType::ILLEGAL;
            },
        };
        index += 1;
    }
    assert(text@.subrange(0, index as int) =~= text@);
    TokenType::INT(value)
}

impl Lexer {
    /// The length is right and the position lies within the text.
    spec fn in_range(&self) -> bool {
        &&& self.length == self.input@.len()
        &&& self.position <= self.length
    }

    /// The lexer is in range and holds the character at its position.
    pub closed spec fn wf(&self) -> bool {
        &&& self.in_range()
        &&& self.current_char == char_at(self.input@, self.position as int)
    }

    /// The position of a well-formed lexer lies within its source.
    pub proof fn lemma_position_in_source(&self)
        requires
            self.wf(),
        ensures
            0 <= self@.position <= self@.source.len(),
    {
    }

    /// A lexer at the beginning of `input`.
    pub fn new(input: String) -> (lexer: Lexer)
        ensures
            lexer.wf(),
            lexer@.source == input@,
            lexer@.position == 0,
    {
        let length = input.as_str().unicode_len();
        let current_char = if 0 < length {
            Some(input.as_str().get_char(0))
        } else {
            None
        };
        Lexer { input, length, position: 0, current_char }
    }

    /// Loads and returns the character at the position; `None` at the end
    /// of the source.
    fn get_current_char(&mut self) -> (ch: Option<char>)
        requires
            old(self).in_range(),
        ensures
            final(self).wf(),
            final(self)@ == old(self)@,
            ch == char_at(old(self)@.source, old(self)@.position),
    {
        self.current_char = if self.position < self.length {
            Some(self.input.as_str().get_char(self.position))
        } else {
            None
        };
        self.current_char
    }

    /// One character forward; at the end of the source the lexer stays.
    fn advance(&mut self)
        requires
            old(self).in_range(),
        ensures
            final(self).wf(),
            final(self)@.source == old(self)@.source,
            final(self)@.position == if old(self)@.position < old(self)@.source.len() {
                old(self)@.position + 1
            } else {
                old(self)@.position
            },
    {
        if self.position < self.length {
            self.position += 1;
        }
        self.get_current_char();
    }

    /// One character back.
    fn retreat(&mut self)
        requires
            old(self).in_range(),
            old(self)@.position > 0,
        ensures
            final(self).wf(),
            final(self)@.source == old(self)@.source,
            final(self)@.position == old(self)@.position - 1,
    {
        self.position -= 1;
        self.get_current_char();
    }

    /// Whether `ch` is whitespace: a space, a tab, a line feed or a carriage
    /// return.
    fn is_whitespace(&self, ch: char) -> (blank: bool)
        ensures
            blank == spec_is_whitespace(ch),
    {
        ch == ' ' || ch == '\t' || ch == '\n' || ch == '\r'
    }

    /// Moves over the run of `class` that begins at the position, to the
    /// first character that is not of the class.
    fn pass(&mut self, class: CharClass)
        requires
            old(self).in_range(),
        ensures
            final(self).wf(),
            final(self)@.source == old(self)@.source,
            final(self)@.position == run_end(old(self)@.source, class, old(self)@.position),
    {
        loop
            invariant
                self.in_range(),
                self@.source == old(self)@.source,
                run_end(self@.source, class, self@.position) == run_end(
                    old(self)@.source,
                    class,
                    old(self)@.position,
                ),
            ensures
                self.wf(),
                self@.source == old(self)@.source,
                self@.position == run_end(old(self)@.source, class, old(self)@.position),
            decreases self@.source.len() - self@.position,
        {
            match self.get_current_char() {
                Some(ch) => {
                    let inside = match class {
                        CharClass::Blank => self.is_whitespace(ch),
                        CharClass::Word => is_letter(ch) || is_digit(ch),
                        CharClass::Digit => is_digit(ch),
                    };
                    if !inside {
                        break ;
                    }
                    self.advance();
                },
                None => {
                    break ;
                },
            }
        }
    }

    /// Moves to the first character from the position on that is no
    /// whitespace.
    fn skip_whitespace(&mut self)
        requires
            old(self).in_range(),
        ensures
            final(self).wf(),
            final(self)@.source == old(self)@.source,
            final(self)@.position == token_start(old(self)@.source, old(self)@.position),
    {
        self.pass(CharClass::Blank);
    }

    /// The character after the one at the position.
    fn peek(&self) -> (ch: Option<char>)
        requires
            self.in_range(),
        ensures
            ch == char_at(self@.source, self@.position + 1),
    {
        if self.position < self.length && self.position + 1 < self.length {
            Some(self.input.as_str().get_char(self.position + 1))
        } else {
            None
        }
    }

    /// The text between two positions.
    fn slice(&self, from: usize, to: usize) -> (text: String)
        requires
            self.in_range(),
            from <= to <= self@.source.len(),
        ensures
            text@ == self@.source.subrange(from as int, to as int),
    {
        self.input.as_str().substring_char(from, to).to_owned()
    }

    /// Reads the run of `class` that begins at the position and comes to
    /// rest on its last character; stays where the run is empty.
    fn read_run(&mut self, class: CharClass) -> (text: String)
        requires
            old(self).in_range(),
        ensures
            final(self).wf(),
            final(self)@.source == old(self)@.source,
            text@ == old(self)@.source.subrange(
                old(self)@.position,
                run_end(old(self)@.source, class, old(self)@.position),
            ),
            final(self)@.position == resting_place(
                old(self)@.position,
                run_end(old(self)@.source, class, old(self)@.position),
            ),
    {
        proof {
            lemma_run_end(self@.source, class, self@.position);
        }
        let begin = self.position;
        self.pass(class);
        let text = self.slice(begin, self.position);
        if begin < self.position {
            self.retreat();
        }
        text
    }

    /// Reads the identifier-shaped word that begins at the position: a
    /// letter and the letters and digits that follow it. The lexer comes to
    /// rest on the word's last character. Where the position holds no
    /// letter, the word is empty and the lexer stays.
    pub fn read_identifier(&mut self) -> (word: String)
        requires
            old(self).wf(),
        ensures
            final(self).wf(),
            final(self)@.source == old(self)@.source,
            word@ == old(self)@.source.subrange(
                old(self)@.position,
                word_end(old(self)@.source, old(self)@.position),
            ),
            final(self)@.position == resting_place(
                old(self)@.position,
                word_end(old(self)@.source, old(self)@.position),
            ),
            old(self)@.position <= final(self)@.position <= final(self)@.source.len(),
    {
        proof {
            lemma_run_end(self@.source, CharClass::Word, self@.position);
        }
        let first = match self.get_current_char() {
            Some(ch) => is_letter(ch),
            None => false,
        };
        if first {
            self.read_run(CharClass::Word)
        } else {
            assert(self@.source.subrange(self@.position, self@.position) =~= Seq::empty());
            String::new()
        }
    }

    /// Reads the run of digits that begins at the position. The lexer comes
    /// to rest on the last digit; where the position holds no digit, the run
    /// is empty and the lexer stays.
    pub fn read_number(&mut self) -> (digits: String)
        requires
            old(self).wf(),
        ensures
            final(self).wf(),
            final(self)@.source == old(self)@.source,
            digits@ == old(self)@.source.subrange(
                old(self)@.position,
                number_end(old(self)@.source, old(self)@.position),
            ),
            final(self)@.position == resting_place(
                old(self)@.position,
                number_end(old(self)@.source, old(self)@.position),
            ),
            old(self)@.position <= final(self)@.position <= final(self)@.source.len(),
    {
        proof {
            lemma_run_end(self@.source, CharClass::Digit, self@.position);
        }
        self.read_run(CharClass::Digit)
    }

    /// Reads one token: skips the whitespace at the position, returns the
    /// token that begins there and moves past it. At the end of the source
    /// the token is `EOF`, with an empty literal, on every call.
    pub fn next_token(&mut self) -> (token: Token)
        requires
            old(self).wf(),
        ensures
            final(self).wf(),
            final(self)@.source == old(self)@.source,
            token@ == token_at(old(self)@.source, old(self)@.position),
            final(self)@.position == token_end(old(self)@.source, old(self)@.position),
            old(self)@.position <= final(self)@.position <= final(self)@.source.len(),
    {
        proof {
            lemma_token_end(self@.source, self@.position);
        }
        self.skip_whitespace();
        let begin = self.position;
        proof {
            lemma_run_end(self@.source, CharClass::Word, self@.position);
            lemma_run_end(self@.source, CharClass::Digit, self@.position);
        }
        let tok_type: TokenType;
        let tok_literal: String;
        match self.get_current_char() {
            Some(ch) => {
                match ch {
                    '=' => {
                        match self.peek() {
                            Some('=') => {
                                tok_type = TokenType::EQUAL;
                                tok_literal = self.slice(begin, begin + 2);
                                self.advance();
                            },
                            _ => {
                                tok_type = TokenType::ASSIGN;
                                tok_literal = self.slice(begin, begin + 1);
                            },
                        }
                    },
                    ';' => {
                        tok_type = TokenType::SEMICOLON;
                        tok_literal = self.slice(begin, begin + 1);
                    },
                    '(' => {
                        tok_type = TokenType::LPAREN;
                        tok_literal = self.slice(begin, begin + 1);
                    },
                    ')' => {
                        tok_type = TokenType::RPAREN;
                        tok_literal = self.slice(begin, begin + 1);
                    },
                    ',' => {
                        tok_type = TokenType::COMMA;
                        tok_literal = self.slice(begin, begin + 1);
                    },
                    '+' => {
                        tok_type = TokenType::PLUS;
                        tok_literal = self.slice(begin, begin + 1);
                    },
                    '{' => {
                        tok_type = TokenType::LBRACE;
                        tok_literal = self.slice(begin, begin + 1);
                    },
                    '}' => {
                        tok_type = TokenType::RBRACE;
                        tok_literal = self.slice(begin, begin + 1);
                    },
                    '-' => {
                        tok_type = TokenType::MINUS;
                        tok_literal = self.slice(begin, begin + 1);
                    },
                    '!' => {
                        match self.peek() {
                            Some('=') => {
                                tok_type = TokenType::NOTEQUAL;
                                tok_literal = self.slice(begin, begin + 2);
                                self.advance();
                            },
                            _ => {
                                tok_type = TokenType::BANG;
                                tok_literal = self.slice(begin, begin + 1);
                            },
                        }
                    },
                    '/' => {
                        tok_type = TokenType::SLASH;
                        tok_literal = self.slice(begin, begin + 1);
                    },
                    '*' => {
                        tok_type = TokenType::ASTERISK;
                        tok_literal = self.slice(begin, begin + 1);
                    },
                    '>' => {
                        tok_type = TokenType::GREATERTHAN;
                        tok_literal = self.slice(begin, begin + 1);
                    },
                    '<' => {
                        tok_type = TokenType::LESSTHAN;
                        tok_literal = self.slice(begin, begin + 1);
                    },
                    _ => {
                        if is_letter(ch) {
                            tok_literal = self.read_identifier();
                            tok_type = lookup_word(&tok_literal);
                        } else if is_digit(ch) {
                            tok_literal = self.read_number();
                            tok_type = lookup_number(&tok_literal);
                        } else {
                            tok_type = TokenType::ILLEGAL;
                            tok_literal = self.slice(begin, begin + 1);
                        }
                    },
                }
                self.advance();
            },
            None => {
                tok_type = TokenType::EOF;
                tok_literal = String::new();
            },
        }
        Token { kind: tok_type, literal: tok_literal }
    }
}

/// The mathematical values of a list of tokens.
pub open spec fn token_views(list: Seq<Token>) -> Seq<SpecToken> {
    Seq::new(list.len(), |i: int| list[i]@)
}

/// All the tokens of `input`, in source order; the last one, and only the
/// last, is `EOF`.
pub fn tokenize(input: String) -> (list: Vec<Token>)
    ensures
        token_views(list@) == tokens(input@),
{
    let mut lexer = Lexer::new(input);
    let mut list: Vec<Token> = Vec::new();
    let ghost src = lexer@.source;
    assert(token_views(list@) =~= Seq::empty());
    loop
        invariant_except_break
            lexer.wf(),
            lexer@.source == src,
            token_views(list@) + tokens_from(src, lexer@.position) == tokens(src),
        ensures
            token_views(list@) == tokens(src),
        decreases src.len() - lexer@.position,
    {
        let ghost position = lexer@.position;
        let ghost before = token_views(list@);
        proof {
            lexer.lemma_position_in_source();
            lemma_token_end(src, position);
        }
        let token = lexer.next_token();
        let done = TokenType::variant_eq(&token.kind, &TokenType::EOF);
        list.push(token);
        proof {
            assert(token_views(list@) =~= before + seq![token_at(src, position)]);
            if !done {
                assert(tokens(src) =~= token_views(list@) + tokens_from(src, lexer@.position));
            }
        }
        if done {
            break ;
        }
    }
    list
}

} // verus!
