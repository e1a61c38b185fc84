//! Tokens: the closed set of lexical categories and the text they were read
//! from.

use vstd::prelude::*;

verus! {

/// The mathematical value of a [`TokenType`]: the category, with the decoded
/// name of an identifier and the decoded value of an integer literal.
pub enum SpecKind {
    Illegal,
    Eof,
    Ident(Seq<char>),
    Int(nat),
    Plus,
    Assign,
    Minus,
    Bang,
    Asterisk,
    Slash,
    LessThan,
    GreaterThan,
    Equal,
    NotEqual,
    Comma,
    Semicolon,
    LParen,
    RParen,
    LBrace,
    RBrace,
    Function,
    Let,
    True,
    False,
    If,
    Else,
    Return,
}

impl SpecKind {
    /// Equality of categories: two identifiers are of one category whatever
    /// their names, two integers whatever their values; every other kind is
    /// only like itself.
    pub open spec fn same_category(self, other: SpecKind) -> bool {
        match (self, other) {
            (SpecKind::Ident(_), SpecKind::Ident(_)) => true,
            (SpecKind::Int(_), SpecKind::Int(_)) => true,
            _ => self == other,
        }
    }

    /// The name under which a category appears in diagnostics.
    pub open spec fn name(self) -> Seq<char> {
        match self {
            SpecKind::Illegal => "ILLEGAL"@,
            SpecKind::Eof => "EOF"@,
            SpecKind::Ident(_) => "IDENT"@,
            SpecKind::Int(_) => "INT"@,
            SpecKind::Plus => "PLUS"@,
            SpecKind::Assign => "ASSIGN"@,
            SpecKind::Minus => "MINUS"@,
            SpecKind::Bang => "BANG"@,
            SpecKind::Asterisk => "ASTERISK"@,
            SpecKind::Slash => "SLASH"@,
            SpecKind::LessThan => "LESSTHAN"@,
            SpecKind::GreaterThan => "GREATERTHAN"@,
            SpecKind::Equal => "EQUAL"@,
            SpecKind::NotEqual => "NOTEQUAL"@,
            SpecKind::Comma => "COMMA"@,
            SpecKind::Semicolon => "SEMICOLON"@,
            SpecKind::LParen => "LPAREN"@,
            SpecKind::RParen => "RPAREN"@,
            SpecKind::LBrace => "LBRACE"@,
            SpecKind::RBrace => "RBRACE"@,
            SpecKind::Function => "FUNCTION"@,
            SpecKind::Let => "LET"@,
            SpecKind::True => "TRUE"@,
            SpecKind::False => "FALSE"@,
            SpecKind::If => "IF"@,
            SpecKind::Else => "ELSE"@,
            SpecKind::Return => "RETURN"@,
        }
    }
}

/// The category of a token. `IDENT` carries the name it spells and `INT` the
/// number it denotes.
#[allow(non_camel_case_types)]
#[derive(Debug, PartialEq)]
pub enum TokenType {
    ILLEGAL,
    EOF,
    IDENT(String),
    INT(usize),
    PLUS,
    ASSIGN,
    MINUS,
    BANG,
    ASTERISK,
    SLASH,
    LESSTHAN,
    GREATERTHAN,
    EQUAL,
    NOTEQUAL,
    COMMA,
    SEMICOLON,
    LPAREN,
    RPAREN,
    LBRACE,
    RBRACE,
    FUNCTION,
    LET,
    TRUE,
    FALSE,
    IF,
    ELSE,
    RETURN,
}

impl View for TokenType {
    type V = SpecKind;

    open spec fn view(&self) -> SpecKind {
        match self {
            TokenType::ILLEGAL => SpecKind::Illegal,
            TokenType::EOF => SpecKind::Eof,
            TokenType::IDENT(name) => SpecKind::Ident(name@),
            TokenType::INT(value) => SpecKind::Int(*value as nat),
            TokenType::PLUS => SpecKind::Plus,
            TokenType::ASSIGN => SpecKind::Assign,
            TokenType::MINUS => SpecKind::Minus,
            TokenType::BANG => SpecKind::Bang,
            TokenType::ASTERISK => SpecKind::Asterisk,
            TokenType::SLASH => SpecKind::Slash,
            TokenType::LESSTHAN => SpecKind::LessThan,
            TokenType::GREATERTHAN => SpecKind::GreaterThan,
            TokenType::EQUAL => SpecKind::Equal,
            TokenType::NOTEQUAL => SpecKind::NotEqual,
            TokenType::COMMA => SpecKind::Comma,
            TokenType::SEMICOLON => SpecKind::Semicolon,
            TokenType::LPAREN => SpecKind::LParen,
            TokenType::RPAREN => SpecKind::RParen,
            TokenType::LBRACE => SpecKind::LBrace,
            TokenType::RBRACE => SpecKind::RBrace,
            TokenType::FUNCTION => SpecKind::Function,
            TokenType::LET => SpecKind::Let,
            TokenType::TRUE => SpecKind::True,
            TokenType::FALSE => SpecKind::False,
            TokenType::IF => SpecKind::If,
            TokenType::ELSE => SpecKind::Else,
            TokenType::RETURN => SpecKind::Return,
        }
    }
}

impl Clone for TokenType {
    fn clone(&self) -> (copy: Self)
        ensures
            copy == *self,
    {
        match self {
            TokenType::ILLEGAL => TokenType::ILLEGAL,
            TokenType::EOF => TokenType::EOF,
            TokenType::IDENT(name) => TokenType::IDENT(name.clone()),
            TokenType::INT(value) => TokenType::INT(*value),
            TokenType::PLUS => TokenType::PLUS,
            TokenType::ASSIGN => TokenType::ASSIGN,
            TokenType::MINUS => TokenType::MINUS,
            TokenType::BANG => TokenType::BANG,
            TokenType::ASTERISK => TokenType::ASTERISK,
            TokenType::SLASH => TokenType::SLASH,
            TokenType::LESSTHAN => TokenType::LESSTHAN,
            TokenType::GREATERTHAN => TokenType::GREATERTHAN,
            TokenType::EQUAL => TokenType::EQUAL,
            TokenType::NOTEQUAL => TokenType::NOTEQUAL,
            TokenType::COMMA => TokenType::COMMA,
            TokenType::SEMICOLON => TokenType::SEMICOLON,
            TokenType::LPAREN => TokenType::LPAREN,
            TokenType::RPAREN => TokenType::RPAREN,
            TokenType::LBRACE => TokenType::LBRACE,
            TokenType::RBRACE => TokenType::RBRACE,
            TokenType::FUNCTION => TokenType::FUNCTION,
            TokenType::LET => TokenType::LET,
            TokenType::TRUE => TokenType::TRUE,
            TokenType::FALSE => TokenType::FALSE,
            TokenType::IF => TokenType::IF,
            TokenType::ELSE => TokenType::ELSE,
            TokenType::RETURN => TokenType::RETURN,
        }
    }
}

impl TokenType {
    /// Categorical equality: whether `self` and `other` are of the same
    /// category, payloads left aside.
    pub fn variant_eq(&self, other: &Self) -> (same: bool)
        ensures
            same == self@.same_category(other@),
    {
        match (self, other) {
            (TokenType::ILLEGAL, TokenType::ILLEGAL) => true,
            (TokenType::EOF, TokenType::EOF) => true,
            (TokenType::IDENT(_), TokenType::IDENT(_)) => true,
            (TokenType::INT(_), TokenType::INT(_)) => true,
            (TokenType::PLUS, TokenType::PLUS) => true,
            (TokenType::ASSIGN, TokenType::ASSIGN) => true,
            (TokenType::MINUS, TokenType::MINUS) => true,
            (TokenType::BANG, TokenType::BANG) => true,
            (TokenType::ASTERISK, TokenType::ASTERISK) => true,
            (TokenType::SLASH, TokenType::SLASH) => true,
            (TokenType::LESSTHAN, TokenType::LESSTHAN) => true,
            (TokenType::GREATERTHAN, TokenType::GREATERTHAN) => true,
            (TokenType::EQUAL, TokenType::EQUAL) => true,
            (TokenType::NOTEQUAL, TokenType::NOTEQUAL) => true,
            (TokenType::COMMA, TokenType::COMMA) => true,
            (TokenType::SEMICOLON, TokenType::SEMICOLON) => true,
            (TokenType::LPAREN, TokenType::LPAREN) => true,
            (TokenType::RPAREN, TokenType::RPAREN) => true,
            (TokenType::LBRACE, TokenType::LBRACE) => true,
            (TokenType::RBRACE, TokenType::RBRACE) => true,
            (TokenType::FUNCTION, TokenType::FUNCTION) => true,
            (TokenType::LET, TokenType::LET) => true,
            (TokenType::TRUE, TokenType::TRUE) => true,
            (TokenType::FALSE, TokenType::FALSE) => true,
            (TokenType::IF, TokenType::IF) => true,
            (TokenType::ELSE, TokenType::ELSE) => true,
            (TokenType::RETURN, TokenType::RETURN) => true,
            _ => false,
        }
    }

    /// The name of the category, as diagnostics print it.
    pub fn name(&self) -> (text: &'static str)
        ensures
            text@ == self@.name(),
    {
        match self {
            TokenType::ILLEGAL => "ILLEGAL",
            TokenType::EOF => "EOF",
            TokenType::IDENT(_) => "IDENT",
            TokenType::INT(_) => "INT",
            TokenType::PLUS => "PLUS",
            TokenType::ASSIGN => "ASSIGN",
            TokenType::MINUS => "MINUS",
            TokenType::BANG => "BANG",
            TokenType::ASTERISK => "ASTERISK",
            TokenType::SLASH => "SLASH",
            TokenType::LESSTHAN => "LESSTHAN",
            TokenType::GREATERTHAN => "GREATERTHAN",
            TokenType::EQUAL => "EQUAL",
            TokenType::NOTEQUAL => "NOTEQUAL",
            TokenType::COMMA => "COMMA",
            TokenType::SEMICOLON => "SEMICOLON",
            TokenType::LPAREN => "LPAREN",
            TokenType::RPAREN => "RPAREN",
            TokenType::LBRACE => "LBRACE",
            TokenType::RBRACE => "RBRACE",
            TokenType::FUNCTION => "FUNCTION",
            TokenType::LET => "LET",
            TokenType::TRUE => "TRUE",
            TokenType::FALSE => "FALSE",
            TokenType::IF => "IF",
            TokenType::ELSE => "ELSE",
            TokenType::RETURN => "RETURN",
        }
    }
}

/// The mathematical value of a [`Token`].
pub struct SpecToken {
    pub kind: SpecKind,
    pub literal: Seq<char>,
}

/// A token: its category and the exact piece of source text it was read from.
#[derive(Debug, PartialEq)]
pub struct Token {
    pub kind: TokenType,
    pub literal: String,
}

impl View for Token {
    type V = SpecToken;

    open spec fn view(&self) -> SpecToken {
        SpecToken { kind: self.kind@, literal: self.literal@ }
    }
}

impl Clone for Token {
    fn clone(&self) -> (copy: Self)
        ensures
            copy == *self,
    {
        Token { kind: self.kind.clone(), literal: self.literal.clone() }
    }
}

impl Token {
    /// A token of category `token_type` read from the text `ch`.
    pub fn new_token(token_type: TokenType, ch: String) -> (token: Token)
        ensures
            token.kind == token_type,
            token.literal == ch,
    {
        Token { kind: token_type, literal: ch }
    }
}

/// Categorical equality is reflexive and symmetric, it is transitive, and
/// equal kinds are of one category: it is an equivalence that payload
/// equality refines.
pub proof fn lemma_same_category_is_equivalence(a: SpecKind, b: SpecKind, c: SpecKind)
    ensures
        a.same_category(a),
        a.same_category(b) == b.same_category(a),
        a.same_category(b) && b.same_category(c) ==> a.same_category(c),
        a == b ==> a.same_category(b),
{
}

} // verus!
