//! The parser: it drives a lexer through a window of two tokens, builds the
//! statements of the program and collects a diagnostic for each statement
//! that breaks its rule.

use vstd::prelude::*;

use crate::ast::{
    Expression, ExpressionStatement, Identifier, LetStatement, Literal, Program, ReturnStatement,
    Statement,
};
use crate::lexer::Lexer;
use crate::lexical::{lemma_token_end, token_at, token_end};
use crate::syntax::{
    atom, expectation_message, expression_message, expression_rule, is_boundary,
    lemma_statement_ends, let_rule, optional, peeked, program_from, return_rule, statement_at,
    synchronize, Parsed,
};
use crate::token::{SpecKind, Token, TokenType};

verus! {

/// The mathematical value of a [`Parser`].
pub struct ParserView {
    /// The text that the parser's lexer reads.
    pub source: Seq<char>,
    /// Where the window stands: the position from which its first token was
    /// read.
    pub at: int,
    /// The diagnostics so far, oldest first.
    pub errors: Seq<Seq<char>>,
}

/// The texts of a list of messages.
pub open spec fn texts(messages: Seq<String>) -> Seq<Seq<char>> {
    Seq::new(messages.len(), |i: int| messages[i]@)
}

/// Whether a parser that went from `before` to `after` and returned `result`
/// did what `parsed` says: the same statement or none, the diagnostics
/// added after those that were there, the window at the same place.
spec fn complies(
    result: Option<Statement>,
    after: ParserView,
    before: ParserView,
    parsed: Parsed,
) -> bool {
    &&& match result {
        Some(statement) => parsed.statement == Some(statement@),
        None => parsed.statement is None,
    }
    &&& after.errors == before.errors + parsed.errors
    &&& after.at == parsed.at
}

/// A parser over the tokens of a lexer.
pub struct Parser {
    lexer: Lexer,
    current_token: Token,
    peek_token: Token,
    errors: Vec<String>,
    at: Ghost<int>,
}

impl View for Parser {
    type V = ParserView;

    closed spec fn view(&self) -> ParserView {
        ParserView { source: self.lexer@.source, at: self.at@, errors: texts(self.errors@) }
    }
}

impl Parser {
    /// The window holds the two tokens that are read from the parser's
    /// position, and the lexer stands after them.
    pub closed spec fn wf(&self) -> bool {
        &&& self.lexer.wf()
        &&& 0 <= self.at@ <= self.lexer@.source.len()
        &&& self.current_token@ == token_at(self.lexer@.source, self.at@)
        &&& self.peek_token@ == peeked(self.lexer@.source, self.at@)
        &&& self.lexer@.position == token_end(
            self.lexer@.source,
            token_end(self.lexer@.source, self.at@),
        )
    }

    /// The position of a well-formed parser lies within its source.
    pub proof fn lemma_at_in_source(&self)
        requires
            self.wf(),
        ensures
            0 <= self@.at <= self@.source.len(),
    {
    }

    /// A parser that begins where `lexer` stands: it reads the first two
    /// tokens into its window.
    pub fn new(mut lexer: Lexer) -> (parser: Parser)
        requires
            lexer.wf(),
        ensures
            parser.wf(),
            parser@.source == lexer@.source,
            parser@.at == lexer@.position,
            parser@.errors == Seq::<Seq<char>>::empty(),
    {
        let ghost at = lexer@.position;
        proof {
            lexer.lemma_position_in_source();
        }
        let current_token = lexer.next_token();
        let peek_token = lexer.next_token();
        let parser = Parser {
            lexer,
            current_token,
            peek_token,
            errors: Vec::new(),
            at: Ghost(at),
        };
        assert(parser@.errors =~= Seq::<Seq<char>>::empty());
        parser
    }

    /// Moves the window one token forward.
    fn next_token(&mut self)
        requires
            old(self).wf(),
        ensures
            final(self).wf(),
            final(self)@.source == old(self)@.source,
            final(self)@.errors == old(self)@.errors,
            final(self)@.at == token_end(old(self)@.source, old(self)@.at),
    {
        proof {
            lemma_token_end(self@.source, self@.at);
        }
        let mut next = self.lexer.next_token();
        std::mem::swap(&mut self.peek_token, &mut next);
        self.current_token = next;
        self.at = Ghost(token_end(self.lexer@.source, self.at@));
    }

    /// The diagnostics so far, oldest first. None means that every statement
    /// met its rule.
    pub fn errors(&self) -> (messages: Vec<String>)
        ensures
            texts(messages@) == self@.errors,
    {
        let mut messages: Vec<String> = Vec::new();
        let mut index: usize = 0;
        while index < self.errors.len()
            invariant
                index <= self.errors.len(),
                messages@.len() == index,
                forall|i: int| 0 <= i < index ==> messages@[i]@ == self.errors@[i]@,
            decreases self.errors.len() - index,
        {
            messages.push(self.errors[index].clone());
            index += 1;
        }
        assert(texts(messages@) =~= texts(self.errors@));
        messages
    }

    /// Records that the window's second token is not of the kind `kind`.
    fn peek_error(&mut self, kind: TokenType)
        requires
            old(self).wf(),
        ensures
            final(self).wf(),
            final(self)@.source == old(self)@.source,
            final(self)@.at == old(self)@.at,
            final(self)@.errors == old(self)@.errors + seq![
                expectation_message(kind@, peeked(old(self)@.source, old(self)@.at).kind),
            ],
    {
        let mut msg = String::from_str("expected next token to be ");
        msg.append(kind.name());
        msg.append(", got ");
        msg.append(self.peek_token.kind.name());
        msg.append(" instead");
        self.errors.push(msg);
        assert(texts(self.errors@) =~= texts(old(self).errors@) + seq![msg@]);
    }

    /// Records that no expression begins with the window's first token.
    fn expression_error(&mut self)
        requires
            old(self).wf(),
        ensures
            final(self).wf(),
            final(self)@.source == old(self)@.source,
            final(self)@.at == old(self)@.at,
            final(self)@.errors == old(self)@.errors + seq![
                expression_message(token_at(old(self)@.source, old(self)@.at).kind),
            ],
    {
        let mut msg = String::from_str("expected an expression, got ");
        msg.append(self.current_token.kind.name());
        msg.append(" instead");
        self.errors.push(msg);
        assert(texts(self.errors@) =~= texts(old(self).errors@) + seq![msg@]);
    }

    /// Steps onto the window's second token if it is of the category of
    /// `kind`. If it is not, records a diagnostic and leaves the window where
    /// it is.
    fn expect_peek(&mut self, kind: TokenType) -> (met: bool)
        requires
            old(self).wf(),
        ensures
            final(self).wf(),
            final(self)@.source == old(self)@.source,
            met == peeked(old(self)@.source, old(self)@.at).kind.same_category(kind@),
            met ==> final(self)@.at == token_end(old(self)@.source, old(self)@.at)
                && final(self)@.errors == old(self)@.errors,
            !met ==> final(self)@.at == old(self)@.at && final(self)@.errors == old(self)@.errors
                + seq![expectation_message(kind@, peeked(old(self)@.source, old(self)@.at).kind)],
    {
        if TokenType::variant_eq(&self.peek_token.kind, &kind) {
            self.next_token();
            true
        } else {
            self.peek_error(kind);
            false
        }
    }

    /// Whether the window's first token ends a statement: a `;` or the end
    /// of the input.
    fn at_boundary(&self) -> (ends: bool)
        requires
            self.wf(),
        ensures
            ends == is_boundary(token_at(self@.source, self@.at).kind),
    {
        match self.current_token.kind {
            TokenType::SEMICOLON => true,
            TokenType::EOF => true,
            _ => false,
        }
    }

    /// Moves the window onto the next `;`, or to the end of the input if
    /// there is none.
    fn skip_statement(&mut self)
        requires
            old(self).wf(),
        ensures
            final(self).wf(),
            final(self)@.source == old(self)@.source,
            final(self)@.errors == old(self)@.errors,
            final(self)@.at == synchronize(old(self)@.source, old(self)@.at),
    {
        while !self.at_boundary()
            invariant
                self.wf(),
                self@.source == old(self)@.source,
                self@.errors == old(self)@.errors,
                synchronize(self@.source, self@.at) == synchronize(
                    old(self)@.source,
                    old(self)@.at,
                ),
            decreases self@.source.len() - self@.at,
        {
            proof {
                lemma_token_end(self@.source, self@.at);
            }
            self.next_token();
        }
    }

    /// The expression that the window's first token is by itself, if it is
    /// one.
    fn parse_expression(&self) -> (expression: Option<Expression>)
        requires
            self.wf(),
        ensures
            match expression {
                Some(expression) => atom(token_at(self@.source, self@.at)) == Some(expression@),
                None => atom(token_at(self@.source, self@.at)) is None,
            },
    {
        match self.current_token.kind {
            TokenType::IDENT(_) => Some(
                Expression::Identifier(Identifier { name: self.current_token.literal.clone() }),
            ),
            TokenType::INT(_) => Some(
                Expression::Literal(Literal { value: self.current_token.literal.clone() }),
            ),
            TokenType::TRUE => Some(
                Expression::Literal(Literal { value: self.current_token.literal.clone() }),
            ),
            TokenType::FALSE => Some(
                Expression::Literal(Literal { value: self.current_token.literal.clone() }),
            ),
            _ => None,
        }
    }

    /// Parses the statements from the window's position to the end of the
    /// input. A statement that breaks its rule adds a diagnostic instead of
    /// a node, and parsing goes on after it. The result is always `Some`.
    pub fn parse_program(&mut self) -> (result: Option<Program>)
        requires
            old(self).wf(),
        ensures
            final(self).wf(),
            final(self)@.source == old(self)@.source,
            result matches Some(program) && program@ == program_from(
                old(self)@.source,
                old(self)@.at,
            ).statements,
            final(self)@.errors == old(self)@.errors + program_from(
                old(self)@.source,
                old(self)@.at,
            ).errors,
            final(self)@.at == program_from(old(self)@.source, old(self)@.at).at,
            token_at(final(self)@.source, final(self)@.at).kind == SpecKind::Eof,
    {
        let mut program = Program { statements: Vec::new() };
        let ghost src = self@.source;
        let ghost whole = program_from(src, self@.at);
        let ghost mut found: Seq<Seq<char>> = Seq::empty();
        assert(program@ =~= Seq::empty());
        assert(self@.errors =~= old(self)@.errors + found);
        while !TokenType::variant_eq(&self.current_token.kind, &TokenType::EOF)
            invariant
                self.wf(),
                self@.source == src,
                self@.errors == old(self)@.errors + found,
                whole.statements == program@ + program_from(src, self@.at).statements,
                whole.errors == found + program_from(src, self@.at).errors,
                whole.at == program_from(src, self@.at).at,
            decreases src.len() - self@.at,
        {
            let ghost at = self@.at;
            let ghost before = program@;
            proof {
                lemma_token_end(src, at);
                lemma_statement_ends(src, at);
                lemma_token_end(src, statement_at(src, at).at);
            }
            if let Some(stm) = self.parse_statement() {
                program.statements.push(stm);
            }
            self.next_token();
            proof {
                let first = statement_at(src, at);
                let rest = program_from(src, token_end(src, first.at));
                assert(program@ =~= before + optional(first.statement));
                assert(whole.statements =~= program@ + rest.statements);
                assert(whole.errors =~= (found + first.errors) + rest.errors);
                assert(self@.errors =~= old(self)@.errors + (found + first.errors));
                found = found + first.errors;
            }
        }
        assert(program@ =~= whole.statements);
        assert(found =~= whole.errors);
        Some(program)
    }

    /// Parses one statement, by the rule that the window's first token
    /// selects, and leaves the window on the statement's last token. Where
    /// the rule is broken the result is `None`, one diagnostic is recorded,
    /// and the window is left on the next `;` or at the end of the input.
    fn parse_statement(&mut self) -> (result: Option<Statement>)
        requires
            old(self).wf(),
        ensures
            final(self).wf(),
            final(self)@.source == old(self)@.source,
            complies(
                result,
                final(self)@,
                old(self)@,
                statement_at(old(self)@.source, old(self)@.at),
            ),
    {
        match self.current_token.kind {
            TokenType::LET => self.parse_let_statement(),
            TokenType::RETURN => self.parse_return_statement(),
            _ => self.parse_expression_statement(),
        }
    }

    /// Gives up the statement at hand: records nothing more and moves the
    /// window to the statement's end.
    fn abandon(&mut self) -> (result: Option<Statement>)
        requires
            old(self).wf(),
        ensures
            final(self).wf(),
            final(self)@.source == old(self)@.source,
            final(self)@.errors == old(self)@.errors,
            final(self)@.at == synchronize(old(self)@.source, old(self)@.at),
            result is None,
    {
        self.skip_statement();
        None
    }

    /// Parses a `let` statement; the window's first token is the `let`.
    fn parse_let_statement(&mut self) -> (result: Option<Statement>)
        requires
            old(self).wf(),
        ensures
            final(self).wf(),
            final(self)@.source == old(self)@.source,
            complies(
                result,
                final(self)@,
                old(self)@,
                let_rule(old(self)@.source, old(self)@.at),
            ),
    {
        let let_token = self.current_token.clone();

        if !self.expect_peek(TokenType::IDENT(String::new())) {
            return self.abandon();
        }
        let ident = Identifier { name: self.current_token.literal.clone() };

        if !self.expect_peek(TokenType::ASSIGN) {
            return self.abandon();
        }
        self.next_token();

        let value = match self.parse_expression() {
            Some(value) => value,
            None => {
                self.expression_error();
                return self.abandon();
            },
        };
        if !self.expect_peek(TokenType::SEMICOLON) {
            return self.abandon();
        }
        let stmt = LetStatement { token: let_token, name: ident, value };
        assert(self@.errors =~= old(self)@.errors + Seq::<Seq<char>>::empty());
        Some(Statement::Let(stmt))
    }

    /// Parses a `return` statement; the window's first token is the
    /// `return`.
    fn parse_return_statement(&mut self) -> (result: Option<Statement>)
        requires
            old(self).wf(),
        ensures
            final(self).wf(),
            final(self)@.source == old(self)@.source,
            complies(
                result,
                final(self)@,
                old(self)@,
                return_rule(old(self)@.source, old(self)@.at),
            ),
    {
        let return_token = self.current_token.clone();
        self.next_token();

        let return_value = match self.parse_expression() {
            Some(value) => value,
            None => {
                self.expression_error();
                return self.abandon();
            },
        };
        if !self.expect_peek(TokenType::SEMICOLON) {
            return self.abandon();
        }
        let stmt = ReturnStatement { token: return_token, return_value };
        assert(self@.errors =~= old(self)@.errors + Seq::<Seq<char>>::empty());
        Some(Statement::Return(stmt))
    }

    /// Parses an expression that stands as a statement, and the `;` after
    /// it if there is one.
    fn parse_expression_statement(&mut self) -> (result: Option<Statement>)
        requires
            old(self).wf(),
        ensures
            final(self).wf(),
            final(self)@.source == old(self)@.source,
            complies(
                result,
                final(self)@,
                old(self)@,
                expression_rule(old(self)@.source, old(self)@.at),
            ),
    {
        let token = self.current_token.clone();
        let expression = match self.parse_expression() {
            Some(expression) => expression,
            None => {
                self.expression_error();
                return self.abandon();
            },
        };
        if TokenType::variant_eq(&self.peek_token.kind, &TokenType::SEMICOLON) {
            self.next_token();
        }
        let stmt = ExpressionStatement { token, expression };
        assert(self@.errors =~= old(self)@.errors + Seq::<Seq<char>>::empty());
        Some(Statement::Expression(stmt))
    }
}

} // verus!
