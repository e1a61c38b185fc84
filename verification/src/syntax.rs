//! The grammar of statements, as functions of the source text.
//!
//! The parser looks at the source through a window of two tokens. Where the
//! window stands is one position `at`: its first token is the one read from
//! `at`, its second the one read from where the first ends. A rule of the
//! grammar is a function from the source and that position to what the rule
//! yields: a statement or a diagnostic, and the position at which the
//! parser is left.
//!
//! The grammar:
//!
//! ```text
//! program    = { statement }
//! statement  = "let" IDENT "=" expression ";"
//!            | "return" expression ";"
//!            | expression [ ";" ]
//! expression = IDENT | INT | "true" | "false"
//! ```
//!
//! A statement that breaks its rule yields one diagnostic and no node; the
//! parser then moves on to the next `;`, or to the end of the input, and goes
//! on after it. Earlier statements are never touched.

use vstd::prelude::*;

use crate::ast::{
    SpecExpression, SpecExpressionStatement, SpecLetStatement, SpecReturnStatement, SpecStatement,
};
use crate::laws::{between_tokens, is_blank, lemma_blank_between_tokens};
use crate::lexical::{lemma_token_end, token_at, token_end, token_start, tokens_from};
use crate::token::{SpecKind, SpecToken};

verus! {

/// What one attempt at a statement yields.
pub struct Parsed {
    /// The statement, where the rule was met.
    pub statement: Option<SpecStatement>,
    /// The diagnostics of the attempt, in the order in which they arose.
    pub errors: Seq<Seq<char>>,
    /// Where the parser is left: on the statement's last token.
    pub at: int,
}

/// What parsing a whole source yields.
pub struct ParsedProgram {
    /// The statements that met their rule, in source order.
    pub statements: Seq<SpecStatement>,
    /// The diagnostics of those that did not, in source order.
    pub errors: Seq<Seq<char>>,
    /// Where the parser is left: at the end of the input.
    pub at: int,
}

/// The second token of the window that stands at `at`.
pub open spec fn peeked(src: Seq<char>, at: int) -> SpecToken {
    token_at(src, token_end(src, at))
}

/// The diagnostic for a token of another kind than was expected.
pub open spec fn expectation_message(expected: SpecKind, actual: SpecKind) -> Seq<char> {
    "expected next token to be "@ + expected.name() + ", got "@ + actual.name() + " instead"@
}

/// The diagnostic for a token with which no expression begins.
pub open spec fn expression_message(actual: SpecKind) -> Seq<char> {
    "expected an expression, got "@ + actual.name() + " instead"@
}

/// The expression that `token` is by itself, if it is one: an identifier,
/// an integer literal, `true` or `false`.
pub open spec fn atom(token: SpecToken) -> Option<SpecExpression> {
    match token.kind {
        SpecKind::Ident(_) => Some(SpecExpression::Identifier(token.literal)),
        SpecKind::Int(_) => Some(SpecExpression::Literal(token.literal)),
        SpecKind::True => Some(SpecExpression::Literal(token.literal)),
        SpecKind::False => Some(SpecExpression::Literal(token.literal)),
        _ => None,
    }
}

/// Whether a statement ends with a token of this kind, or the input.
pub open spec fn is_boundary(kind: SpecKind) -> bool {
    kind == SpecKind::Semicolon || kind == SpecKind::Eof
}

/// The first position from `at` on at which the window's first token is a
/// `;` or the end of the input.
pub open spec fn synchronize(src: Seq<char>, at: int) -> int
    decreases src.len() - at,
    when 0 <= at <= src.len()
{
    if is_boundary(token_at(src, at).kind) {
        at
    } else {
        proof {
            lemma_token_end(src, at);
        }
        synchronize(src, token_end(src, at))
    }
}

/// A statement that met its rule and ends at `at`.
pub open spec fn accepted(statement: SpecStatement, at: int) -> Parsed {
    Parsed { statement: Some(statement), errors: Seq::empty(), at }
}

/// A statement that broke its rule where the parser stood at `at`.
pub open spec fn rejected(src: Seq<char>, at: int, message: Seq<char>) -> Parsed {
    Parsed { statement: None, errors: seq![message], at: synchronize(src, at) }
}

/// An expression and the `;` that must follow it, with the window on the
/// expression's token; `make` builds the statement around the expression.
pub open spec fn value_and_semicolon(
    src: Seq<char>,
    at: int,
    make: spec_fn(SpecExpression) -> SpecStatement,
) -> Parsed {
    let value = token_at(src, at);
    match atom(value) {
        None => rejected(src, at, expression_message(value.kind)),
        Some(expression) => if peeked(src, at).kind == SpecKind::Semicolon {
            accepted(make(expression), token_end(src, at))
        } else {
            rejected(src, at, expectation_message(SpecKind::Semicolon, peeked(src, at).kind))
        },
    }
}

/// The rule `"let" IDENT "=" expression ";"`, with the window on `let`.
pub open spec fn let_rule(src: Seq<char>, at: int) -> Parsed {
    let name_at = token_end(src, at);
    let assign_at = token_end(src, name_at);
    let value_at = token_end(src, assign_at);
    if !(peeked(src, at).kind is Ident) {
        rejected(
            src,
            at,
            expectation_message(SpecKind::Ident(Seq::empty()), peeked(src, at).kind),
        )
    } else if peeked(src, name_at).kind != SpecKind::Assign {
        rejected(
            src,
            name_at,
            expectation_message(SpecKind::Assign, peeked(src, name_at).kind),
        )
    } else {
        value_and_semicolon(
            src,
            value_at,
            |value: SpecExpression|
                SpecStatement::Let(
                    SpecLetStatement {
                        token: token_at(src, at),
                        name: token_at(src, name_at).literal,
                        value,
                    },
                ),
        )
    }
}

/// The rule `"return" expression ";"`, with the window on `return`.
pub open spec fn return_rule(src: Seq<char>, at: int) -> Parsed {
    value_and_semicolon(
        src,
        token_end(src, at),
        |return_value: SpecExpression|
            SpecStatement::Return(SpecReturnStatement { token: token_at(src, at), return_value }),
    )
}

/// The rule `expression [";"]`, with the window on the expression's token.
pub open spec fn expression_rule(src: Seq<char>, at: int) -> Parsed {
    let first = token_at(src, at);
    match atom(first) {
        None => rejected(src, at, expression_message(first.kind)),
        Some(expression) => accepted(
            SpecStatement::Expression(SpecExpressionStatement { token: first, expression }),
            if peeked(src, at).kind == SpecKind::Semicolon {
                token_end(src, at)
            } else {
                at
            },
        ),
    }
}

/// One statement, by the rule that the window's first token selects.
pub open spec fn statement_at(src: Seq<char>, at: int) -> Parsed {
    match token_at(src, at).kind {
        SpecKind::Let => let_rule(src, at),
        SpecKind::Return => return_rule(src, at),
        _ => expression_rule(src, at),
    }
}

/// A statement if there is one, as a sequence.
pub open spec fn optional(statement: Option<SpecStatement>) -> Seq<SpecStatement> {
    match statement {
        Some(statement) => seq![statement],
        None => Seq::empty(),
    }
}

/// All statements from `at` to the end of the input: one attempt after the
/// other, each followed by one step over the token on which it ended.
pub open spec fn program_from(src: Seq<char>, at: int) -> ParsedProgram
    decreases src.len() - at,
    when 0 <= at <= src.len()
{
    if token_at(src, at).kind == SpecKind::Eof {
        ParsedProgram { statements: Seq::empty(), errors: Seq::empty(), at }
    } else {
        let first = statement_at(src, at);
        proof {
            lemma_token_end(src, at);
            lemma_statement_ends(src, at);
            lemma_token_end(src, first.at);
        }
        let rest = program_from(src, token_end(src, first.at));
        ParsedProgram {
            statements: optional(first.statement) + rest.statements,
            errors: first.errors + rest.errors,
            at: rest.at,
        }
    }
}

/// Synchronizing moves forward, stays inside the source and ends on a
/// statement boundary.
pub proof fn lemma_synchronize(src: Seq<char>, at: int)
    requires
        0 <= at <= src.len(),
    ensures
        at <= synchronize(src, at) <= src.len(),
        is_boundary(token_at(src, synchronize(src, at)).kind),
    decreases src.len() - at,
{
    if !is_boundary(token_at(src, at).kind) {
        lemma_token_end(src, at);
        lemma_synchronize(src, token_end(src, at));
    }
}

/// An attempt at a statement leaves the parser at or after the position at
/// which it began, inside the source.
pub proof fn lemma_statement_ends(src: Seq<char>, at: int)
    requires
        0 <= at <= src.len(),
    ensures
        at <= statement_at(src, at).at <= src.len(),
{
    let name_at = token_end(src, at);
    let assign_at = token_end(src, name_at);
    let value_at = token_end(src, assign_at);
    lemma_token_end(src, at);
    lemma_token_end(src, name_at);
    lemma_token_end(src, assign_at);
    lemma_token_end(src, value_at);
    lemma_synchronize(src, at);
    lemma_synchronize(src, name_at);
    lemma_synchronize(src, value_at);
}

/// An attempt at a statement yields a statement and no diagnostic, or no
/// statement and one diagnostic; in the second case it leaves the parser on
/// a `;` or at the end of the input.
pub proof fn lemma_statement_or_diagnostic(src: Seq<char>, at: int)
    requires
        0 <= at <= src.len(),
    ensures
        statement_at(src, at).statement is Some ==> statement_at(src, at).errors.len() == 0,
        statement_at(src, at).statement is None ==> statement_at(src, at).errors.len() == 1
            && is_boundary(token_at(src, statement_at(src, at).at).kind),
{
    let name_at = token_end(src, at);
    let assign_at = token_end(src, name_at);
    let value_at = token_end(src, assign_at);
    lemma_token_end(src, at);
    lemma_token_end(src, name_at);
    lemma_token_end(src, assign_at);
    lemma_synchronize(src, at);
    lemma_synchronize(src, name_at);
    lemma_synchronize(src, value_at);
}

/// Parsing a source leaves the parser at the end of the input, and finds no
/// more statements and diagnostics together than characters were left.
pub proof fn lemma_program_ends_at_end_of_input(src: Seq<char>, at: int)
    requires
        0 <= at <= src.len(),
    ensures
        at <= program_from(src, at).at <= src.len(),
        token_at(src, program_from(src, at).at).kind == SpecKind::Eof,
        program_from(src, at).statements.len() + program_from(src, at).errors.len() <= src.len()
            - at,
    decreases src.len() - at,
{
    if token_at(src, at).kind != SpecKind::Eof {
        let first = statement_at(src, at);
        lemma_token_end(src, at);
        lemma_statement_ends(src, at);
        lemma_statement_or_diagnostic(src, at);
        lemma_token_end(src, first.at);
        lemma_program_ends_at_end_of_input(src, token_end(src, first.at));
    }
}

/// Parsing once more where a parse has ended finds nothing: no statement,
/// no diagnostic, and the parser stays where it is.
pub proof fn lemma_parsing_again_finds_nothing(src: Seq<char>, at: int)
    requires
        0 <= at <= src.len(),
    ensures
        program_from(src, program_from(src, at).at) == (ParsedProgram {
            statements: Seq::empty(),
            errors: Seq::empty(),
            at: program_from(src, at).at,
        }),
{
    lemma_program_ends_at_end_of_input(src, at);
}

/// Two positions, each in its source, from which the same tokens are read.
pub open spec fn same_tokens(s1: Seq<char>, at1: int, s2: Seq<char>, at2: int) -> bool {
    &&& 0 <= at1 <= s1.len()
    &&& 0 <= at2 <= s2.len()
    &&& tokens_from(s1, at1) == tokens_from(s2, at2)
}

/// Where the same tokens are read, the first token is the same, and after
/// it the same tokens are read.
proof fn lemma_same_tokens_step(s1: Seq<char>, at1: int, s2: Seq<char>, at2: int)
    requires
        same_tokens(s1, at1, s2, at2),
    ensures
        token_at(s1, at1) == token_at(s2, at2),
        same_tokens(s1, token_end(s1, at1), s2, token_end(s2, at2)),
{
    lemma_token_end(s1, at1);
    lemma_token_end(s2, at2);
    let t1 = tokens_from(s1, at1);
    let t2 = tokens_from(s2, at2);
    assert(t1[0] == token_at(s1, at1));
    assert(t2[0] == token_at(s2, at2));
    let e1 = token_end(s1, at1);
    let e2 = token_end(s2, at2);
    if token_start(s1, at1) < s1.len() {
        assert(tokens_from(s1, e1) =~= t1.subrange(1, t1.len() as int));
        assert(tokens_from(s2, e2) =~= t2.subrange(1, t2.len() as int));
    } else {
        lemma_token_end(s1, e1);
        lemma_token_end(s2, e2);
    }
}

/// Where the same tokens are read, a statement ends at the same token.
proof fn lemma_synchronize_same_tokens(s1: Seq<char>, at1: int, s2: Seq<char>, at2: int)
    requires
        same_tokens(s1, at1, s2, at2),
    ensures
        same_tokens(s1, synchronize(s1, at1), s2, synchronize(s2, at2)),
    decreases s1.len() - at1,
{
    lemma_same_tokens_step(s1, at1, s2, at2);
    if !is_boundary(token_at(s1, at1).kind) {
        lemma_token_end(s1, at1);
        lemma_synchronize_same_tokens(s1, token_end(s1, at1), s2, token_end(s2, at2));
    }
}

/// Where the same tokens are read, an attempt at a statement yields the
/// same, and after it the same tokens are read.
proof fn lemma_statement_of_same_tokens(s1: Seq<char>, at1: int, s2: Seq<char>, at2: int)
    requires
        same_tokens(s1, at1, s2, at2),
    ensures
        statement_at(s1, at1).statement == statement_at(s2, at2).statement,
        statement_at(s1, at1).errors == statement_at(s2, at2).errors,
        same_tokens(s1, statement_at(s1, at1).at, s2, statement_at(s2, at2).at),
{
    let name1 = token_end(s1, at1);
    let name2 = token_end(s2, at2);
    let assign1 = token_end(s1, name1);
    let assign2 = token_end(s2, name2);
    let value1 = token_end(s1, assign1);
    let value2 = token_end(s2, assign2);
    lemma_same_tokens_step(s1, at1, s2, at2);
    lemma_same_tokens_step(s1, name1, s2, name2);
    lemma_same_tokens_step(s1, assign1, s2, assign2);
    lemma_same_tokens_step(s1, value1, s2, value2);
    lemma_same_tokens_step(s1, token_end(s1, value1), s2, token_end(s2, value2));
    lemma_synchronize_same_tokens(s1, at1, s2, at2);
    lemma_synchronize_same_tokens(s1, name1, s2, name2);
    lemma_synchronize_same_tokens(s1, value1, s2, value2);
}

/// The statements and diagnostics of a source depend on its tokens alone:
/// where the same tokens are read, parsing yields the same.
pub proof fn lemma_program_of_same_tokens(s1: Seq<char>, at1: int, s2: Seq<char>, at2: int)
    requires
        same_tokens(s1, at1, s2, at2),
    ensures
        program_from(s1, at1).statements == program_from(s2, at2).statements,
        program_from(s1, at1).errors == program_from(s2, at2).errors,
    decreases s1.len() - at1,
{
    lemma_same_tokens_step(s1, at1, s2, at2);
    if token_at(s1, at1).kind != SpecKind::Eof {
        let first1 = statement_at(s1, at1);
        let first2 = statement_at(s2, at2);
        lemma_statement_of_same_tokens(s1, at1, s2, at2);
        lemma_same_tokens_step(s1, first1.at, s2, first2.at);
        lemma_token_end(s1, at1);
        lemma_statement_ends(s1, at1);
        lemma_token_end(s1, first1.at);
        lemma_program_of_same_tokens(s1, token_end(s1, first1.at), s2, token_end(s2, first2.at));
    }
}

/// Whitespace between tokens does not matter to the parser: a run of
/// whitespace that is put into a source at a place between two tokens leaves
/// the statements and the diagnostics of the source as they are.
pub proof fn lemma_program_with_blank_between_tokens(
    before: Seq<char>,
    blank: Seq<char>,
    after: Seq<char>,
)
    requires
        is_blank(blank),
        between_tokens(before + after, 0, before.len() as int),
    ensures
        program_from(before + blank + after, 0).statements == program_from(
            before + after,
            0,
        ).statements,
        program_from(before + blank + after, 0).errors == program_from(before + after, 0).errors,
{
    lemma_blank_between_tokens(before, blank, after);
    lemma_program_of_same_tokens(before + blank + after, 0, before + after, 0);
}

} // verus!
