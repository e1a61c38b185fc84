//! The syntax tree: a program is a sequence of statements, and every node
//! owns its children.

use vstd::prelude::*;

use crate::token::{SpecToken, Token};

verus! {

/// The mathematical value of an [`Expression`].
pub enum SpecExpression {
    /// A name.
    Identifier(Seq<char>),
    /// An integer or boolean literal, as the source spells it.
    Literal(Seq<char>),
}

impl SpecExpression {
    /// The expression as text.
    pub open spec fn text(self) -> Seq<char> {
        match self {
            SpecExpression::Identifier(name) => name,
            SpecExpression::Literal(value) => value,
        }
    }
}

/// The mathematical value of a [`LetStatement`].
pub struct SpecLetStatement {
    pub token: SpecToken,
    pub name: Seq<char>,
    pub value: SpecExpression,
}

/// The mathematical value of a [`ReturnStatement`].
pub struct SpecReturnStatement {
    pub token: SpecToken,
    pub return_value: SpecExpression,
}

/// The mathematical value of an [`ExpressionStatement`].
pub struct SpecExpressionStatement {
    pub token: SpecToken,
    pub expression: SpecExpression,
}

/// The mathematical value of a [`Statement`].
pub enum SpecStatement {
    Let(SpecLetStatement),
    Return(SpecReturnStatement),
    Expression(SpecExpressionStatement),
}

impl SpecStatement {
    /// The token with which the statement begins.
    pub open spec fn token(self) -> SpecToken {
        match self {
            SpecStatement::Let(statement) => statement.token,
            SpecStatement::Return(statement) => statement.token,
            SpecStatement::Expression(statement) => statement.token,
        }
    }

    /// The statement as text: the text of the expression it holds.
    pub open spec fn text(self) -> Seq<char> {
        match self {
            SpecStatement::Let(statement) => statement.value.text(),
            SpecStatement::Return(statement) => statement.return_value.text(),
            SpecStatement::Expression(statement) => statement.expression.text(),
        }
    }
}

/// The texts of `statements`, one after the other.
pub open spec fn joined_text(statements: Seq<SpecStatement>) -> Seq<char>
    decreases statements.len(),
{
    if statements.len() == 0 {
        Seq::empty()
    } else {
        joined_text(statements.drop_last()) + statements.last().text()
    }
}

/// What every node of the tree can say of itself.
pub trait Node {
    /// What [`Node::token_literal`] returns.
    spec fn spec_token_literal(&self) -> Seq<char>;

    /// What [`Node::to_string`] returns.
    spec fn spec_to_string(&self) -> Seq<char>;

    /// The literal of the token with which the node begins.
    fn token_literal(&self) -> (literal: String)
        ensures
            literal@ == self.spec_token_literal(),
    ;

    /// The node as text.
    fn to_string(&self) -> (text: String)
        ensures
            text@ == self.spec_to_string(),
    ;
}

/// A name.
#[derive(Debug)]
pub struct Identifier {
    pub name: String,
}

impl View for Identifier {
    type V = Seq<char>;

    open spec fn view(&self) -> Seq<char> {
        self.name@
    }
}

/// An integer or boolean literal, as the source spells it.
#[derive(Debug)]
pub struct Literal {
    pub value: String,
}

impl View for Literal {
    type V = Seq<char>;

    open spec fn view(&self) -> Seq<char> {
        self.value@
    }
}

/// What has a value: a name or a literal.
#[derive(Debug)]
pub enum Expression {
    Identifier(Identifier),
    Literal(Literal),
}

impl View for Expression {
    type V = SpecExpression;

    open spec fn view(&self) -> SpecExpression {
        match self {
            Expression::Identifier(identifier) => SpecExpression::Identifier(identifier@),
            Expression::Literal(literal) => SpecExpression::Literal(literal@),
        }
    }
}

impl Expression {
    /// The expression as text.
    pub fn text(&self) -> (text: String)
        ensures
            text@ == self@.text(),
    {
        match self {
            Expression::Identifier(identifier) => identifier.name.clone(),
            Expression::Literal(literal) => literal.value.clone(),
        }
    }
}

/// `let <name> = <value>;`
#[derive(Debug)]
pub struct LetStatement {
    pub token: Token,
    pub name: Identifier,
    pub value: Expression,
}

impl View for LetStatement {
    type V = SpecLetStatement;

    open spec fn view(&self) -> SpecLetStatement {
        SpecLetStatement { token: self.token@, name: self.name@, value: self.value@ }
    }
}

impl Node for LetStatement {
    open spec fn spec_token_literal(&self) -> Seq<char> {
        self@.token.literal
    }

    open spec fn spec_to_string(&self) -> Seq<char> {
        self@.value.text()
    }

    fn token_literal(&self) -> (literal: String) {
        self.token.literal.clone()
    }

    fn to_string(&self) -> (text: String) {
        self.value.text()
    }
}

/// `return <value>;`
#[derive(Debug)]
pub struct ReturnStatement {
    pub token: Token,
    pub return_value: Expression,
}

impl View for ReturnStatement {
    type V = SpecReturnStatement;

    open spec fn view(&self) -> SpecReturnStatement {
        SpecReturnStatement { token: self.token@, return_value: self.return_value@ }
    }
}

impl Node for ReturnStatement {
    open spec fn spec_token_literal(&self) -> Seq<char> {
        self@.token.literal
    }

    open spec fn spec_to_string(&self) -> Seq<char> {
        self@.return_value.text()
    }

    fn token_literal(&self) -> (literal: String) {
        self.token.literal.clone()
    }

    fn to_string(&self) -> (text: String) {
        self.return_value.text()
    }
}

/// An expression that stands as a statement.
#[derive(Debug)]
pub struct ExpressionStatement {
    pub token: Token,
    pub expression: Expression,
}

impl View for ExpressionStatement {
    type V = SpecExpressionStatement;

    open spec fn view(&self) -> SpecExpressionStatement {
        SpecExpressionStatement { token: self.token@, expression: self.expression@ }
    }
}

impl Node for ExpressionStatement {
    open spec fn spec_token_literal(&self) -> Seq<char> {
        self@.token.literal
    }

    open spec fn spec_to_string(&self) -> Seq<char> {
        self@.expression.text()
    }

    fn token_literal(&self) -> (literal: String) {
        self.token.literal.clone()
    }

    fn to_string(&self) -> (text: String) {
        self.expression.text()
    }
}

/// One statement of a program.
#[derive(Debug)]
pub enum Statement {
    Let(LetStatement),
    Return(ReturnStatement),
    Expression(ExpressionStatement),
}

impl View for Statement {
    type V = SpecStatement;

    open spec fn view(&self) -> SpecStatement {
        match self {
            Statement::Let(statement) => SpecStatement::Let(statement@),
            Statement::Return(statement) => SpecStatement::Return(statement@),
            Statement::Expression(statement) => SpecStatement::Expression(statement@),
        }
    }
}

impl Node for Statement {
    open spec fn spec_token_literal(&self) -> Seq<char> {
        self@.token().literal
    }

    open spec fn spec_to_string(&self) -> Seq<char> {
        self@.text()
    }

    fn token_literal(&self) -> (literal: String) {
        match self {
            Statement::Let(statement) => statement.token_literal(),
            Statement::Return(statement) => statement.token_literal(),
            Statement::Expression(statement) => statement.token_literal(),
        }
    }

    fn to_string(&self) -> (text: String) {
        match self {
            Statement::Let(statement) => statement.to_string(),
            Statement::Return(statement) => statement.to_string(),
            Statement::Expression(statement) => statement.to_string(),
        }
    }
}

/// The root of the tree: the statements of a source, in source order.
#[derive(Debug)]
pub struct Program {
    pub statements: Vec<Statement>,
}

impl View for Program {
    type V = Seq<SpecStatement>;

    open spec fn view(&self) -> Seq<SpecStatement> {
        Seq::new(self.statements@.len(), |i: int| self.statements@[i]@)
    }
}

impl Node for Program {
    /// The literal of the first statement's token; empty for a program
    /// without statements.
    open spec fn spec_token_literal(&self) -> Seq<char> {
        if self@.len() > 0 {
            self@[0].token().literal
        } else {
            Seq::empty()
        }
    }

    /// The texts of the statements, one after the other.
    open spec fn spec_to_string(&self) -> Seq<char> {
        joined_text(self@)
    }

    fn token_literal(&self) -> (literal: String) {
        if self.statements.len() > 0 {
            self.statements[0].token_literal()
        } else {
            String::new()
        }
    }

    fn to_string(&self) -> (text: String) {
        let mut text = String::new();
        let mut index: usize = 0;
        assert(self@.take(0) =~= Seq::empty());
        while index < self.statements.len()
            invariant
                index <= self.statements.len(),
                text@ == joined_text(self@.take(index as int)),
            decreases self.statements.len() - index,
        {
            let piece = self.statements[index].to_string();
            proof {
                let longer = self@.take(index + 1);
                assert(longer.drop_last() =~= self@.take(index as int));
                assert(longer.last() == self.statements@[index as int]@);
            }
            text.append(piece.as_str());
            index += 1;
        }
        assert(self@.take(index as int) =~= self@);
        text
    }
}

} // verus!
