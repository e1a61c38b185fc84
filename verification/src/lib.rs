//! The front end of a small language: a lexer that turns source text into
//! tokens and a parser that turns the tokens into a tree of statements.
//!
//! Every function states what it computes over a mathematical model. The
//! source is a `Seq<char>`, a token is a [`token::SpecToken`], a statement a
//! [`ast::SpecStatement`]. The lexical rules are the spec functions of
//! [`lexical`], the grammar those of [`syntax`]; [`lexer`] and [`parser`]
//! hold the code that computes them, and [`laws`] what follows from the
//! rules for whole sources.

pub mod ast;
pub mod laws;
pub mod lexer;
pub mod lexical;
pub mod parser;
pub mod syntax;
pub mod token;
pub mod utils;
