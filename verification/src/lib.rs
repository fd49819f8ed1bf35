//! Syntactic front end for a small indentation-sensitive scripting language.
//!
//! The parser turns a finished sequence of lexical tokens into an abstract
//! syntax tree: a recursive-descent engine that resolves operator precedence,
//! interprets explicit indent/dedent markers to build nested statement lists,
//! and recovers typed statements (bindings, conditionals, function
//! definitions, output statements) from the flat token stream, reporting the
//! first syntax error it meets.
//!
//! The grammar itself is written down once, as specification functions over
//! the token sequence (`grammar`); the executable parser (`parser`) is proved
//! to return exactly what those functions describe.

pub mod ast;
pub mod grammar;
pub mod laws;
pub mod parser;
pub mod token;

pub use ast::{
    BinaryOperation, BinaryOperator, Expression, FunctionDef, LetStatement, Program, ShowStatement,
    Statement, WhenStatement,
};
pub use parser::{ParseError, Parser};
pub use token::{Token, TokenKind};
