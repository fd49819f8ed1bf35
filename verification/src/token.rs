//! Tokens as the external tokenizer hands them over, and their kinds.
//!
//! A token is immutable once produced; the parser only reads it. The parser
//! dispatches on the *kind* of a token (the tag alone, ignoring any carried
//! payload such as an identifier's name), so beside `Token` there is the
//! payload-free `TokenKind`.

use vstd::prelude::*;

verus! {

/// A lexical token. `Identifier` and `StringLit` carry their text,
/// `Number` its value; every other variant is a bare marker.
#[derive(Debug, PartialEq, Eq)]
pub enum Token {
    /// End of input. The parser also treats a read position past the end of
    /// the sequence as this token.
    Eof,
    Newline,
    /// Opens a nested block (derived from indentation by the tokenizer).
    Indent,
    /// Closes a nested block.
    Dedent,
    Let,
    Be,
    Show,
    When,
    Then,
    Otherwise,
    Define,
    With,
    End,
    Identifier(String),
    Number(i64),
    StringLit(String),
    Plus,
    Minus,
    Multiply,
    Divide,
    IsGreaterThan,
    IsLessThan,
    IsGreaterThanOrEqual,
    IsLessThanOrEqual,
    IsEqual,
    IsNotEqual,
}

/// The tag of a token, with any payload forgotten.
#[derive(Debug, Clone, Copy, PartialEq, Eq, Structural)]
pub enum TokenKind {
    Eof,
    Newline,
    Indent,
    Dedent,
    Let,
    Be,
    Show,
    When,
    Then,
    Otherwise,
    Define,
    With,
    End,
    Identifier,
    Number,
    StringLit,
    Plus,
    Minus,
    Multiply,
    Divide,
    IsGreaterThan,
    IsLessThan,
    IsGreaterThanOrEqual,
    IsLessThanOrEqual,
    IsEqual,
    IsNotEqual,
}

/// The kind of a token.
pub open spec fn kind_of(t: Token) -> TokenKind {
    match t {
        Token::Eof => TokenKind::Eof,
        Token::Newline => TokenKind::Newline,
        Token::Indent => TokenKind::Indent,
        Token::Dedent => TokenKind::Dedent,
        Token::Let => TokenKind::Let,
        Token::Be => TokenKind::Be,
        Token::Show => TokenKind::Show,
        Token::When => TokenKind::When,
        Token::Then => TokenKind::Then,
        Token::Otherwise => TokenKind::Otherwise,
        Token::Define => TokenKind::Define,
        Token::With => TokenKind::With,
        Token::End => TokenKind::End,
        Token::Identifier(_) => TokenKind::Identifier,
        Token::Number(_) => TokenKind::Number,
        Token::StringLit(_) => TokenKind::StringLit,
        Token::Plus => TokenKind::Plus,
        Token::Minus => TokenKind::Minus,
        Token::Multiply => TokenKind::Multiply,
        Token::Divide => TokenKind::Divide,
        Token::IsGreaterThan => TokenKind::IsGreaterThan,
        Token::IsLessThan => TokenKind::IsLessThan,
        Token::IsGreaterThanOrEqual => TokenKind::IsGreaterThanOrEqual,
        Token::IsLessThanOrEqual => TokenKind::IsLessThanOrEqual,
        Token::IsEqual => TokenKind::IsEqual,
        Token::IsNotEqual => TokenKind::IsNotEqual,
    }
}

/// Computes the kind of a token.
pub fn token_kind(t: &Token) -> (k: TokenKind)
    ensures
        k == kind_of(*t),
{
    match t {
        Token::Eof => TokenKind::Eof,
        Token::Newline => TokenKind::Newline,
        Token::Indent => TokenKind::Indent,
        Token::Dedent => TokenKind::Dedent,
        Token::Let => TokenKind::Let,
        Token::Be => TokenKind::Be,
        Token::Show => TokenKind::Show,
        Token::When => TokenKind::When,
        Token::Then => TokenKind::Then,
        Token::Otherwise => TokenKind::Otherwise,
        Token::Define => TokenKind::Define,
        Token::With => TokenKind::With,
        Token::End => TokenKind::End,
        Token::Identifier(_) => TokenKind::Identifier,
        Token::Number(_) => TokenKind::Number,
        Token::StringLit(_) => TokenKind::StringLit,
        Token::Plus => TokenKind::Plus,
        Token::Minus => TokenKind::Minus,
        Token::Multiply => TokenKind::Multiply,
        Token::Divide => TokenKind::Divide,
        Token::IsGreaterThan => TokenKind::IsGreaterThan,
        Token::IsLessThan => TokenKind::IsLessThan,
        Token::IsGreaterThanOrEqual => TokenKind::IsGreaterThanOrEqual,
        Token::IsLessThanOrEqual => TokenKind::IsLessThanOrEqual,
        Token::IsEqual => TokenKind::IsEqual,
        Token::IsNotEqual => TokenKind::IsNotEqual,
    }
}

/// The token at a position of the sequence; positions past the end read as
/// end-of-input, so no look-up is ever out of bounds.
pub open spec fn token_at(toks: Seq<Token>, pos: int) -> Token {
    if 0 <= pos < toks.len() {
        toks[pos]
    } else {
        Token::Eof
    }
}

} // verus!
