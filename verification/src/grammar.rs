//! The grammar, written as specification functions over the token sequence.
//!
//! Each function takes the whole token sequence and a read position and
//! returns what is parsed there together with the number of tokens consumed.
//! On failure the error alone matters, and the count is zero by convention.
//! The executable parser in [`crate::parser`] is proved to return exactly
//! these results.
//!
//! The expression grammar has four strictly left-associative levels,
//! tightest-binding innermost: primary, multiplicative, additive, comparison.
//! Each level parses one operand of the level below and then folds
//! `left := BinaryOp(left, op, next)` while its own operators follow, so
//! chains of same-level operators come out flat and left-nested.

use vstd::prelude::*;

use crate::ast::{BinaryOperation, BinaryOperator, Expression, StmtV};
use crate::parser::ParseError;
use crate::token::{kind_of, token_at, Token, TokenKind};

verus! {

/// How many tokens lie at or after a position: the measure every recursion
/// here shrinks.
pub open spec fn remaining(toks: Seq<Token>, pos: int) -> nat {
    if pos <= toks.len() {
        (toks.len() - pos) as nat
    } else {
        0
    }
}

/// The length of the run of newline tokens starting at a position.
pub open spec fn newline_run(toks: Seq<Token>, pos: int) -> nat
    decreases remaining(toks, pos),
{
    if pos < toks.len() && token_at(toks, pos) is Newline {
        1 + newline_run(toks, pos + 1)
    } else {
        0
    }
}

/// The multiplicative operator a token stands for, if any.
pub open spec fn mul_op_of(t: Token) -> Option<BinaryOperator> {
    match t {
        Token::Multiply => Some(BinaryOperator::Multiply),
        Token::Divide => Some(BinaryOperator::Divide),
        _ => None,
    }
}

/// The additive operator a token stands for, if any.
pub open spec fn add_op_of(t: Token) -> Option<BinaryOperator> {
    match t {
        Token::Plus => Some(BinaryOperator::Add),
        Token::Minus => Some(BinaryOperator::Subtract),
        _ => None,
    }
}

/// The comparison operator a token stands for, if any.
pub open spec fn cmp_op_of(t: Token) -> Option<BinaryOperator> {
    match t {
        Token::IsGreaterThan => Some(BinaryOperator::GreaterThan),
        Token::IsLessThan => Some(BinaryOperator::LessThan),
        Token::IsGreaterThanOrEqual => Some(BinaryOperator::GreaterThanOrEqual),
        Token::IsLessThanOrEqual => Some(BinaryOperator::LessThanOrEqual),
        Token::IsEqual => Some(BinaryOperator::Equal),
        Token::IsNotEqual => Some(BinaryOperator::NotEqual),
        _ => None,
    }
}

/// The two operands folded under an operator.
pub open spec fn fold_op(left: Expression, op: BinaryOperator, right: Expression) -> Expression {
    Expression::BinaryOp(
        BinaryOperation { left: Box::new(left), operator: op, right: Box::new(right) },
    )
}

/// A primary expression: a single number, string or identifier token. Any
/// other token here is the terminal expression error.
pub open spec fn spec_parse_primary(toks: Seq<Token>, pos: int) -> (Result<Expression, ParseError>, nat) {
    match token_at(toks, pos) {
        Token::Number(n) => (Ok(Expression::Number(n)), 1),
        Token::StringLit(s) => (Ok(Expression::StringLit(s)), 1),
        Token::Identifier(name) => (Ok(Expression::Identifier(name)), 1),
        t => (Err(ParseError::UnexpectedTokenInExpression { found: kind_of(t) }), 0),
    }
}

/// Folds `left := BinaryOp(left, op, primary)` while a multiplicative
/// operator follows.
pub open spec fn spec_term_rest(toks: Seq<Token>, pos: int, left: Expression) -> (
    Result<Expression, ParseError>,
    nat,
)
    decreases remaining(toks, pos),
{
    match mul_op_of(token_at(toks, pos)) {
        Some(op) => {
            let (r, d) = spec_parse_primary(toks, pos + 1);
            match r {
                Ok(right) => {
                    let (r2, d2) = spec_term_rest(toks, pos + 1 + d, fold_op(left, op, right));
                    match r2 {
                        Ok(e) => (Ok(e), (1 + d + d2) as nat),
                        Err(e) => (Err(e), 0),
                    }
                },
                Err(e) => (Err(e), 0),
            }
        },
        None => (Ok(left), 0),
    }
}

/// The multiplicative level: one primary, then same-level folding.
pub open spec fn spec_parse_term(toks: Seq<Token>, pos: int) -> (Result<Expression, ParseError>, nat) {
    let (r, d) = spec_parse_primary(toks, pos);
    match r {
        Ok(first) => {
            let (r2, d2) = spec_term_rest(toks, pos + d, first);
            match r2 {
                Ok(e) => (Ok(e), (d + d2) as nat),
                Err(e) => (Err(e), 0),
            }
        },
        Err(e) => (Err(e), 0),
    }
}

/// Folds while an additive operator follows.
pub open spec fn spec_arith_rest(toks: Seq<Token>, pos: int, left: Expression) -> (
    Result<Expression, ParseError>,
    nat,
)
    decreases remaining(toks, pos),
{
    match add_op_of(token_at(toks, pos)) {
        Some(op) => {
            let (r, d) = spec_parse_term(toks, pos + 1);
            match r {
                Ok(right) => {
                    let (r2, d2) = spec_arith_rest(toks, pos + 1 + d, fold_op(left, op, right));
                    match r2 {
                        Ok(e) => (Ok(e), (1 + d + d2) as nat),
                        Err(e) => (Err(e), 0),
                    }
                },
                Err(e) => (Err(e), 0),
            }
        },
        None => (Ok(left), 0),
    }
}

/// The additive level: one multiplicative operand, then same-level folding.
pub open spec fn spec_parse_arithmetic(toks: Seq<Token>, pos: int) -> (
    Result<Expression, ParseError>,
    nat,
) {
    let (r, d) = spec_parse_term(toks, pos);
    match r {
        Ok(first) => {
            let (r2, d2) = spec_arith_rest(toks, pos + d, first);
            match r2 {
                Ok(e) => (Ok(e), (d + d2) as nat),
                Err(e) => (Err(e), 0),
            }
        },
        Err(e) => (Err(e), 0),
    }
}

/// Folds while a comparison operator follows. Chained comparisons associate
/// left-to-right into one flat fold; there is no mathematical chaining.
pub open spec fn spec_cmp_rest(toks: Seq<Token>, pos: int, left: Expression) -> (
    Result<Expression, ParseError>,
    nat,
)
    decreases remaining(toks, pos),
{
    match cmp_op_of(token_at(toks, pos)) {
        Some(op) => {
            let (r, d) = spec_parse_arithmetic(toks, pos + 1);
            match r {
                Ok(right) => {
                    let (r2, d2) = spec_cmp_rest(toks, pos + 1 + d, fold_op(left, op, right));
                    match r2 {
                        Ok(e) => (Ok(e), (1 + d + d2) as nat),
                        Err(e) => (Err(e), 0),
                    }
                },
                Err(e) => (Err(e), 0),
            }
        },
        None => (Ok(left), 0),
    }
}

/// The comparison level, and with it a whole expression: one additive
/// operand, then same-level folding.
#[verifier::opaque]
pub open spec fn spec_parse_expression(toks: Seq<Token>, pos: int) -> (
    Result<Expression, ParseError>,
    nat,
) {
    let (r, d) = spec_parse_arithmetic(toks, pos);
    match r {
        Ok(first) => {
            let (r2, d2) = spec_cmp_rest(toks, pos + d, first);
            match r2 {
                Ok(e) => (Ok(e), (d + d2) as nat),
                Err(e) => (Err(e), 0),
            }
        },
        Err(e) => (Err(e), 0),
    }
}

/// The run of consecutive identifier tokens starting at a position: a
/// function definition's parameter names.
pub open spec fn param_run(toks: Seq<Token>, pos: int) -> (Seq<String>, nat)
    decreases remaining(toks, pos),
{
    match token_at(toks, pos) {
        Token::Identifier(name) => {
            let (rest, d) = param_run(toks, pos + 1);
            (seq![name] + rest, 1 + d)
        },
        _ => (Seq::empty(), 0),
    }
}

/// Whether a token's kind ends a block-reading loop. Dedent and end-of-input
/// always do; `otherwise` does inside a `when`-then block, and `end` inside a
/// function body, so that neither is ever swallowed into the block.
pub open spec fn is_terminator(t: Token, otherwise_ends: bool, end_ends: bool) -> bool {
    ||| t is Dedent
    ||| t is Eof
    ||| (otherwise_ends && t is Otherwise)
    ||| (end_ends && t is End)
}

/// `let <identifier> be <expression>`.
pub open spec fn spec_parse_let(toks: Seq<Token>, pos: int) -> (Result<StmtV, ParseError>, nat) {
    let t0 = token_at(toks, pos);
    if !(t0 is Let) {
        (Err(ParseError::Expected { expected: TokenKind::Let, found: kind_of(t0) }), 0)
    } else {
        match token_at(toks, pos + 1) {
            Token::Identifier(name) => {
                let t2 = token_at(toks, pos + 2);
                if !(t2 is Be) {
                    (Err(ParseError::Expected { expected: TokenKind::Be, found: kind_of(t2) }), 0)
                } else {
                    let (r, d) = spec_parse_expression(toks, pos + 3);
                    match r {
                        Ok(value) => (Ok(StmtV::Let { identifier: name, value }), 3 + d),
                        Err(e) => (Err(e), 0),
                    }
                }
            },
            _ => (Err(ParseError::ExpectedIdentifierAfterLet), 0),
        }
    }
}

/// `show <expression>`.
pub open spec fn spec_parse_show(toks: Seq<Token>, pos: int) -> (Result<StmtV, ParseError>, nat) {
    let t0 = token_at(toks, pos);
    if !(t0 is Show) {
        (Err(ParseError::Expected { expected: TokenKind::Show, found: kind_of(t0) }), 0)
    } else {
        let (r, d) = spec_parse_expression(toks, pos + 1);
        match r {
            Ok(value) => (Ok(StmtV::Show { value }), 1 + d),
            Err(e) => (Err(e), 0),
        }
    }
}

/// `when <condition> then <block> [otherwise <block>]`. The then-block's
/// terminators include `otherwise`, so an `otherwise` clause is never
/// consumed by the then-branch.
pub open spec fn spec_parse_when(toks: Seq<Token>, pos: int) -> (Result<StmtV, ParseError>, nat)
    decreases remaining(toks, pos), 0nat,
{
    let t0 = token_at(toks, pos);
    if !(t0 is When) {
        (Err(ParseError::Expected { expected: TokenKind::When, found: kind_of(t0) }), 0)
    } else {
        let (rc, dc) = spec_parse_expression(toks, pos + 1);
        match rc {
            Ok(condition) => {
                let t1 = token_at(toks, pos + 1 + dc);
                if !(t1 is Then) {
                    (Err(ParseError::Expected { expected: TokenKind::Then, found: kind_of(t1) }), 0)
                } else {
                    let n1 = newline_run(toks, pos + 2 + dc);
                    let (rt, dt) = spec_parse_block(toks, pos + 2 + dc + n1, true, false);
                    match rt {
                        Ok(then_block) => {
                            let p_after_then = pos + 2 + dc + n1 + dt;
                            if token_at(toks, p_after_then) is Otherwise {
                                let n2 = newline_run(toks, p_after_then + 1);
                                let (ro, d_o) = spec_parse_block(
                                    toks,
                                    p_after_then + 1 + n2,
                                    false,
                                    false,
                                );
                                match ro {
                                    Ok(ob) => (
                                        Ok(
                                            StmtV::When {
                                                condition,
                                                then_block,
                                                otherwise_block: Some(ob),
                                            },
                                        ),
                                        3 + dc + n1 + dt + n2 + d_o,
                                    ),
                                    Err(e) => (Err(e), 0),
                                }
                            } else {
                                (
                                    Ok(
                                        StmtV::When {
                                            condition,
                                            then_block,
                                            otherwise_block: None,
                                        },
                                    ),
                                    2 + dc + n1 + dt,
                                )
                            }
                        },
                        Err(e) => (Err(e), 0),
                    }
                }
            },
            Err(e) => (Err(e), 0),
        }
    }
}

/// `define <name> [with <identifier>...] <block> [end]`. Parameters are the
/// consecutive identifiers after `with`. After the block an `end` token, if
/// present, is consumed: the one block form with a keyword terminator beside
/// the dedent, an asymmetry of the grammar that is kept deliberately.
pub open spec fn spec_parse_define(toks: Seq<Token>, pos: int) -> (Result<StmtV, ParseError>, nat)
    decreases remaining(toks, pos), 0nat,
{
    let t0 = token_at(toks, pos);
    if !(t0 is Define) {
        (Err(ParseError::Expected { expected: TokenKind::Define, found: kind_of(t0) }), 0)
    } else {
        match token_at(toks, pos + 1) {
            Token::Identifier(name) => {
                let (parameters, dp) = if token_at(toks, pos + 2) is With {
                    let (ps, d) = param_run(toks, pos + 3);
                    (ps, 1 + d)
                } else {
                    (Seq::<String>::empty(), 0nat)
                };
                let n = newline_run(toks, pos + 2 + dp);
                let (rb, db) = spec_parse_block(toks, pos + 2 + dp + n, false, true);
                match rb {
                    Ok(body) => {
                        let p_after = pos + 2 + dp + n + db;
                        if token_at(toks, p_after) is End {
                            (
                                Ok(StmtV::FunctionDef { name, parameters, body }),
                                3 + dp + n + db,
                            )
                        } else {
                            (
                                Ok(StmtV::FunctionDef { name, parameters, body }),
                                2 + dp + n + db,
                            )
                        }
                    },
                    Err(e) => (Err(e), 0),
                }
            },
            _ => (Err(ParseError::ExpectedFunctionNameAfterDefine), 0),
        }
    }
}

/// A block: if an indent marker is present, consume it, read statements until
/// a terminator, and consume a matching dedent if present; with no indent the
/// block is empty and nothing is consumed. A block header with no indented
/// body thus yields an empty block rather than an error — deliberate
/// leniency, so callers must not assume a body is non-empty.
pub open spec fn spec_parse_block(
    toks: Seq<Token>,
    pos: int,
    otherwise_ends: bool,
    end_ends: bool,
) -> (Result<Seq<StmtV>, ParseError>, nat)
    decreases remaining(toks, pos), 3nat,
{
    if token_at(toks, pos) is Indent {
        let (r, d) = spec_parse_block_items(toks, pos + 1, otherwise_ends, end_ends);
        match r {
            Ok(ss) => {
                if token_at(toks, pos + 1 + d) is Dedent {
                    (Ok(ss), 2 + d)
                } else {
                    (Ok(ss), 1 + d)
                }
            },
            Err(e) => (Err(e), 0),
        }
    } else {
        (Ok(Seq::empty()), 0)
    }
}

/// The statements of a block: parse one, skip the newlines after it, repeat
/// until a terminator is in view. The terminator itself is never consumed
/// here.
pub open spec fn spec_parse_block_items(
    toks: Seq<Token>,
    pos: int,
    otherwise_ends: bool,
    end_ends: bool,
) -> (Result<Seq<StmtV>, ParseError>, nat)
    decreases remaining(toks, pos), 2nat,
{
    if is_terminator(token_at(toks, pos), otherwise_ends, end_ends) {
        (Ok(Seq::empty()), 0)
    } else {
        let (r, d) = spec_parse_statement(toks, pos);
        match r {
            Ok(st) => {
                let n = newline_run(toks, pos + d);
                if d > 0 {
                    let (r2, d2) = spec_parse_block_items(
                        toks,
                        pos + d + n,
                        otherwise_ends,
                        end_ends,
                    );
                    match r2 {
                        Ok(rest) => (Ok(seq![st] + rest), d + n + d2),
                        Err(e) => (Err(e), 0),
                    }
                } else {
                    // A parsed statement always consumes at least one token
                    // (lemma_statement_consumes), so this branch is never
                    // reached; it keeps the recursion visibly well-founded.
                    (Ok(seq![st]), n)
                }
            },
            Err(e) => (Err(e), 0),
        }
    }
}

/// One statement, routed by the kind of the token in view: `let`, `show`,
/// `when` and `define` open their statement forms, and anything else is read
/// as a bare expression statement.
pub open spec fn spec_parse_statement(toks: Seq<Token>, pos: int) -> (Result<StmtV, ParseError>, nat)
    decreases remaining(toks, pos), 1nat,
{
    match kind_of(token_at(toks, pos)) {
        TokenKind::Let => spec_parse_let(toks, pos),
        TokenKind::Show => spec_parse_show(toks, pos),
        TokenKind::When => spec_parse_when(toks, pos),
        TokenKind::Define => spec_parse_define(toks, pos),
        _ => {
            let (r, d) = spec_parse_expression(toks, pos);
            match r {
                Ok(e) => (Ok(StmtV::Expr { value: e }), d),
                Err(e) => (Err(e), 0),
            }
        },
    }
}

/// The top-level statements: parse one, skip the blank lines after it,
/// repeat until end-of-input is in view.
pub open spec fn spec_program_items(toks: Seq<Token>, pos: int) -> (Result<Seq<StmtV>, ParseError>, nat)
    decreases remaining(toks, pos),
{
    if token_at(toks, pos) is Eof {
        (Ok(Seq::empty()), 0)
    } else {
        let (r, d) = spec_parse_statement(toks, pos);
        match r {
            Ok(st) => {
                let n = newline_run(toks, pos + d);
                if d > 0 {
                    let (r2, d2) = spec_program_items(toks, pos + d + n);
                    match r2 {
                        Ok(rest) => (Ok(seq![st] + rest), d + n + d2),
                        Err(e) => (Err(e), 0),
                    }
                } else {
                    // As in spec_parse_block_items, a parsed statement always
                    // consumes a token; this branch only keeps the recursion
                    // visibly well-founded.
                    (Ok(seq![st]), n)
                }
            },
            Err(e) => (Err(e), 0),
        }
    }
}

/// A whole program: leading blank lines, then statements until end-of-input.
pub open spec fn spec_parse_program(toks: Seq<Token>, pos: int) -> (Result<Seq<StmtV>, ParseError>, nat) {
    let n = newline_run(toks, pos);
    let (r, d) = spec_program_items(toks, pos + n);
    match r {
        Ok(ss) => (Ok(ss), n + d),
        Err(e) => (Err(e), 0),
    }
}

/// A successfully parsed expression consumes at least one token.
pub proof fn lemma_expression_consumes(toks: Seq<Token>, pos: int)
    ensures
        spec_parse_expression(toks, pos).0 is Ok ==> spec_parse_expression(toks, pos).1 >= 1,
{
    reveal(spec_parse_expression);
}

/// A successfully parsed statement consumes at least one token.
pub proof fn lemma_statement_consumes(toks: Seq<Token>, pos: int)
    ensures
        spec_parse_statement(toks, pos).0 is Ok ==> spec_parse_statement(toks, pos).1 >= 1,
{
    lemma_expression_consumes(toks, pos);
}

} // verus!
