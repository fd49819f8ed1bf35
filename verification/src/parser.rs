//! The executable parser, proved against the grammar of [`crate::grammar`].

use vstd::prelude::*;

use crate::ast::{
    BinaryOperation, BinaryOperator, Expression, FunctionDef, LetStatement, Program, ShowStatement,
    Statement, WhenStatement,
};
use crate::ast::{stmt_view, stmts_view, StmtV};
use crate::grammar::{
    add_op_of, cmp_op_of, mul_op_of, newline_run, param_run, remaining, spec_arith_rest, spec_cmp_rest,
    spec_parse_arithmetic, spec_parse_block, spec_parse_block_items, spec_parse_define,
    spec_parse_expression, spec_parse_let, spec_parse_primary, spec_parse_program,
    spec_parse_show, spec_parse_statement, spec_parse_term, spec_parse_when, spec_program_items,
    spec_term_rest,
};
use crate::token::{kind_of, token_at, token_kind, Token, TokenKind};

verus! {

/// A parse failure. The parse aborts on the first one; there is no recovery
/// and no partial tree. Where a specific token was demanded, the error names
/// the expected and the found kind.
#[derive(Debug, Clone, Copy, PartialEq, Eq, Structural)]
pub enum ParseError {
    /// A token of one kind was demanded and a token of another was found.
    Expected { expected: TokenKind, found: TokenKind },
    /// The token after `let` was not an identifier.
    ExpectedIdentifierAfterLet,
    /// The token after `define` was not an identifier.
    ExpectedFunctionNameAfterDefine,
    /// A token that cannot begin a primary expression stood where an
    /// expression was demanded.
    UnexpectedTokenInExpression { found: TokenKind },
}

/// The parser: the token sequence and a read position. The position never
/// moves backwards and never leaves the sequence's bounds; a read past the
/// last token yields end-of-input instead.
pub struct Parser {
    tokens: Vec<Token>,
    current: usize,
}

impl Parser {
    /// The token sequence being parsed.
    pub closed spec fn toks(&self) -> Seq<Token> {
        self.tokens@
    }

    /// The read position.
    pub closed spec fn pos(&self) -> int {
        self.current as int
    }

    /// The read position stays within the sequence's bounds (one past the
    /// last token at most). `new` establishes this and every method keeps it.
    pub open spec fn wf(&self) -> bool {
        0 <= self.pos() <= self.toks().len()
    }

    /// Makes a parser that reads the given tokens from the start.
    pub fn new(tokens: Vec<Token>) -> (p: Parser)
        ensures
            p.toks() == tokens@,
            p.pos() == 0,
            p.wf(),
    {
        Parser { tokens, current: 0 }
    }

    /// The kind of the token at the read position; end-of-input when the
    /// position is past the end, so the look-up is total.
    fn current_kind(&self) -> (k: TokenKind)
        ensures
            k == kind_of(token_at(self.toks(), self.pos())),
    {
        if self.current < self.tokens.len() {
            token_kind(&self.tokens[self.current])
        } else {
            TokenKind::Eof
        }
    }

    /// Moves the read position forward by one, unless it is already at the
    /// end.
    fn advance(&mut self)
        requires
            old(self).wf(),
        ensures
            final(self).wf(),
            final(self).toks() == old(self).toks(),
            old(self).pos() < old(self).toks().len() ==> final(self).pos() == old(self).pos() + 1,
            old(self).pos() == old(self).toks().len() ==> final(self).pos() == old(self).pos(),
    {
        if self.current < self.tokens.len() {
            self.current = self.current + 1;
        }
    }

    /// Demands a token of the given kind: on a match the position advances,
    /// on a mismatch nothing advances and the error names the expected and
    /// the found kind.
    fn expect(&mut self, expected: TokenKind) -> (r: Result<(), ParseError>)
        requires
            old(self).wf(),
            expected != TokenKind::Eof,
        ensures
            final(self).wf(),
            final(self).toks() == old(self).toks(),
            ({
                let found = kind_of(token_at(old(self).toks(), old(self).pos()));
                match r {
                    Ok(u) => found == expected && final(self).pos() == old(self).pos() + 1,
                    Err(e) => found != expected && e == (ParseError::Expected { expected, found })
                        && final(self).pos() == old(self).pos(),
                }
            }),
    {
        let k = self.current_kind();
        if k == expected {
            self.advance();
            Ok(())
        } else {
            Err(ParseError::Expected { expected, found: k })
        }
    }

    /// Advances past zero or more consecutive newline tokens.
    fn skip_newlines(&mut self)
        requires
            old(self).wf(),
        ensures
            final(self).wf(),
            final(self).toks() == old(self).toks(),
            final(self).pos() == old(self).pos() + newline_run(old(self).toks(), old(self).pos()),
    {
        loop
            invariant
                self.wf(),
                self.toks() == old(self).toks(),
                old(self).pos() <= self.pos(),
                newline_run(old(self).toks(), old(self).pos()) == self.pos() - old(self).pos()
                    + newline_run(self.toks(), self.pos()),
            ensures
                final(self).wf(),
                final(self).toks() == old(self).toks(),
                final(self).pos() == old(self).pos() + newline_run(old(self).toks(), old(self).pos()),
            decreases remaining(self.toks(), self.pos()),
        {
            let k = self.current_kind();
            if !(k == TokenKind::Newline) {
                break;
            }
            self.advance();
        }
    }

    /// A primary expression: a single number, string or identifier token.
    /// Any other token in view is the terminal expression error, reported
    /// without advancing.
    fn parse_primary(&mut self) -> (r: Result<Expression, ParseError>)
        requires
            old(self).wf(),
        ensures
            final(self).wf(),
            final(self).toks() == old(self).toks(),
            ({
                let (sr, d) = spec_parse_primary(old(self).toks(), old(self).pos());
                match r {
                    Ok(e) => sr == Ok::<Expression, ParseError>(e) && d == 1 && final(self).pos()
                        == old(self).pos() + 1,
                    Err(e) => sr == Err::<Expression, ParseError>(e) && final(self).pos() == old(self).pos(),
                }
            }),
    {
        if self.current < self.tokens.len() {
            let e = match &self.tokens[self.current] {
                Token::Number(n) => Expression::Number(*n),
                Token::StringLit(s) => Expression::StringLit(s.clone()),
                Token::Identifier(name) => Expression::Identifier(name.clone()),
                t => {
                    return Err(ParseError::UnexpectedTokenInExpression { found: token_kind(t) });
                },
            };
            self.advance();
            Ok(e)
        } else {
            Err(ParseError::UnexpectedTokenInExpression { found: TokenKind::Eof })
        }
    }

    /// The multiplicative level: one primary, then folding while `*` or `/`
    /// follows.
    fn parse_term(&mut self) -> (r: Result<Expression, ParseError>)
        requires
            old(self).wf(),
        ensures
            final(self).wf(),
            final(self).toks() == old(self).toks(),
            ({
                let (sr, d) = spec_parse_term(old(self).toks(), old(self).pos());
                match r {
                    Ok(e) => sr == Ok::<Expression, ParseError>(e) && d >= 1 && final(self).pos() == old(self).pos() + d,
                    Err(e) => sr == Err::<Expression, ParseError>(e) && old(self).pos()
                        <= final(self).pos(),
                }
            }),
    {
        let ghost t = self.toks();
        let ghost p0 = self.pos();
        let mut left = match self.parse_primary() {
            Ok(e) => e,
            Err(e) => {
                return Err(e);
            },
        };
        loop
            invariant
                self.wf(),
                t == old(self).toks(),
                p0 == old(self).pos(),
                self.toks() == t,
                p0 + 1 <= self.pos(),
                ({
                    let (sr, d) = spec_parse_term(t, p0);
                    let (sr2, d2) = spec_term_rest(t, self.pos(), left);
                    match sr2 {
                        Ok(e) => sr == Ok::<Expression, ParseError>(e) && p0 + d == self.pos()
                            + d2,
                        Err(e) => sr == Err::<Expression, ParseError>(e),
                    }
                }),
            ensures
                final(self).wf(),
                final(self).toks() == t,
                p0 + 1 <= final(self).pos(),
                mul_op_of(token_at(t, final(self).pos())) is None,
                ({
                    let (sr, d) = spec_parse_term(t, p0);
                    let (sr2, d2) = spec_term_rest(t, final(self).pos(), left);
                    match sr2 {
                        Ok(e) => sr == Ok::<Expression, ParseError>(e) && p0 + d == final(self).pos()
                            + d2,
                        Err(e) => sr == Err::<Expression, ParseError>(e),
                    }
                }),
            decreases remaining(t, self.pos()),
        {
            let k = self.current_kind();
            if !(k == TokenKind::Multiply || k == TokenKind::Divide) {
                break;
            }
            let op = if k == TokenKind::Multiply {
                BinaryOperator::Multiply
            } else {
                BinaryOperator::Divide
            };
            self.advance();
            let right = match self.parse_primary() {
                Ok(e) => e,
                Err(e) => {
                    return Err(e);
                },
            };
            left = Expression::BinaryOp(
                BinaryOperation { left: Box::new(left), operator: op, right: Box::new(right) },
            );
        }
        Ok(left)
    }

    /// The additive level: one multiplicative operand, then folding while `+`
    /// or `-` follows.
    fn parse_arithmetic(&mut self) -> (r: Result<Expression, ParseError>)
        requires
            old(self).wf(),
        ensures
            final(self).wf(),
            final(self).toks() == old(self).toks(),
            ({
                let (sr, d) = spec_parse_arithmetic(old(self).toks(), old(self).pos());
                match r {
                    Ok(e) => sr == Ok::<Expression, ParseError>(e) && d >= 1 && final(self).pos() == old(self).pos() + d,
                    Err(e) => sr == Err::<Expression, ParseError>(e) && old(self).pos()
                        <= final(self).pos(),
                }
            }),
    {
        let ghost t = self.toks();
        let ghost p0 = self.pos();
        let mut left = match self.parse_term() {
            Ok(e) => e,
            Err(e) => {
                return Err(e);
            },
        };
        loop
            invariant
                self.wf(),
                t == old(self).toks(),
                p0 == old(self).pos(),
                self.toks() == t,
                p0 + 1 <= self.pos(),
                ({
                    let (sr, d) = spec_parse_arithmetic(t, p0);
                    let (sr2, d2) = spec_arith_rest(t, self.pos(), left);
                    match sr2 {
                        Ok(e) => sr == Ok::<Expression, ParseError>(e) && p0 + d == self.pos()
                            + d2,
                        Err(e) => sr == Err::<Expression, ParseError>(e),
                    }
                }),
            ensures
                final(self).wf(),
                final(self).toks() == t,
                p0 + 1 <= final(self).pos(),
                add_op_of(token_at(t, final(self).pos())) is None,
                ({
                    let (sr, d) = spec_parse_arithmetic(t, p0);
                    let (sr2, d2) = spec_arith_rest(t, final(self).pos(), left);
                    match sr2 {
                        Ok(e) => sr == Ok::<Expression, ParseError>(e) && p0 + d == final(self).pos()
                            + d2,
                        Err(e) => sr == Err::<Expression, ParseError>(e),
                    }
                }),
            decreases remaining(t, self.pos()),
        {
            let k = self.current_kind();
            if !(k == TokenKind::Plus || k == TokenKind::Minus) {
                break;
            }
            let op = if k == TokenKind::Plus {
                BinaryOperator::Add
            } else {
                BinaryOperator::Subtract
            };
            self.advance();
            let right = match self.parse_term() {
                Ok(e) => e,
                Err(e) => {
                    return Err(e);
                },
            };
            left = Expression::BinaryOp(
                BinaryOperation { left: Box::new(left), operator: op, right: Box::new(right) },
            );
        }
        Ok(left)
    }

    /// Reads one comparison operator token: on a match the operator is
    /// returned and the position advances, otherwise nothing advances.
    fn parse_comparison_operator(&mut self) -> (r: Option<BinaryOperator>)
        requires
            old(self).wf(),
        ensures
            final(self).wf(),
            final(self).toks() == old(self).toks(),
            r == cmp_op_of(token_at(old(self).toks(), old(self).pos())),
            r is Some ==> final(self).pos() == old(self).pos() + 1,
            r is None ==> final(self).pos() == old(self).pos(),
    {
        let k = self.current_kind();
        let op = if k == TokenKind::IsGreaterThan {
            Some(BinaryOperator::GreaterThan)
        } else if k == TokenKind::IsLessThan {
            Some(BinaryOperator::LessThan)
        } else if k == TokenKind::IsGreaterThanOrEqual {
            Some(BinaryOperator::GreaterThanOrEqual)
        } else if k == TokenKind::IsLessThanOrEqual {
            Some(BinaryOperator::LessThanOrEqual)
        } else if k == TokenKind::IsEqual {
            Some(BinaryOperator::Equal)
        } else if k == TokenKind::IsNotEqual {
            Some(BinaryOperator::NotEqual)
        } else {
            None
        };
        if op.is_some() {
            self.advance();
        }
        op
    }

    /// The comparison level: one additive operand, then folding while a
    /// comparison operator follows. Chained comparisons fold left-to-right
    /// into one flat fold.
    fn parse_comparison(&mut self) -> (r: Result<Expression, ParseError>)
        requires
            old(self).wf(),
        ensures
            final(self).wf(),
            final(self).toks() == old(self).toks(),
            ({
                let (sr, d) = spec_parse_expression(old(self).toks(), old(self).pos());
                match r {
                    Ok(e) => sr == Ok::<Expression, ParseError>(e) && d >= 1 && final(self).pos() == old(self).pos() + d,
                    Err(e) => sr == Err::<Expression, ParseError>(e) && old(self).pos()
                        <= final(self).pos(),
                }
            }),
    {
        proof {
            reveal(spec_parse_expression);
        }
        let ghost t = self.toks();
        let ghost p0 = self.pos();
        let mut left = match self.parse_arithmetic() {
            Ok(e) => e,
            Err(e) => {
                return Err(e);
            },
        };
        loop
            invariant
                self.wf(),
                t == old(self).toks(),
                p0 == old(self).pos(),
                self.toks() == t,
                p0 + 1 <= self.pos(),
                ({
                    let (sr, d) = spec_parse_expression(t, p0);
                    let (sr2, d2) = spec_cmp_rest(t, self.pos(), left);
                    match sr2 {
                        Ok(e) => sr == Ok::<Expression, ParseError>(e) && p0 + d == self.pos()
                            + d2,
                        Err(e) => sr == Err::<Expression, ParseError>(e),
                    }
                }),
            ensures
                final(self).wf(),
                final(self).toks() == t,
                p0 + 1 <= final(self).pos(),
                cmp_op_of(token_at(t, final(self).pos())) is None,
                ({
                    let (sr, d) = spec_parse_expression(t, p0);
                    let (sr2, d2) = spec_cmp_rest(t, final(self).pos(), left);
                    match sr2 {
                        Ok(e) => sr == Ok::<Expression, ParseError>(e) && p0 + d == final(self).pos()
                            + d2,
                        Err(e) => sr == Err::<Expression, ParseError>(e),
                    }
                }),
            decreases remaining(t, self.pos()),
        {
            let op = match self.parse_comparison_operator() {
                Some(op) => op,
                None => {
                    break;
                },
            };
            let right = match self.parse_arithmetic() {
                Ok(e) => e,
                Err(e) => {
                    return Err(e);
                },
            };
            left = Expression::BinaryOp(
                BinaryOperation { left: Box::new(left), operator: op, right: Box::new(right) },
            );
        }
        Ok(left)
    }

    /// An expression: the single entry point wherever one is required, which
    /// is the comparison level.
    fn parse_expression(&mut self) -> (r: Result<Expression, ParseError>)
        requires
            old(self).wf(),
        ensures
            final(self).wf(),
            final(self).toks() == old(self).toks(),
            ({
                let (sr, d) = spec_parse_expression(old(self).toks(), old(self).pos());
                match r {
                    Ok(e) => sr == Ok::<Expression, ParseError>(e) && d >= 1 && final(self).pos() == old(self).pos() + d,
                    Err(e) => sr == Err::<Expression, ParseError>(e) && old(self).pos()
                        <= final(self).pos(),
                }
            }),
    {
        self.parse_comparison()
    }

    /// `let <identifier> be <expression>`. Fails if the token after `let` is
    /// not an identifier, or if `be` is missing.
    fn parse_let_statement(&mut self) -> (r: Result<Statement, ParseError>)
        requires
            old(self).wf(),
        ensures
            final(self).wf(),
            final(self).toks() == old(self).toks(),
            ({
                let (sr, d) = spec_parse_let(old(self).toks(), old(self).pos());
                match r {
                    Ok(st) => sr == Ok::<StmtV, ParseError>(stmt_view(st)) && d >= 1 && final(self).pos() == old(self).pos() + d,
                    Err(e) => sr == Err::<StmtV, ParseError>(e) && old(self).pos() <= final(self).pos(),
                }
            }),
    {
        match self.expect(TokenKind::Let) {
            Ok(_) => {},
            Err(e) => {
                return Err(e);
            },
        }
        let identifier = if self.current < self.tokens.len() {
            match &self.tokens[self.current] {
                Token::Identifier(n) => n.clone(),
                _ => {
                    return Err(ParseError::ExpectedIdentifierAfterLet);
                },
            }
        } else {
            return Err(ParseError::ExpectedIdentifierAfterLet);
        };
        self.advance();
        match self.expect(TokenKind::Be) {
            Ok(_) => {},
            Err(e) => {
                return Err(e);
            },
        }
        let value = match self.parse_expression() {
            Ok(e) => e,
            Err(e) => {
                return Err(e);
            },
        };
        Ok(Statement::Let(LetStatement { identifier, value }))
    }

    /// `show <expression>`.
    fn parse_show_statement(&mut self) -> (r: Result<Statement, ParseError>)
        requires
            old(self).wf(),
        ensures
            final(self).wf(),
            final(self).toks() == old(self).toks(),
            ({
                let (sr, d) = spec_parse_show(old(self).toks(), old(self).pos());
                match r {
                    Ok(st) => sr == Ok::<StmtV, ParseError>(stmt_view(st)) && d >= 1 && final(self).pos() == old(self).pos() + d,
                    Err(e) => sr == Err::<StmtV, ParseError>(e) && old(self).pos() <= final(self).pos(),
                }
            }),
    {
        match self.expect(TokenKind::Show) {
            Ok(_) => {},
            Err(e) => {
                return Err(e);
            },
        }
        let value = match self.parse_expression() {
            Ok(e) => e,
            Err(e) => {
                return Err(e);
            },
        };
        Ok(Statement::Show(ShowStatement { value }))
    }

    /// A block: an optional indent marker, statements until a terminator, a
    /// matching dedent if present. With no indent marker the block is empty
    /// and nothing is consumed — callers must not assume a body is non-empty.
    #[verifier::rlimit(100)]
    fn parse_block(&mut self, otherwise_ends: bool, end_ends: bool) -> (r: Result<
        Vec<Statement>,
        ParseError,
    >)
        requires
            old(self).wf(),
        ensures
            final(self).wf(),
            final(self).toks() == old(self).toks(),
            ({
                let (sr, d) = spec_parse_block(
                    old(self).toks(),
                    old(self).pos(),
                    otherwise_ends,
                    end_ends,
                );
                match r {
                    Ok(v) => sr == Ok::<Seq<StmtV>, ParseError>(stmts_view(v@)) && final(self).pos() == old(self).pos() + d,
                    Err(e) => sr == Err::<Seq<StmtV>, ParseError>(e) && old(self).pos() <= final(self).pos(),
                }
            }),
        decreases remaining(old(self).toks(), old(self).pos()), 3nat,
    {
        if self.current_kind() == TokenKind::Indent {
            self.advance();
            let ss = match self.parse_block_items(otherwise_ends, end_ends) {
                Ok(v) => v,
                Err(e) => {
                    return Err(e);
                },
            };
            if self.current_kind() == TokenKind::Dedent {
                self.advance();
            }
            Ok(ss)
        } else {
            let ss: Vec<Statement> = Vec::new();
            proof {
                assert(stmts_view(ss@) =~= Seq::<StmtV>::empty());
            }
            Ok(ss)
        }
    }

    /// The statements of a block: one statement, the newlines after it, and
    /// so on until a terminator is in view. The terminator is left in place.
    #[verifier::rlimit(100)]
    fn parse_block_items(&mut self, otherwise_ends: bool, end_ends: bool) -> (r: Result<
        Vec<Statement>,
        ParseError,
    >)
        requires
            old(self).wf(),
        ensures
            final(self).wf(),
            final(self).toks() == old(self).toks(),
            ({
                let (sr, d) = spec_parse_block_items(
                    old(self).toks(),
                    old(self).pos(),
                    otherwise_ends,
                    end_ends,
                );
                match r {
                    Ok(v) => sr == Ok::<Seq<StmtV>, ParseError>(stmts_view(v@)) && final(self).pos() == old(self).pos() + d,
                    Err(e) => sr == Err::<Seq<StmtV>, ParseError>(e) && old(self).pos() <= final(self).pos(),
                }
            }),
        decreases remaining(old(self).toks(), old(self).pos()), 2nat,
    {
        let k = self.current_kind();
        if k == TokenKind::Dedent || k == TokenKind::Eof || (otherwise_ends && k
            == TokenKind::Otherwise) || (end_ends && k == TokenKind::End) {
            let ss: Vec<Statement> = Vec::new();
            proof {
                assert(stmts_view(ss@) =~= Seq::<StmtV>::empty());
            }
            Ok(ss)
        } else {
            let st = match self.parse_statement() {
                Ok(s) => s,
                Err(e) => {
                    return Err(e);
                },
            };
            self.skip_newlines();
            let mut rest = match self.parse_block_items(otherwise_ends, end_ends) {
                Ok(v) => v,
                Err(e) => {
                    return Err(e);
                },
            };
            let ghost rest_before = rest@;
            rest.insert(0, st);
            proof {
                assert(rest@.drop_first() =~= rest_before);
                assert(stmts_view(rest@) == seq![stmt_view(st)] + stmts_view(rest_before));
            }
            Ok(rest)
        }
    }

    /// `when <condition> then <block> [otherwise <block>]`. The then-block
    /// stops at `otherwise`, so the clause is never swallowed; an `otherwise`
    /// with no indented body gives a present-and-empty block, which remains
    /// distinguishable from an absent clause.
    #[verifier::rlimit(100)]
    fn parse_when_statement(&mut self) -> (r: Result<Statement, ParseError>)
        requires
            old(self).wf(),
        ensures
            final(self).wf(),
            final(self).toks() == old(self).toks(),
            ({
                let (sr, d) = spec_parse_when(old(self).toks(), old(self).pos());
                match r {
                    Ok(st) => sr == Ok::<StmtV, ParseError>(stmt_view(st)) && d >= 1 && final(self).pos() == old(self).pos() + d,
                    Err(e) => sr == Err::<StmtV, ParseError>(e) && old(self).pos() <= final(self).pos(),
                }
            }),
        decreases remaining(old(self).toks(), old(self).pos()), 0nat,
    {
        match self.expect(TokenKind::When) {
            Ok(_) => {},
            Err(e) => {
                return Err(e);
            },
        }
        let condition = match self.parse_expression() {
            Ok(e) => e,
            Err(e) => {
                return Err(e);
            },
        };
        match self.expect(TokenKind::Then) {
            Ok(_) => {},
            Err(e) => {
                return Err(e);
            },
        }
        self.skip_newlines();
        let then_block = match self.parse_block(true, false) {
            Ok(v) => v,
            Err(e) => {
                return Err(e);
            },
        };
        let otherwise_block = if self.current_kind() == TokenKind::Otherwise {
            self.advance();
            self.skip_newlines();
            match self.parse_block(false, false) {
                Ok(v) => Some(v),
                Err(e) => {
                    return Err(e);
                },
            }
        } else {
            None
        };
        Ok(Statement::When(WhenStatement { condition, then_block, otherwise_block }))
    }

    /// `define <name> [with <identifier>...] <block> [end]`. Parameters are
    /// the consecutive identifiers after `with`; after the block an `end`
    /// token, if present, is consumed, so `end` is optional when a dedent is
    /// present.
    #[verifier::rlimit(100)]
    fn parse_function_def(&mut self) -> (r: Result<Statement, ParseError>)
        requires
            old(self).wf(),
        ensures
            final(self).wf(),
            final(self).toks() == old(self).toks(),
            ({
                let (sr, d) = spec_parse_define(old(self).toks(), old(self).pos());
                match r {
                    Ok(st) => sr == Ok::<StmtV, ParseError>(stmt_view(st)) && d >= 1 && final(self).pos() == old(self).pos() + d,
                    Err(e) => sr == Err::<StmtV, ParseError>(e) && old(self).pos() <= final(self).pos(),
                }
            }),
        decreases remaining(old(self).toks(), old(self).pos()), 0nat,
    {
        let ghost t = self.toks();
        match self.expect(TokenKind::Define) {
            Ok(_) => {},
            Err(e) => {
                return Err(e);
            },
        }
        let name = if self.current < self.tokens.len() {
            match &self.tokens[self.current] {
                Token::Identifier(n) => n.clone(),
                _ => {
                    return Err(ParseError::ExpectedFunctionNameAfterDefine);
                },
            }
        } else {
            return Err(ParseError::ExpectedFunctionNameAfterDefine);
        };
        self.advance();
        let mut parameters: Vec<String> = Vec::new();
        if self.current_kind() == TokenKind::With {
            self.advance();
            let ghost pw = self.pos();
            loop
                invariant
                    self.wf(),
                    t == old(self).toks(),
                    self.toks() == t,
                    pw <= self.pos() <= t.len(),
                    param_run(t, pw).0 == parameters@ + param_run(t, self.pos()).0,
                    pw + param_run(t, pw).1 == self.pos() + param_run(t, self.pos()).1,
                ensures
                    self.wf(),
                    self.toks() == t,
                    pw <= self.pos() <= t.len(),
                    !(token_at(t, self.pos()) is Identifier),
                    parameters@ == param_run(t, pw).0,
                    self.pos() == pw + param_run(t, pw).1,
                decreases remaining(t, self.pos()),
            {
                let more = if self.current < self.tokens.len() {
                    let ghost pp = parameters@;
                    let ghost ppos = self.pos();
                    match &self.tokens[self.current] {
                        Token::Identifier(p) => {
                            parameters.push(p.clone());
                            self.advance();
                            proof {
                                let r_next = param_run(t, self.pos()).0;
                                assert(parameters@ =~= pp + seq![t[ppos]->Identifier_0]);
                                assert(pp + (seq![t[ppos]->Identifier_0] + r_next) =~= (pp + seq![
                                    t[ppos]->Identifier_0,
                                ]) + r_next);
                            }
                            true
                        },
                        _ => false,
                    }
                } else {
                    false
                };
                if !more {
                    proof {
                        assert(param_run(t, self.pos()).0 =~= Seq::<String>::empty());
                        assert(parameters@ + Seq::<String>::empty() =~= parameters@);
                    }
                    break;
                }
            }
        }
        self.skip_newlines();
        let body = match self.parse_block(false, true) {
            Ok(v) => v,
            Err(e) => {
                return Err(e);
            },
        };
        if self.current_kind() == TokenKind::End {
            self.advance();
        }
        Ok(Statement::FunctionDef(FunctionDef { name, parameters, body }))
    }

    /// One statement, routed by the kind of the token in view: `let`, `show`,
    /// `when` and `define` open their statement forms; anything else is read
    /// as a bare expression statement.
    fn parse_statement(&mut self) -> (r: Result<Statement, ParseError>)
        requires
            old(self).wf(),
        ensures
            final(self).wf(),
            final(self).toks() == old(self).toks(),
            ({
                let (sr, d) = spec_parse_statement(old(self).toks(), old(self).pos());
                match r {
                    Ok(st) => sr == Ok::<StmtV, ParseError>(stmt_view(st)) && d >= 1 && final(self).pos() == old(self).pos() + d,
                    Err(e) => sr == Err::<StmtV, ParseError>(e) && old(self).pos() <= final(self).pos(),
                }
            }),
        decreases remaining(old(self).toks(), old(self).pos()), 1nat,
    {
        let k = self.current_kind();
        if k == TokenKind::Let {
            self.parse_let_statement()
        } else if k == TokenKind::Show {
            self.parse_show_statement()
        } else if k == TokenKind::When {
            self.parse_when_statement()
        } else if k == TokenKind::Define {
            self.parse_function_def()
        } else {
            let e = match self.parse_expression() {
                Ok(e) => e,
                Err(e) => {
                    return Err(e);
                },
            };
            Ok(Statement::Expression(e))
        }
    }

    /// The top-level statements: one statement, the blank lines after it, and
    /// so on until end-of-input is in view.
    fn parse_program_items(&mut self) -> (r: Result<Vec<Statement>, ParseError>)
        requires
            old(self).wf(),
        ensures
            final(self).wf(),
            final(self).toks() == old(self).toks(),
            ({
                let (sr, d) = spec_program_items(old(self).toks(), old(self).pos());
                match r {
                    Ok(v) => sr == Ok::<Seq<StmtV>, ParseError>(stmts_view(v@)) && final(self).pos() == old(self).pos() + d,
                    Err(e) => sr == Err::<Seq<StmtV>, ParseError>(e) && old(self).pos() <= final(self).pos(),
                }
            }),
        decreases remaining(old(self).toks(), old(self).pos()),
    {
        if self.current_kind() == TokenKind::Eof {
            let ss: Vec<Statement> = Vec::new();
            proof {
                assert(stmts_view(ss@) =~= Seq::<StmtV>::empty());
            }
            Ok(ss)
        } else {
            let st = match self.parse_statement() {
                Ok(s) => s,
                Err(e) => {
                    return Err(e);
                },
            };
            self.skip_newlines();
            let mut rest = match self.parse_program_items() {
                Ok(v) => v,
                Err(e) => {
                    return Err(e);
                },
            };
            let ghost rest_before = rest@;
            rest.insert(0, st);
            proof {
                assert(rest@.drop_first() =~= rest_before);
                assert(stmts_view(rest@) == seq![stmt_view(st)] + stmts_view(rest_before));
            }
            Ok(rest)
        }
    }

    /// A whole program: leading blank lines, then statements until
    /// end-of-input. Returns the completed ordered statements, or the first
    /// error, aborting at once: there is no resynchronisation after an error.
    pub fn parse(&mut self) -> (r: Result<Program, ParseError>)
        requires
            old(self).wf(),
        ensures
            final(self).wf(),
            final(self).toks() == old(self).toks(),
            ({
                let (sr, d) = spec_parse_program(old(self).toks(), old(self).pos());
                match r {
                    Ok(p) => sr == Ok::<Seq<StmtV>, ParseError>(p@) && final(self).pos() == old(self).pos() + d,
                    Err(e) => sr == Err::<Seq<StmtV>, ParseError>(e) && old(self).pos() <= final(self).pos(),
                }
            }),
    {
        self.skip_newlines();
        let statements = match self.parse_program_items() {
            Ok(v) => v,
            Err(e) => {
                return Err(e);
            },
        };
        Ok(Program { statements })
    }
}

} // verus!
