//! Laws of the grammar, stated and proved once for all inputs they speak of.
//!
//! Each proof function here documents one property of the parse in its doc
//! comment; its `ensures` is the property itself, over the specification
//! functions of [`crate::grammar`] that the executable parser is proved to
//! implement. The guarantee that parsing never reads past the end of the
//! token sequence is not repeated here: it is the `wf` clause every parser
//! method ensures, together with the bounds-free contract of the token
//! look-up itself.

use vstd::prelude::*;

use crate::ast::{BinaryOperator, Expression, StmtV};
use crate::grammar::{
    add_op_of, cmp_op_of, fold_op, is_terminator, lemma_statement_consumes, mul_op_of,
    newline_run, param_run, remaining, spec_arith_rest, spec_cmp_rest, spec_parse_block,
    spec_parse_block_items, spec_parse_expression, spec_parse_program, spec_parse_statement,
    spec_parse_when, spec_program_items, spec_term_rest,
};
use crate::parser::ParseError;
use crate::token::{token_at, Token};

verus! {

/// A binding `let <name> be <a> + <b>` parses to exactly
/// `Let { identifier: name, value: BinaryOp(a, Add, b) }`, whatever the name
/// and the two numbers are.
#[verifier::rlimit(100)]
#[verifier::spinoff_prover]
pub proof fn lemma_let_binding(name: String, a: i64, b: i64)
    ensures
        ({
            let toks = seq![
                Token::Let,
                Token::Identifier(name),
                Token::Be,
                Token::Number(a),
                Token::Plus,
                Token::Number(b),
                Token::Eof,
            ];
            spec_parse_program(toks, 0).0 == Ok::<Seq<StmtV>, ParseError>(
                seq![
                    StmtV::Let {
                        identifier: name,
                        value: fold_op(
                            Expression::Number(a),
                            BinaryOperator::Add,
                            Expression::Number(b),
                        ),
                    },
                ],
            )
        }),
{
    let toks = seq![
        Token::Let,
        Token::Identifier(name),
        Token::Be,
        Token::Number(a),
        Token::Plus,
        Token::Number(b),
        Token::Eof,
    ];
    let v = fold_op(Expression::Number(a), BinaryOperator::Add, Expression::Number(b));
    let st = StmtV::Let { identifier: name, value: v };
    assert(spec_parse_expression(toks, 3) == (Ok::<Expression, ParseError>(v), 3nat)) by {
        reveal(spec_parse_expression);
        reveal_with_fuel(spec_arith_rest, 2);
    };
    assert(spec_parse_statement(toks, 0) == (Ok::<StmtV, ParseError>(st), 6nat));
    assert(spec_program_items(toks, 0).0 == Ok::<Seq<StmtV>, ParseError>(seq![st])) by {
        reveal_with_fuel(spec_program_items, 2);
        assert(spec_parse_statement(toks, 0) == (Ok::<StmtV, ParseError>(st), 6nat));
        assert(seq![st] + Seq::<StmtV>::empty() =~= seq![st]);
    };
}

/// Same-level folding is left-associative and flat: `a <op1> b <op2> c` with
/// two additive operators parses to `BinaryOp(BinaryOp(a, op1, b), op2, c)`,
/// never right-nested.
pub proof fn lemma_additive_chain_folds_left(
    a: i64,
    b: i64,
    c: i64,
    t1: Token,
    t2: Token,
    op1: BinaryOperator,
    op2: BinaryOperator,
)
    requires
        add_op_of(t1) == Some(op1),
        add_op_of(t2) == Some(op2),
    ensures
        ({
            let toks = seq![Token::Number(a), t1, Token::Number(b), t2, Token::Number(c), Token::Eof];
            spec_parse_expression(toks, 0).0 == Ok::<Expression, ParseError>(
                fold_op(
                    fold_op(Expression::Number(a), op1, Expression::Number(b)),
                    op2,
                    Expression::Number(c),
                ),
            )
        }),
{
    reveal(spec_parse_expression);
    reveal_with_fuel(spec_arith_rest, 3);
}

/// Same-level folding at the multiplicative level is flat and left-nested in
/// the same way.
pub proof fn lemma_multiplicative_chain_folds_left(
    a: i64,
    b: i64,
    c: i64,
    t1: Token,
    t2: Token,
    op1: BinaryOperator,
    op2: BinaryOperator,
)
    requires
        mul_op_of(t1) == Some(op1),
        mul_op_of(t2) == Some(op2),
    ensures
        ({
            let toks = seq![Token::Number(a), t1, Token::Number(b), t2, Token::Number(c), Token::Eof];
            spec_parse_expression(toks, 0).0 == Ok::<Expression, ParseError>(
                fold_op(
                    fold_op(Expression::Number(a), op1, Expression::Number(b)),
                    op2,
                    Expression::Number(c),
                ),
            )
        }),
{
    reveal(spec_parse_expression);
    reveal_with_fuel(spec_term_rest, 3);
}

/// Chained comparisons also fold flat and left-to-right into nested
/// comparison nodes — deliberately not mathematical chaining.
pub proof fn lemma_comparison_chain_folds_left(
    a: i64,
    b: i64,
    c: i64,
    t1: Token,
    t2: Token,
    op1: BinaryOperator,
    op2: BinaryOperator,
)
    requires
        cmp_op_of(t1) == Some(op1),
        cmp_op_of(t2) == Some(op2),
    ensures
        ({
            let toks = seq![Token::Number(a), t1, Token::Number(b), t2, Token::Number(c), Token::Eof];
            spec_parse_expression(toks, 0).0 == Ok::<Expression, ParseError>(
                fold_op(
                    fold_op(Expression::Number(a), op1, Expression::Number(b)),
                    op2,
                    Expression::Number(c),
                ),
            )
        }),
{
    reveal(spec_parse_expression);
    reveal_with_fuel(spec_cmp_rest, 3);
}

/// Precedence: `a <add> b <mul> c` parses to
/// `BinaryOp(a, add, BinaryOp(b, mul, c))` — the multiplicative level binds
/// tighter than the additive one.
pub proof fn lemma_multiplicative_binds_tighter(
    a: i64,
    b: i64,
    c: i64,
    t_add: Token,
    t_mul: Token,
    op_add: BinaryOperator,
    op_mul: BinaryOperator,
)
    requires
        add_op_of(t_add) == Some(op_add),
        mul_op_of(t_mul) == Some(op_mul),
    ensures
        ({
            let toks = seq![
                Token::Number(a),
                t_add,
                Token::Number(b),
                t_mul,
                Token::Number(c),
                Token::Eof,
            ];
            spec_parse_expression(toks, 0).0 == Ok::<Expression, ParseError>(
                fold_op(
                    Expression::Number(a),
                    op_add,
                    fold_op(Expression::Number(b), op_mul, Expression::Number(c)),
                ),
            )
        }),
{
    reveal(spec_parse_expression);
    reveal_with_fuel(spec_term_rest, 2);
    reveal_with_fuel(spec_arith_rest, 2);
}

/// A `when` statement records the presence of its `otherwise` clause
/// faithfully: with no `otherwise` token after the then-block the result
/// carries `None`; with an `otherwise` token followed by no indent it carries
/// `Some` of an empty block — present and empty, distinguishable from absent.
pub proof fn lemma_when_otherwise_distinguished(toks: Seq<Token>, pos: int)
    requires
        token_at(toks, pos) is When,
    ensures
        ({
            let (rc, dc) = spec_parse_expression(toks, pos + 1);
            match rc {
                Ok(condition) => {
                    if token_at(toks, pos + 1 + dc) is Then {
                        let n1 = newline_run(toks, pos + 2 + dc);
                        let (rt, dt) = spec_parse_block(toks, pos + 2 + dc + n1, true, false);
                        match rt {
                            Ok(then_block) => {
                                let p_after = pos + 2 + dc + n1 + dt;
                                &&& (!(token_at(toks, p_after) is Otherwise)
                                    ==> spec_parse_when(toks, pos).0 == Ok::<StmtV, ParseError>(
                                    StmtV::When { condition, then_block, otherwise_block: None },
                                ))
                                &&& ((token_at(toks, p_after) is Otherwise && !(token_at(
                                    toks,
                                    p_after + 1 + newline_run(toks, p_after + 1),
                                ) is Indent)) ==> spec_parse_when(toks, pos).0 == Ok::<
                                    StmtV,
                                    ParseError,
                                >(
                                    StmtV::When {
                                        condition,
                                        then_block,
                                        otherwise_block: Some(Seq::empty()),
                                    },
                                ))
                            },
                            Err(_) => true,
                        }
                    } else {
                        true
                    }
                },
                Err(_) => true,
            }
        }),
{
}

/// A block-reading loop stops exactly at a terminator: when it succeeds, the
/// token in view at its end is one of its terminators, never consumed. For a
/// then-block, whose terminators include `otherwise`, this is why statements
/// of a following `otherwise` clause are never swallowed, even without an
/// explicit dedent between them.
pub proof fn lemma_block_items_stop_at_terminator(
    toks: Seq<Token>,
    pos: int,
    otherwise_ends: bool,
    end_ends: bool,
)
    ensures
        ({
            let (r, d) = spec_parse_block_items(toks, pos, otherwise_ends, end_ends);
            r is Ok ==> is_terminator(token_at(toks, pos + d), otherwise_ends, end_ends)
        }),
    decreases remaining(toks, pos),
{
    if !is_terminator(token_at(toks, pos), otherwise_ends, end_ends) {
        let (rs, ds) = spec_parse_statement(toks, pos);
        if rs is Ok {
            lemma_statement_consumes(toks, pos);
            let n = newline_run(toks, pos + ds);
            lemma_block_items_stop_at_terminator(toks, pos + ds + n, otherwise_ends, end_ends);
        }
    }
}

/// The then-block of a `when` never runs past a `dedent`, an `otherwise` or
/// the end of input: whatever follows one of these belongs to the caller.
pub proof fn lemma_then_block_leaves_otherwise(toks: Seq<Token>, pos: int)
    ensures
        ({
            let (r, d) = spec_parse_block_items(toks, pos, true, false);
            r is Ok ==> (token_at(toks, pos + d) is Dedent || token_at(toks, pos + d) is Otherwise
                || token_at(toks, pos + d) is Eof)
        }),
{
    lemma_block_items_stop_at_terminator(toks, pos, true, false);
}

/// Malformed input `let` followed by anything but an identifier fails with
/// the error naming the missing identifier, and consumes nothing.
pub proof fn lemma_let_missing_identifier(toks: Seq<Token>, pos: int)
    requires
        token_at(toks, pos) is Let,
        !(token_at(toks, pos + 1) is Identifier),
    ensures
        spec_parse_statement(toks, pos).0 == Err::<StmtV, ParseError>(
            ParseError::ExpectedIdentifierAfterLet,
        ),
        spec_parse_statement(toks, pos).1 == 0,
{
}

/// `define <f> with <p1> <p2>`, an indented one-statement body, a dedent:
/// whatever stands after the dedent, the resulting definition is the same, so
/// the form closed by an `end` keyword and the form closed by the dedent
/// alone parse identically. When the `end` token is present it is consumed
/// (the count rises by one); when it is absent nothing more is consumed.
pub proof fn lemma_define_end_optional(
    toks: Seq<Token>,
    f: String,
    p1: String,
    p2: String,
    x: String,
)
    requires
        toks.len() >= 11,
        toks[0] == Token::Define,
        toks[1] == Token::Identifier(f),
        toks[2] == Token::With,
        toks[3] == Token::Identifier(p1),
        toks[4] == Token::Identifier(p2),
        toks[5] == Token::Newline,
        toks[6] == Token::Indent,
        toks[7] == Token::Show,
        toks[8] == Token::Identifier(x),
        toks[9] == Token::Newline,
        toks[10] == Token::Dedent,
    ensures
        spec_parse_statement(toks, 0).0 == Ok::<StmtV, ParseError>(
            StmtV::FunctionDef {
                name: f,
                parameters: seq![p1, p2],
                body: seq![StmtV::Show { value: Expression::Identifier(x) }],
            },
        ),
        spec_parse_statement(toks, 0).1 == if token_at(toks, 11) is End {
            12int
        } else {
            11int
        },
{
    let show_st = StmtV::Show { value: Expression::Identifier(x) };
    assert(spec_parse_expression(toks, 8) == (Ok::<Expression, ParseError>(
        Expression::Identifier(x),
    ), 1nat)) by {
        reveal(spec_parse_expression);
    };
    assert(spec_parse_statement(toks, 7) == (Ok::<StmtV, ParseError>(show_st), 2nat));
    assert(newline_run(toks, 9) == 1) by {
        reveal_with_fuel(newline_run, 2);
    };
    assert(spec_parse_block_items(toks, 7, false, true) == (Ok::<Seq<StmtV>, ParseError>(
        seq![show_st],
    ), 3nat)) by {
        reveal_with_fuel(spec_parse_block_items, 2);
        assert(spec_parse_statement(toks, 7) == (Ok::<StmtV, ParseError>(show_st), 2nat));
        assert(seq![show_st] + Seq::<StmtV>::empty() =~= seq![show_st]);
    };
    assert(spec_parse_block(toks, 6, false, true) == (Ok::<Seq<StmtV>, ParseError>(
        seq![show_st],
    ), 5nat));
    assert(param_run(toks, 3) == (seq![p1, p2], 2nat)) by {
        reveal_with_fuel(param_run, 3);
        assert(seq![p1] + (seq![p2] + Seq::<String>::empty()) =~= seq![p1, p2]);
    };
    assert(newline_run(toks, 5) == 1) by {
        reveal_with_fuel(newline_run, 2);
    };
}

/// A token sequence holding nothing but blank lines before its end parses to
/// the empty program, without error.
pub proof fn lemma_empty_input_parses_empty(toks: Seq<Token>, pos: int)
    requires
        token_at(toks, pos + newline_run(toks, pos)) is Eof,
    ensures
        spec_parse_program(toks, pos).0 == Ok::<Seq<StmtV>, ParseError>(Seq::empty()),
{
}

} // verus!
