//! The abstract syntax tree the parser builds, and its mathematical view.
//!
//! The tree is built once during a parse and never mutated afterwards; every
//! node exclusively owns its children, so the tree is acyclic by
//! construction. Blocks are ordered sequences of statements (order is
//! execution order).
//!
//! Specifications speak of statements through [`StmtV`], a mirror of
//! [`Statement`] in which every block is a `Seq` instead of a `Vec`;
//! expressions are already plain recursive values and stand in `StmtV`
//! unchanged.

use vstd::prelude::*;

verus! {

/// A binary operator, one of the ten the expression grammar knows.
#[derive(Debug, Clone, Copy, PartialEq, Eq, Structural)]
pub enum BinaryOperator {
    Add,
    Subtract,
    Multiply,
    Divide,
    GreaterThan,
    LessThan,
    GreaterThanOrEqual,
    LessThanOrEqual,
    Equal,
    NotEqual,
}

/// An application of a binary operator to two operand subtrees.
#[derive(Debug, PartialEq, Eq)]
pub struct BinaryOperation {
    pub left: Box<Expression>,
    pub operator: BinaryOperator,
    pub right: Box<Expression>,
}

/// An expression tree: a literal, an identifier reference, or a binary
/// operation over two exclusively owned subtrees.
#[derive(Debug, PartialEq, Eq)]
pub enum Expression {
    Number(i64),
    StringLit(String),
    Identifier(String),
    BinaryOp(BinaryOperation),
}

/// `let <identifier> be <expression>`: binds a name to a value.
#[derive(Debug, PartialEq, Eq)]
pub struct LetStatement {
    pub identifier: String,
    pub value: Expression,
}

/// `show <expression>`: an output statement.
#[derive(Debug, PartialEq, Eq)]
pub struct ShowStatement {
    pub value: Expression,
}

/// `when <condition> then <block> [otherwise <block>]`.
///
/// `otherwise_block` is `None` when no `otherwise` clause appeared, and
/// `Some` of a possibly empty block when it did: the two are distinguishable.
#[derive(Debug, PartialEq, Eq)]
pub struct WhenStatement {
    pub condition: Expression,
    pub then_block: Vec<Statement>,
    pub otherwise_block: Option<Vec<Statement>>,
}

/// `define <name> [with <parameter>...] <body>`: a function definition.
/// Parameter names are ordered and possibly empty; no uniqueness is enforced
/// at this layer.
#[derive(Debug, PartialEq, Eq)]
pub struct FunctionDef {
    pub name: String,
    pub parameters: Vec<String>,
    pub body: Vec<Statement>,
}

/// One statement of the language.
#[derive(Debug, PartialEq, Eq)]
pub enum Statement {
    Let(LetStatement),
    Show(ShowStatement),
    When(WhenStatement),
    FunctionDef(FunctionDef),
    Expression(Expression),
}

/// The root of the tree: the ordered statements of a whole program.
#[derive(Debug, PartialEq, Eq)]
pub struct Program {
    pub statements: Vec<Statement>,
}

/// The mathematical view of a statement: the same shape as [`Statement`],
/// with every block an ordered `Seq`.
pub enum StmtV {
    Let { identifier: String, value: Expression },
    Show { value: Expression },
    When { condition: Expression, then_block: Seq<StmtV>, otherwise_block: Option<Seq<StmtV>> },
    FunctionDef { name: String, parameters: Seq<String>, body: Seq<StmtV> },
    Expr { value: Expression },
}

/// The view of a statement.
pub open spec fn stmt_view(s: Statement) -> StmtV
    decreases s,
{
    match s {
        Statement::Let(l) => StmtV::Let { identifier: l.identifier, value: l.value },
        Statement::Show(sh) => StmtV::Show { value: sh.value },
        Statement::When(w) => StmtV::When {
            condition: w.condition,
            then_block: stmts_view(w.then_block@),
            otherwise_block: match w.otherwise_block {
                Some(b) => Some(stmts_view(b@)),
                None => None,
            },
        },
        Statement::FunctionDef(f) => StmtV::FunctionDef {
            name: f.name,
            parameters: f.parameters@,
            body: stmts_view(f.body@),
        },
        Statement::Expression(e) => StmtV::Expr { value: e },
    }
}

/// The view of a sequence of statements, element by element.
pub open spec fn stmts_view(ss: Seq<Statement>) -> Seq<StmtV>
    decreases ss,
{
    if ss.len() == 0 {
        Seq::empty()
    } else {
        seq![stmt_view(ss[0])] + stmts_view(ss.drop_first())
    }
}

impl View for Statement {
    type V = StmtV;

    open spec fn view(&self) -> StmtV {
        stmt_view(*self)
    }
}

impl View for Program {
    type V = Seq<StmtV>;

    open spec fn view(&self) -> Seq<StmtV> {
        stmts_view(self.statements@)
    }
}

} // verus!
