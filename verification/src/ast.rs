//! The shape of a `SELECT` as the analyser and the rewriter see it: the
//! tables of `FROM` and `JOIN` with their aliases, the projection, and every
//! expression with the sub-expressions in which columns may be named.
//! Literals, type names and other leaves that name no column are not kept.

use vstd::prelude::*;

verus! {

/// A binary operator.
#[derive(Clone, Copy, Debug, PartialEq, Eq, Structural)]
pub enum Operator {
    Add,
    And,
    ArrowRight,
    ArrowRightShift,
    BitwiseAnd,
    BitwiseOr,
    Concat,
    Equals,
    Divide,
    Greater,
    GreaterEquals,
    Is,
    IsNot,
    LeftShift,
    Less,
    LessEquals,
    Modulus,
    Multiply,
    NotEquals,
    Or,
    RightShift,
    Substract,
}

/// An alias, written with `AS` or without.
#[derive(Clone, Debug)]
pub enum As {
    As(String),
    Elided(String),
}

/// A table name as written in `FROM` or `JOIN`, with the alias that the name
/// itself may carry.
#[derive(Clone, Debug)]
pub struct QualifiedName {
    pub name: String,
    pub alias: Option<String>,
}

/// One `WHEN .. THEN ..` arm of a `CASE`.
#[derive(Debug)]
pub struct WhenThen {
    pub when_expr: Expr,
    pub then_expr: Expr,
}

/// An expression.
#[derive(Debug)]
pub enum Expr {
    Between { lhs: Box<Expr>, start: Box<Expr>, end: Box<Expr> },
    Binary(Box<Expr>, Operator, Box<Expr>),
    Case { base: Option<Box<Expr>>, when_then_pairs: Vec<WhenThen>, else_expr: Option<Box<Expr>> },
    Cast(Box<Expr>),
    Collate(Box<Expr>),
    /// `schema.table.column`
    DoublyQualified(String, String, String),
    Exists(Box<Select>),
    FunctionCall { name: String, args: Vec<Expr>, filter: Option<Box<Expr>> },
    /// An identifier; the rewriter writes the parameter `?` as one.
    Id(String),
    InList { lhs: Box<Expr>, rhs: Vec<Expr> },
    InSelect { lhs: Box<Expr>, rhs: Box<Select> },
    InTable { lhs: Box<Expr>, table: String, args: Vec<Expr> },
    IsNull(Box<Expr>),
    Like { lhs: Box<Expr>, rhs: Box<Expr>, escape: Option<Box<Expr>> },
    /// A column named without its table.
    Name(String),
    NotNull(Box<Expr>),
    Parenthesized(Vec<Expr>),
    /// `table.column`
    Qualified(String, String),
    Subquery(Box<Select>),
    Unary(Box<Expr>),
    /// A literal, a variable, `f(*)` or `RAISE`: nothing in it names a column.
    Constant,
}

/// One item of the projection.
#[derive(Debug)]
pub enum ResultColumn {
    Expr(Expr, Option<As>),
    Star,
    TableStar(String),
}

/// What stands in `FROM` or behind `JOIN`.
#[derive(Clone, Debug)]
pub enum SelectTable {
    Table(QualifiedName, Option<As>),
    /// A table-valued function, a subquery or a parenthesized join.
    Other,
}

/// The constraint of a join.
#[derive(Debug)]
pub enum JoinConstraint {
    On(Expr),
    Using(Vec<String>),
}

/// One `JOIN`.
#[derive(Debug)]
pub struct JoinedSelectTable {
    pub table: SelectTable,
    pub constraint: Option<JoinConstraint>,
}

/// The `FROM` clause: its first table and the joins that follow.
#[derive(Debug)]
pub struct FromClause {
    pub select: SelectTable,
    pub joins: Vec<JoinedSelectTable>,
}

/// A `SELECT`. A statement without a projection and without `FROM` stands
/// for `VALUES`.
#[derive(Debug)]
pub struct Select {
    pub columns: Vec<ResultColumn>,
    pub from: Option<FromClause>,
    pub where_clause: Option<Expr>,
}

/// A statement: a `SELECT`, or anything else.
#[derive(Debug)]
pub enum Stmt {
    Select(Select),
    Other,
}

/// What the parser hands over for one command.
#[derive(Debug)]
pub enum Cmd {
    Explain(Stmt),
    ExplainQueryPlan(Stmt),
    Stmt(Stmt),
}

} // verus!
