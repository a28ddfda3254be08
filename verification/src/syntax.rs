//! The syntax tree of one `SELECT` statement.
//!
//! The tree holds the supported subset of the language. Wherever the language
//! allows more than the subset, the node has an `Unsupported` case that
//! carries the text of what was written, so that a traversal can refuse it by
//! name.
use vstd::prelude::*;

verus! {

/// An identifier, without its quotes.
#[derive(Clone, Debug, PartialEq, Eq)]
pub struct Ident {
    pub value: String,
}

/// A possibly qualified name: its parts, outermost first.
#[derive(Clone, Debug, PartialEq, Eq)]
pub struct ObjectName {
    pub parts: Vec<Ident>,
}

/// A literal.
#[derive(Clone, Debug, PartialEq, Eq)]
pub enum Value {
    /// A number, as written.
    Number(String),
    Unsupported(String),
}

/// A binary operator.
#[derive(Clone, Debug, PartialEq, Eq)]
pub enum BinaryOperator {
    Plus,
    Minus,
    Multiply,
    Divide,
    Modulo,
    Gt,
    Lt,
    GtEq,
    LtEq,
    Eq,
    NotEq,
    And,
    Or,
    Unsupported(String),
}

/// An expression.
#[derive(Debug, PartialEq, Eq)]
pub enum Expr {
    Identifier(Ident),
    Value(Value),
    BinaryOp { left: Box<Expr>, op: BinaryOperator, right: Box<Expr> },
    Unsupported(String),
}

/// One entry of the projection list.
#[derive(Debug, PartialEq, Eq)]
pub enum SelectItem {
    UnnamedExpr(Expr),
    ExprWithAlias { expr: Expr, alias: Ident },
    Unsupported(String),
}

/// A source of rows.
#[derive(Clone, Debug, PartialEq, Eq)]
pub enum TableFactor {
    Table { name: ObjectName },
    Unsupported(String),
}

/// The condition of a join.
#[derive(Clone, Debug, PartialEq, Eq)]
pub enum JoinConstraint {
    /// `USING (..)` with the columns listed.
    Using(Vec<Ident>),
    Unsupported(String),
}

/// The kind of a join, with its condition.
#[derive(Clone, Debug, PartialEq, Eq)]
pub enum JoinOperator {
    Inner(JoinConstraint),
    LeftOuter(JoinConstraint),
    RightOuter(JoinConstraint),
    Unsupported(String),
}

/// One `JOIN` clause.
#[derive(Clone, Debug, PartialEq, Eq)]
pub struct Join {
    pub relation: TableFactor,
    pub join_operator: JoinOperator,
}

/// One entry of the `FROM` clause: a source and the joins onto it.
#[derive(Clone, Debug, PartialEq, Eq)]
pub struct TableWithJoins {
    pub relation: TableFactor,
    pub joins: Vec<Join>,
}

/// One entry of the `ORDER BY` clause; `asc` is `None` where no direction
/// was written.
#[derive(Debug, PartialEq, Eq)]
pub struct OrderByExpr {
    pub expr: Expr,
    pub asc: Option<bool>,
}

/// A `SELECT`: projection, `FROM` clause and optional `WHERE` condition.
#[derive(Debug, PartialEq, Eq)]
pub struct Select {
    pub projection: Vec<SelectItem>,
    pub from: Vec<TableWithJoins>,
    pub selection: Option<Expr>,
}

/// The body of a query.
#[derive(Debug, PartialEq, Eq)]
pub enum SetExpr {
    Select(Select),
    Unsupported(String),
}

/// A query: a body with optional ordering and limit.
#[derive(Debug, PartialEq, Eq)]
pub struct Query {
    pub body: SetExpr,
    pub order_by: Vec<OrderByExpr>,
    pub limit: Option<Expr>,
}

/// A statement.
#[derive(Debug, PartialEq, Eq)]
pub enum Statement {
    Query(Query),
    Unsupported(String),
}

} // verus!
