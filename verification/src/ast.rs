//! The statement syntax tree the router inspects.
//!
//! The AST producer — a native Postgres parser — lives outside the library;
//! these nodes are a plain-data mirror of the node shapes it exposes, holding
//! exactly the fields the router reads. Whatever drives the library converts
//! the producer's output into this tree; node kinds the router never inspects
//! are collapsed into [`Node::Other`].

use vstd::prelude::*;

verus! {

/// Which null test a `NullTest` node performs.
#[derive(Debug, Clone, Copy, PartialEq, Eq)]
pub enum NullTestType {
    IsNull,
    IsNotNull,
}

/// Connective of a boolean expression.
#[derive(Debug, Clone, Copy, PartialEq, Eq)]
pub enum BoolExprType {
    AndExpr,
    OrExpr,
    NotExpr,
}

/// Kind of an `A_Expr` node. Only the first three kinds can contribute key
/// bindings; every other kind is `Other`.
#[derive(Debug, Clone, Copy, PartialEq, Eq)]
pub enum AExprKind {
    Op,
    In,
    OpAny,
    Other,
}

/// Value of a constant literal node.
#[derive(Debug, Clone, PartialEq, Eq)]
pub enum AConstValue {
    /// An integer literal, kept as its numeric value.
    Ival(i32),
    /// A string literal, kept in lexical form.
    Sval(String),
    /// A numeric literal too wide for an integer, kept in lexical form.
    Fval(String),
    /// Any other literal kind: never a routing value.
    Other,
}

/// One node of the parsed tree.
#[derive(Debug)]
pub enum Node {
    /// `IS NULL` / `IS NOT NULL` test.
    NullTest { null_test_type: NullTestType, arg: Option<Box<Node>> },
    /// `AND` / `OR` / `NOT` combination of subexpressions.
    BoolExpr { boolop: BoolExprType, args: Vec<Node> },
    /// Operator expression; `name` holds the operator's name as string nodes.
    AExpr { kind: AExprKind, name: Vec<Node>, lexpr: Option<Box<Node>>, rexpr: Option<Box<Node>> },
    /// Constant literal.
    AConst { val: AConstValue },
    /// Qualified column reference; `fields` holds string nodes.
    ColumnRef { fields: Vec<Node> },
    /// Placeholder `$n`; `number` is the raw 1-based position.
    ParamRef { number: i32 },
    /// Flat list of expressions, as `IN (a, b, c)` presents its right side.
    List { items: Vec<Node> },
    /// Cast; transparent to the router.
    TypeCast { arg: Option<Box<Node>> },
    /// Bare string node, as it appears inside `ColumnRef` fields and
    /// operator names.
    StringVal { sval: String },
    /// Any node kind the router does not inspect.
    Other,
}

} // verus!
