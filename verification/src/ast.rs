//! The abstract syntax the evaluator consumes: predicate expressions,
//! projection items, and the shape of a parsed statement. Parsing SQL text
//! into these types is a collaborator's job; every shape the collaborator
//! may hand over is representable, and unsupported shapes are carried as
//! explicit variants that evaluate fail-closed.

use vstd::prelude::*;

verus! {

/// A binary operator of a predicate expression.
#[derive(Clone, Copy, PartialEq, Eq, Structural)]
pub enum BinOp {
    /// String equality of a column's value and a literal.
    Eq,
    /// String inequality; a row missing the column counts as different.
    Ne,
    /// Logical conjunction of two sub-predicates.
    And,
    /// Logical disjunction of two sub-predicates.
    Or,
    /// Any other operator; it makes the comparison evaluate to `false`.
    Unsupported,
}

/// A predicate expression tree, evaluated against one row at a time.
pub enum Expression {
    /// A column name.
    Ident(String),
    /// A literal, kept in its written form: quote marks that surround a
    /// string literal are stripped at evaluation time.
    Literal(String),
    /// A binary operation over two sub-expressions.
    Binary { op: BinOp, left: Box<Expression>, right: Box<Expression> },
    /// Any node outside the supported grammar; it evaluates to `false`.
    Unsupported,
}

/// One item of a `SELECT` list.
pub enum ProjItem {
    /// `*`: every column of the source row.
    Wildcard,
    /// A single named column, omitted where the source row lacks it.
    Column(String),
    /// Any other projection shape; it contributes no columns.
    Unsupported,
}

/// A statement as the parsing collaborator hands it over.
pub enum ParsedStatement {
    /// A `SELECT` statement: the relations of its `FROM` clause, its
    /// projection list, and its optional `WHERE` predicate.
    Select { from: Vec<String>, projection: Vec<ProjItem>, selection: Option<Expression> },
    /// Anything else, including text that did not parse at all.
    Unsupported,
}

} // verus!
