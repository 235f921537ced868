//! The predicate evaluator: a recursive interpreter of a boolean expression
//! tree against one row. It never fails; every expression shape outside the
//! supported grammar evaluates to `false`, so unrecognized predicates
//! exclude rows instead of rejecting the query.

use crate::ast::{BinOp, Expression};
use crate::row::Row;
use crate::text::{spec_strip_quotes, str_eq, strip_quotes};
use vstd::prelude::*;

verus! {

/// What a predicate means on a row: a comparison demands an identifier on
/// the left and a literal on the right and compares the row's value for
/// that column with the unquoted literal; `AND`/`OR` combine any other pair
/// of operands; every remaining shape is `false`.
pub open spec fn spec_eval(e: Expression, row: Map<Seq<char>, Seq<char>>) -> bool
    decreases e,
{
    match e {
        Expression::Binary { op, left, right } => match (*left, *right) {
            (Expression::Ident(col), Expression::Literal(lit)) => {
                let v = spec_strip_quotes(lit@);
                match op {
                    BinOp::Eq => row.contains_key(col@) && row[col@] == v,
                    BinOp::Ne => !(row.contains_key(col@) && row[col@] == v),
                    _ => false,
                }
            },
            (l, r) => match op {
                BinOp::And => spec_eval(l, row) && spec_eval(r, row),
                BinOp::Or => spec_eval(l, row) || spec_eval(r, row),
                _ => false,
            },
        },
        _ => false,
    }
}

/// Whether the row's value for a column equals the unquoted literal; a row
/// missing the column compares unequal.
fn column_equals(row: &Row, col: &String, lit: &String) -> (r: bool)
    requires
        row.wf(),
    ensures
        r == (row@.contains_key(col@) && row@[col@] == spec_strip_quotes(lit@)),
{
    let v = strip_quotes(lit.as_str());
    match row.get(col.as_str()) {
        Some(value) => str_eq(value.as_str(), v),
        None => false,
    }
}

/// Evaluates a predicate expression against one row.
pub fn eval_condition(expr: &Expression, row: &Row) -> (r: bool)
    requires
        row.wf(),
    ensures
        r == spec_eval(*expr, row@),
    decreases *expr,
{
    match expr {
        Expression::Binary { op, left, right } => match (&**left, &**right) {
            (Expression::Ident(col), Expression::Literal(lit)) => match op {
                BinOp::Eq => column_equals(row, col, lit),
                BinOp::Ne => !column_equals(row, col, lit),
                _ => false,
            },
            _ => match op {
                BinOp::And => eval_condition(left, row) && eval_condition(right, row),
                BinOp::Or => eval_condition(left, row) || eval_condition(right, row),
                _ => false,
            },
        },
        _ => false,
    }
}

} // verus!
