//! The boundary to the parsing collaborator. SQL text is parsed by the
//! `sqlparser` crate, and the first parsed statement is converted, node by
//! node, into the evaluator's own syntax tree. The statement a given text
//! denotes is named [`parse_of`], so the pipeline's contract can pin its
//! result to the meaning of exactly that statement.

use crate::ast::{BinOp, Expression, ParsedStatement, ProjItem};
use sqlparser::ast::{BinaryOperator, Expr as SqlExpr, SelectItem as SqlSelectItem};
use sqlparser::ast::{SetExpr, Statement as SqlStatement};
use sqlparser::dialect::GenericDialect;
use sqlparser::parser::Parser;
use vstd::prelude::*;

verus! {

#[verifier::external_type_specification]
#[verifier::external_body]
pub struct ExSelectItem(SqlSelectItem);

#[verifier::external_type_specification]
#[verifier::external_body]
pub struct ExExpr(SqlExpr);

/// The statement that a piece of SQL text denotes: what parsing the text and
/// converting its first statement yields. It depends on the text alone.
pub uninterp spec fn parse_of(s: Seq<char>) -> ParsedStatement;

/// Relies on sqlparser's `SelectItem`: a plain wildcard item becomes the
/// wildcard projection, an unnamed bare identifier becomes a named column,
/// and every other item shape is carried as unsupported.
#[verifier::external_body]
fn convert_select_item(item: &SqlSelectItem) -> ProjItem {
    match item {
        SqlSelectItem::Wildcard(_) => ProjItem::Wildcard,
        SqlSelectItem::UnnamedExpr(SqlExpr::Identifier(id)) => ProjItem::Column(id.value.clone()),
        _ => ProjItem::Unsupported,
    }
}

/// Relies on sqlparser's `Expr` and `BinaryOperator`: identifiers keep
/// their unquoted name, values keep their written (`Display`) form, binary
/// operations keep their operands with `=`, `!=`, `AND` and `OR` mapped to
/// the evaluator's operators, and every other node is carried as
/// unsupported.
#[verifier::external_body]
fn convert_expr(e: &SqlExpr) -> Expression {
    match e {
        SqlExpr::Identifier(id) => Expression::Ident(id.value.clone()),
        SqlExpr::Value(v) => Expression::Literal(v.to_string()),
        SqlExpr::BinaryOp { left, op, right } => Expression::Binary {
            op: match op {
                BinaryOperator::Eq => BinOp::Eq, BinaryOperator::NotEq => BinOp::Ne,
                BinaryOperator::And => BinOp::And, BinaryOperator::Or => BinOp::Or,
                _ => BinOp::Unsupported,
            },
            left: Box::new(convert_expr(left)),
            right: Box::new(convert_expr(right)),
        },
        _ => Expression::Unsupported,
    }
}

/// Relies on sqlparser's `Parser::parse_sql` with the generic dialect: it
/// returns the statements of the given SQL text, or an error for text it
/// cannot parse, and its result depends on the text alone. Of the first
/// statement, a single-table `SELECT` keeps its `FROM` relation names (each
/// written out by the crate's `Display` form), its projection items and its
/// optional `WHERE` expression, converted by the functions above; any parse
/// error, an empty statement list, or a statement of another shape becomes
/// the unsupported statement, which the pipeline reports invalid.
#[verifier::external_body]
pub(crate) fn parse_statement(sql: &str) -> (stmt: ParsedStatement)
    ensures
        stmt == parse_of(sql@),
{
    match Parser::parse_sql(&GenericDialect {}, sql).ok().and_then(|v| v.into_iter().next()) {
        Some(SqlStatement::Query(q)) => match *q.body {
            SetExpr::Select(sel) => ParsedStatement::Select {
                from: sel.from.iter().map(|t| t.relation.to_string()).collect(),
                projection: sel.projection.iter().map(convert_select_item).collect(),
                selection: sel.selection.as_ref().map(convert_expr),
            },
            _ => ParsedStatement::Unsupported,
        },
        _ => ParsedStatement::Unsupported,
    }
}

} // verus!
