//! A minimal relational query evaluator: given an in-memory table and a
//! parsed single-table `SELECT` statement, it filters the table's rows with
//! the statement's predicate and projects the selected columns, returning
//! the resulting rows together with a validity flag.

pub mod ast;
pub mod eval;
pub mod laws;
pub mod parse;
pub mod pipeline;
pub mod row;
pub mod text;
