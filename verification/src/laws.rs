//! The laws of the pipeline, stated over the specification functions and
//! proved once and for all: what the validity flag reports, and what the
//! result of a wildcard selection, a column selection, and an equality,
//! inequality, conjunction or disjunction filter contains.

use crate::ast::{BinOp, Expression, ParsedStatement, ProjItem};
use crate::eval::spec_eval;
use crate::pipeline::{keep_pred, lower_of, project_fn, spec_project, spec_query, spec_results,
    spec_valid};
use crate::text::spec_strip_quotes;
use vstd::prelude::*;

verus! {

/// Filtering with pointwise-equal predicates selects the same rows.
proof fn lemma_filter_congruent<A>(s: Seq<A>, p: spec_fn(A) -> bool, q: spec_fn(A) -> bool)
    requires
        forall|x: A| #[trigger] p(x) == q(x),
    ensures
        s.filter(p) == s.filter(q),
    decreases s.len(),
{
    reveal(Seq::filter);
    if s.len() > 0 {
        lemma_filter_congruent(s.drop_last(), p, q);
    }
}

/// Filtering with a predicate that holds everywhere keeps every element.
proof fn lemma_filter_all<A>(s: Seq<A>, p: spec_fn(A) -> bool)
    requires
        forall|x: A| #[trigger] p(x),
    ensures
        s.filter(p) == s,
    decreases s.len(),
{
    reveal(Seq::filter);
    if s.len() > 0 {
        lemma_filter_all(s.drop_last(), p);
        assert(s.drop_last().push(s.last()) =~= s);
    }
}

/// Mapping a pointwise-identical transformation changes nothing.
proof fn lemma_map_values_id<A>(s: Seq<A>, f: spec_fn(A) -> A)
    requires
        forall|x: A| #[trigger] f(x) == x,
    ensures
        s.map_values(f) == s,
{
    assert(s.map_values(f) =~= s);
}

/// Projecting a row through the sole wildcard item copies it unchanged.
pub proof fn lemma_project_wildcard(row: Map<Seq<char>, Seq<char>>)
    ensures
        spec_project(seq![ProjItem::Wildcard], row) == row,
{
    let items = seq![ProjItem::Wildcard];
    assert(items.last() == ProjItem::Wildcard);
    assert(items.drop_last() =~= Seq::<ProjItem>::empty());
    assert(spec_project(items.drop_last(), row) == spec_project(Seq::<ProjItem>::empty(), row));
    assert(spec_project(Seq::<ProjItem>::empty(), row) == Map::<Seq<char>, Seq<char>>::empty());
    assert(Map::<Seq<char>, Seq<char>>::empty().union_prefer_right(row) =~= row);
}

/// The validity flag reports structural validity and nothing else: a
/// statement that is no `SELECT`, one whose `FROM` clause does not name
/// exactly one relation, and one that names — case-insensitively — a table
/// other than the given one all yield the empty result together with
/// `false`.
pub proof fn lemma_invalid_structure(
    table_name: Seq<char>,
    rows: Seq<Map<Seq<char>, Seq<char>>>,
    stmt: ParsedStatement,
)
    ensures
        spec_query(table_name, rows, stmt).1 == spec_valid(table_name, stmt),
        !spec_valid(table_name, stmt) ==> spec_query(table_name, rows, stmt) == (
            Seq::<Map<Seq<char>, Seq<char>>>::empty(),
            false,
        ),
{
}

/// A statement with no `SELECT` clause — anything the parsing collaborator
/// could not shape into a `SELECT` — yields the empty result and `false`.
pub proof fn lemma_unsupported_invalid(table_name: Seq<char>, rows: Seq<Map<Seq<char>, Seq<char>>>)
    ensures
        spec_query(table_name, rows, ParsedStatement::Unsupported) == (
            Seq::<Map<Seq<char>, Seq<char>>>::empty(),
            false,
        ),
{
}

/// `SELECT * FROM t` on a matching table name returns every row of `t`
/// unmodified, in the original order, with a valid verdict.
pub proof fn lemma_select_star(
    table_name: Seq<char>,
    rows: Seq<Map<Seq<char>, Seq<char>>>,
    stmt: ParsedStatement,
)
    requires
        stmt matches ParsedStatement::Select { from, projection, selection } && projection@
            == seq![ProjItem::Wildcard] && selection is None && from@.len() == 1 && lower_of(
            from@[0]@,
        ) == lower_of(table_name),
    ensures
        spec_query(table_name, rows, stmt) == (rows, true),
{
    let sel = Option::<Expression>::None;
    assert forall|x: Map<Seq<char>, Seq<char>>| #[trigger] keep_pred(sel)(x) by {}
    lemma_filter_all(rows, keep_pred(sel));
    assert forall|x: Map<Seq<char>, Seq<char>>| #[trigger]
        project_fn(seq![ProjItem::Wildcard])(x) == x by {
        lemma_project_wildcard(x);
    }
    lemma_map_values_id(rows, project_fn(seq![ProjItem::Wildcard]));
}

/// `SELECT c FROM t` keeps the row count and the verdict is valid; each
/// result row is the singleton mapping `c` to the source row's value where
/// the source row has the column, and the empty mapping where it lacks it.
pub proof fn lemma_select_column(
    table_name: Seq<char>,
    rows: Seq<Map<Seq<char>, Seq<char>>>,
    stmt: ParsedStatement,
    col: String,
)
    requires
        stmt matches ParsedStatement::Select { from, projection, selection } && projection@
            == seq![ProjItem::Column(col)] && selection is None && from@.len() == 1 && lower_of(
            from@[0]@,
        ) == lower_of(table_name),
    ensures
        spec_query(table_name, rows, stmt).1,
        spec_query(table_name, rows, stmt).0.len() == rows.len(),
        forall|i: int|
            0 <= i < rows.len() ==> spec_query(table_name, rows, stmt).0[i] == (
            if rows[i].contains_key(col@) {
                Map::<Seq<char>, Seq<char>>::empty().insert(col@, rows[i][col@])
            } else {
                Map::<Seq<char>, Seq<char>>::empty()
            }),
{
    let sel = Option::<Expression>::None;
    let items = seq![ProjItem::Column(col)];
    assert forall|x: Map<Seq<char>, Seq<char>>| #[trigger] keep_pred(sel)(x) by {}
    lemma_filter_all(rows, keep_pred(sel));
    assert(items.drop_last() =~= Seq::<ProjItem>::empty());
    assert forall|i: int| 0 <= i < rows.len() implies spec_results(rows, items, sel)[i] == (
    if rows[i].contains_key(col@) {
        Map::<Seq<char>, Seq<char>>::empty().insert(col@, rows[i][col@])
    } else {
        Map::<Seq<char>, Seq<char>>::empty()
    }) by {
        assert(rows.filter(keep_pred(sel)) == rows);
        assert(spec_results(rows, items, sel)[i] == project_fn(items)(rows[i]));
        assert(items.last() == ProjItem::Column(col));
        assert(spec_project(items.drop_last(), rows[i]) == spec_project(
            Seq::<ProjItem>::empty(),
            rows[i],
        ));
        assert(spec_project(Seq::<ProjItem>::empty(), rows[i]) == Map::<Seq<char>, Seq<char>>::empty());
    }
}

/// The predicate `col = 'lit'` states of a row: the row has the column and
/// its value equals the unquoted literal.
pub open spec fn eq_pred(col: Seq<char>, lit: Seq<char>) -> spec_fn(Map<Seq<char>, Seq<char>>) -> bool {
    |r: Map<Seq<char>, Seq<char>>| r.contains_key(col) && r[col] == spec_strip_quotes(lit)
}

/// The predicate `col != 'lit'` states of a row: the complement of
/// [`eq_pred`], so a row missing the column counts as different.
pub open spec fn ne_pred(col: Seq<char>, lit: Seq<char>) -> spec_fn(Map<Seq<char>, Seq<char>>) -> bool {
    |r: Map<Seq<char>, Seq<char>>| !(r.contains_key(col) && r[col] == spec_strip_quotes(lit))
}

/// `SELECT * FROM t WHERE col = 'lit'` keeps exactly the rows whose value
/// for the column equals the unquoted literal, unmodified and in order.
pub proof fn lemma_where_eq(
    table_name: Seq<char>,
    rows: Seq<Map<Seq<char>, Seq<char>>>,
    stmt: ParsedStatement,
    col: String,
    lit: String,
)
    requires
        stmt matches ParsedStatement::Select { from, projection, selection } && projection@
            == seq![ProjItem::Wildcard] && (selection matches Some(e) && e
            matches Expression::Binary { op, left, right } && op == BinOp::Eq && *left
            == Expression::Ident(col) && *right == Expression::Literal(lit)) && from@.len() == 1
            && lower_of(from@[0]@) == lower_of(table_name),
    ensures
        spec_query(table_name, rows, stmt).1,
        spec_query(table_name, rows, stmt).0 == rows.filter(eq_pred(col@, lit@)),
{
    match stmt {
        ParsedStatement::Select { selection, .. } => {
            assert forall|x: Map<Seq<char>, Seq<char>>| #[trigger]
                keep_pred(selection)(x) == eq_pred(col@, lit@)(x) by {}
            lemma_filter_congruent(rows, keep_pred(selection), eq_pred(col@, lit@));
            assert forall|x: Map<Seq<char>, Seq<char>>| #[trigger]
                project_fn(seq![ProjItem::Wildcard])(x) == x by {
                lemma_project_wildcard(x);
            }
            lemma_map_values_id(
                rows.filter(eq_pred(col@, lit@)),
                project_fn(seq![ProjItem::Wildcard]),
            );
        },
        ParsedStatement::Unsupported => {
            assert(false);
        },
    }
}

/// `SELECT * FROM t WHERE col != 'lit'` keeps exactly the complement:
/// the rows whose value differs, and the rows missing the column.
pub proof fn lemma_where_ne(
    table_name: Seq<char>,
    rows: Seq<Map<Seq<char>, Seq<char>>>,
    stmt: ParsedStatement,
    col: String,
    lit: String,
)
    requires
        stmt matches ParsedStatement::Select { from, projection, selection } && projection@
            == seq![ProjItem::Wildcard] && (selection matches Some(e) && e
            matches Expression::Binary { op, left, right } && op == BinOp::Ne && *left
            == Expression::Ident(col) && *right == Expression::Literal(lit)) && from@.len() == 1
            && lower_of(from@[0]@) == lower_of(table_name),
    ensures
        spec_query(table_name, rows, stmt).1,
        spec_query(table_name, rows, stmt).0 == rows.filter(ne_pred(col@, lit@)),
{
    match stmt {
        ParsedStatement::Select { selection, .. } => {
            assert forall|x: Map<Seq<char>, Seq<char>>| #[trigger]
                keep_pred(selection)(x) == ne_pred(col@, lit@)(x) by {}
            lemma_filter_congruent(rows, keep_pred(selection), ne_pred(col@, lit@));
            assert forall|x: Map<Seq<char>, Seq<char>>| #[trigger]
                project_fn(seq![ProjItem::Wildcard])(x) == x by {
                lemma_project_wildcard(x);
            }
            lemma_map_values_id(
                rows.filter(ne_pred(col@, lit@)),
                project_fn(seq![ProjItem::Wildcard]),
            );
        },
        ParsedStatement::Unsupported => {
            assert(false);
        },
    }
}

/// The predicate of a conjunction: both operands hold of the row.
pub open spec fn and_pred(e1: Expression, e2: Expression) -> spec_fn(Map<Seq<char>, Seq<char>>) -> bool {
    |r: Map<Seq<char>, Seq<char>>| spec_eval(e1, r) && spec_eval(e2, r)
}

/// The predicate of a disjunction: either operand holds of the row.
pub open spec fn or_pred(e1: Expression, e2: Expression) -> spec_fn(Map<Seq<char>, Seq<char>>) -> bool {
    |r: Map<Seq<char>, Seq<char>>| spec_eval(e1, r) || spec_eval(e2, r)
}

/// `WHERE p AND q` keeps exactly the rows satisfying both operands, each
/// evaluated by the recursive predicate semantics — so nested `AND`/`OR`
/// operands are handled by the same rule. The one shape written out here is
/// an identifier directly against a literal, which the evaluator reads as a
/// malformed comparison rather than a conjunction.
pub proof fn lemma_where_and(
    table_name: Seq<char>,
    rows: Seq<Map<Seq<char>, Seq<char>>>,
    stmt: ParsedStatement,
    e1: Expression,
    e2: Expression,
)
    requires
        !(e1 is Ident && e2 is Literal),
        stmt matches ParsedStatement::Select { from, projection, selection } && projection@
            == seq![ProjItem::Wildcard] && (selection matches Some(e) && e
            matches Expression::Binary { op, left, right } && op == BinOp::And && *left == e1
            && *right == e2) && from@.len() == 1 && lower_of(from@[0]@) == lower_of(table_name),
    ensures
        spec_query(table_name, rows, stmt).1,
        spec_query(table_name, rows, stmt).0 == rows.filter(and_pred(e1, e2)),
{
    match stmt {
        ParsedStatement::Select { selection, .. } => {
            assert forall|x: Map<Seq<char>, Seq<char>>| #[trigger]
                keep_pred(selection)(x) == and_pred(e1, e2)(x) by {}
            lemma_filter_congruent(rows, keep_pred(selection), and_pred(e1, e2));
            assert forall|x: Map<Seq<char>, Seq<char>>| #[trigger]
                project_fn(seq![ProjItem::Wildcard])(x) == x by {
                lemma_project_wildcard(x);
            }
            lemma_map_values_id(rows.filter(and_pred(e1, e2)), project_fn(seq![ProjItem::Wildcard]));
        },
        ParsedStatement::Unsupported => {
            assert(false);
        },
    }
}

/// `WHERE p OR q` keeps exactly the rows satisfying either operand, under
/// the same recursive semantics and the same exception as the conjunction.
pub proof fn lemma_where_or(
    table_name: Seq<char>,
    rows: Seq<Map<Seq<char>, Seq<char>>>,
    stmt: ParsedStatement,
    e1: Expression,
    e2: Expression,
)
    requires
        !(e1 is Ident && e2 is Literal),
        stmt matches ParsedStatement::Select { from, projection, selection } && projection@
            == seq![ProjItem::Wildcard] && (selection matches Some(e) && e
            matches Expression::Binary { op, left, right } && op == BinOp::Or && *left == e1
            && *right == e2) && from@.len() == 1 && lower_of(from@[0]@) == lower_of(table_name),
    ensures
        spec_query(table_name, rows, stmt).1,
        spec_query(table_name, rows, stmt).0 == rows.filter(or_pred(e1, e2)),
{
    match stmt {
        ParsedStatement::Select { selection, .. } => {
            assert forall|x: Map<Seq<char>, Seq<char>>| #[trigger]
                keep_pred(selection)(x) == or_pred(e1, e2)(x) by {}
            lemma_filter_congruent(rows, keep_pred(selection), or_pred(e1, e2));
            assert forall|x: Map<Seq<char>, Seq<char>>| #[trigger]
                project_fn(seq![ProjItem::Wildcard])(x) == x by {
                lemma_project_wildcard(x);
            }
            lemma_map_values_id(rows.filter(or_pred(e1, e2)), project_fn(seq![ProjItem::Wildcard]));
        },
        ParsedStatement::Unsupported => {
            assert(false);
        },
    }
}

} // verus!
