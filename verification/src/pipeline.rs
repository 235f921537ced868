//! The query pipeline: validates the shape of a parsed statement against a
//! table, filters the table's rows with the predicate evaluator, and
//! projects the selected columns. The result is the sequence of projected
//! rows and a validity flag; the flag is false exactly for structural
//! failures (not a single-table `SELECT`, a `FROM` clause that does not
//! name exactly one relation, or a `FROM` target that does not name the
//! table), never for an empty result.

use crate::ast::{Expression, ParsedStatement, ProjItem};
use crate::eval::{eval_condition, spec_eval};
use crate::parse::{parse_of, parse_statement};
use crate::row::{map_of_entries, rows_view, Row, Table};
use vstd::prelude::*;

verus! {

broadcast use vstd::seq_lib::group_filter_ensures;

/// The lowercase form of a character sequence, used only to compare
/// relation names case-insensitively.
pub uninterp spec fn lower_of(s: Seq<char>) -> Seq<char>;

/// Relies on `str::to_lowercase` of std: the returned string is a lowercase
/// form of the input and depends on the input characters alone.
#[verifier::external_body]
fn to_lowercase(s: &str) -> (r: String)
    ensures
        r@ == lower_of(s@),
{
    s.to_lowercase()
}

/// Whether a row survives the `WHERE` clause; without one, every row does.
pub open spec fn spec_keep(row: Map<Seq<char>, Seq<char>>, sel: Option<Expression>) -> bool {
    match sel {
        Some(e) => spec_eval(e, row),
        None => true,
    }
}

/// What one projection item adds to a result row built so far: a wildcard
/// copies every column of the source row, a named column copies its value
/// only where the source row has it, and an unsupported item adds nothing.
pub open spec fn spec_project_item(
    item: ProjItem,
    row: Map<Seq<char>, Seq<char>>,
    acc: Map<Seq<char>, Seq<char>>,
) -> Map<Seq<char>, Seq<char>> {
    match item {
        ProjItem::Wildcard => acc.union_prefer_right(row),
        ProjItem::Column(name) => if row.contains_key(name@) {
            acc.insert(name@, row[name@])
        } else {
            acc
        },
        ProjItem::Unsupported => acc,
    }
}

/// The row that a projection list builds from a source row, applying the
/// items in declared order to an initially empty row.
pub open spec fn spec_project(
    items: Seq<ProjItem>,
    row: Map<Seq<char>, Seq<char>>,
) -> Map<Seq<char>, Seq<char>>
    decreases items.len(),
{
    if items.len() == 0 {
        Map::empty()
    } else {
        spec_project_item(items.last(), row, spec_project(items.drop_last(), row))
    }
}

/// The row filter a `WHERE` clause denotes.
pub open spec fn keep_pred(sel: Option<Expression>) -> spec_fn(Map<Seq<char>, Seq<char>>) -> bool {
    |r: Map<Seq<char>, Seq<char>>| spec_keep(r, sel)
}

/// The row transformation a projection list denotes.
pub open spec fn project_fn(items: Seq<ProjItem>) -> spec_fn(Map<Seq<char>, Seq<char>>) -> Map<
    Seq<char>,
    Seq<char>,
> {
    |r: Map<Seq<char>, Seq<char>>| spec_project(items, r)
}

/// The rows a query produces once its shape is validated: the table's rows
/// in their original order, those that survive the `WHERE` clause, each
/// projected through the projection list.
pub open spec fn spec_results(
    rows: Seq<Map<Seq<char>, Seq<char>>>,
    items: Seq<ProjItem>,
    sel: Option<Expression>,
) -> Seq<Map<Seq<char>, Seq<char>>> {
    rows.filter(keep_pred(sel)).map_values(project_fn(items))
}

/// Whether a statement is a structurally valid query against a table of the
/// given name: a `SELECT` whose `FROM` clause names exactly one relation,
/// and that relation names the table case-insensitively.
pub open spec fn spec_valid(table_name: Seq<char>, stmt: ParsedStatement) -> bool {
    match stmt {
        ParsedStatement::Select { from, .. } => from@.len() == 1 && lower_of(from@[0]@) == lower_of(
            table_name,
        ),
        ParsedStatement::Unsupported => false,
    }
}

/// The full meaning of a query: the projected surviving rows and `true` for
/// a structurally valid statement, the empty sequence and `false` otherwise.
pub open spec fn spec_query(
    table_name: Seq<char>,
    rows: Seq<Map<Seq<char>, Seq<char>>>,
    stmt: ParsedStatement,
) -> (Seq<Map<Seq<char>, Seq<char>>>, bool) {
    match stmt {
        ParsedStatement::Select { from, projection, selection } => {
            if from@.len() == 1 && lower_of(from@[0]@) == lower_of(table_name) {
                (spec_results(rows, projection@, selection), true)
            } else {
                (Seq::empty(), false)
            }
        },
        ParsedStatement::Unsupported => (Seq::empty(), false),
    }
}

/// Inserting into the right operand of a right-preferring union is the same
/// as inserting into the union.
proof fn lemma_union_insert_right(
    m1: Map<Seq<char>, Seq<char>>,
    m2: Map<Seq<char>, Seq<char>>,
    k: Seq<char>,
    v: Seq<char>,
)
    ensures
        m1.union_prefer_right(m2.insert(k, v)) == m1.union_prefer_right(m2).insert(k, v),
{
    assert(m1.union_prefer_right(m2.insert(k, v)) =~= m1.union_prefer_right(m2).insert(k, v));
}

/// Copies every column of a source row into a result row, overriding
/// columns of the same name.
fn copy_all(out: &mut Row, row: &Row)
    requires
        old(out).wf(),
        row.wf(),
    ensures
        final(out).wf(),
        final(out)@ == old(out)@.union_prefer_right(row@),
{
    let n = row.entries.len();
    proof {
        assert(row.entries@.take(0) =~= Seq::<(String, String)>::empty());
        assert(old(out)@.union_prefer_right(Map::empty()) =~= old(out)@);
    }
    let mut j: usize = 0;
    while j < n
        invariant
            j <= n,
            n == row.entries@.len(),
            row.wf(),
            out.wf(),
            out@ == old(out)@.union_prefer_right(map_of_entries(row.entries@.take(j as int))),
        decreases n - j,
    {
        let k = row.entries[j].0.clone();
        let v = row.entries[j].1.clone();
        proof {
            assert(row.entries@.take(j + 1).drop_last() =~= row.entries@.take(j as int));
            assert(row.entries@.take(j + 1).last() == row.entries@[j as int]);
            lemma_union_insert_right(
                old(out)@,
                map_of_entries(row.entries@.take(j as int)),
                k@,
                v@,
            );
        }
        out.insert(k, v);
        j = j + 1;
    }
    proof {
        assert(row.entries@.take(n as int) =~= row.entries@);
    }
}

/// Builds the result row that a projection list selects from a source row.
pub fn project_row(items: &Vec<ProjItem>, row: &Row) -> (r: Row)
    requires
        row.wf(),
    ensures
        r.wf(),
        r@ == spec_project(items@, row@),
{
    let mut out = Row::new();
    let n = items.len();
    proof {
        assert(items@.take(0) =~= Seq::<ProjItem>::empty());
    }
    let mut i: usize = 0;
    while i < n
        invariant
            i <= n,
            n == items@.len(),
            row.wf(),
            out.wf(),
            out@ == spec_project(items@.take(i as int), row@),
        decreases n - i,
    {
        proof {
            assert(items@.take(i + 1).drop_last() =~= items@.take(i as int));
            assert(items@.take(i + 1).last() == items@[i as int]);
        }
        match &items[i] {
            ProjItem::Wildcard => {
                copy_all(&mut out, row);
            },
            ProjItem::Column(name) => {
                match row.get(name.as_str()) {
                    Some(value) => {
                        let v = value.clone();
                        out.insert(name.clone(), v);
                    },
                    None => {},
                }
            },
            ProjItem::Unsupported => {},
        }
        i = i + 1;
    }
    proof {
        assert(items@.take(n as int) =~= items@);
    }
    out
}

/// Evaluates a parsed statement against a table: validates its shape,
/// filters the rows with the `WHERE` predicate, and projects the survivors.
pub fn evaluate_statement(table: &Table, stmt: &ParsedStatement) -> (r: (Vec<Row>, bool))
    requires
        table.wf(),
    ensures
        rows_view(r.0@) == spec_query(table.name@, rows_view(table.rows@), *stmt).0,
        r.1 == spec_query(table.name@, rows_view(table.rows@), *stmt).1,
        forall|i: int| 0 <= i < r.0@.len() ==> (#[trigger] r.0@[i]).wf(),
{
    match stmt {
        ParsedStatement::Select { from, projection, selection } => {
            if from.len() != 1 {
                proof {
                    assert(rows_view(Seq::<Row>::empty()) =~= Seq::<
                        Map<Seq<char>, Seq<char>>,
                    >::empty());
                }
                return (Vec::new(), false);
            }
            let query_name = to_lowercase(from[0].as_str());
            let table_name = to_lowercase(table.name.as_str());
            if !(query_name == table_name) {
                proof {
                    assert(rows_view(Seq::<Row>::empty()) =~= Seq::<
                        Map<Seq<char>, Seq<char>>,
                    >::empty());
                }
                return (Vec::new(), false);
            }
            let ghost all = rows_view(table.rows@);
            let n = table.rows.len();
            let mut out: Vec<Row> = Vec::new();
            proof {
                assert(all.take(0) =~= Seq::<Map<Seq<char>, Seq<char>>>::empty());
                assert(rows_view(out@) =~= spec_results(all.take(0), projection@, *selection));
            }
            let mut i: usize = 0;
            while i < n
                invariant
                    i <= n,
                    n == table.rows@.len(),
                    table.wf(),
                    all == rows_view(table.rows@),
                    rows_view(out@) == spec_results(all.take(i as int), projection@, *selection),
                    forall|j: int| 0 <= j < out@.len() ==> (#[trigger] out@[j]).wf(),
                decreases n - i,
            {
                let row = &table.rows[i];
                let keep = match selection {
                    Some(e) => eval_condition(e, row),
                    None => true,
                };
                proof {
                    assert(all[i as int] == table.rows@[i as int]@);
                    assert(keep == spec_keep(all[i as int], *selection));
                    assert(all.take(i + 1).drop_last() =~= all.take(i as int));
                    assert(all.take(i + 1).last() == all[i as int]);
                    assert(all.take(i + 1) =~= all.take(i as int).push(all[i as int]));
                    Seq::lemma_filter_push(all.take(i as int), all[i as int], keep_pred(*selection));
                    assert(keep_pred(*selection)(all[i as int]) == keep);
                }
                if keep {
                    let projected = project_row(projection, row);
                    proof {
                        assert(rows_view(out@.push(projected)) =~= rows_view(out@).push(
                            projected@,
                        ));
                        assert(rows_view(out@).push(projected@) =~= spec_results(
                            all.take(i + 1),
                            projection@,
                            *selection,
                        ));
                    }
                    out.push(projected);
                } else {
                    proof {
                        assert(rows_view(out@) =~= spec_results(
                            all.take(i + 1),
                            projection@,
                            *selection,
                        ));
                    }
                }
                i = i + 1;
            }
            proof {
                assert(all.take(n as int) =~= all);
            }
            (out, true)
        },
        ParsedStatement::Unsupported => {
            proof {
                assert(rows_view(Seq::<Row>::empty()) =~= Seq::<Map<Seq<char>, Seq<char>>>::empty());
            }
            (Vec::new(), false)
        },
    }
}

/// Evaluates a SQL query given as text: the text is handed to the parsing
/// collaborator, and the parsed statement to [`evaluate_statement`]. The
/// result is the meaning, under [`spec_query`], of the statement the text
/// denotes; in particular an invalid verdict always comes with an empty
/// result, and text that does not parse is reported invalid.
pub fn evaluate_query(table: &Table, sql: &str) -> (r: (Vec<Row>, bool))
    requires
        table.wf(),
    ensures
        rows_view(r.0@) == spec_query(table.name@, rows_view(table.rows@), parse_of(sql@)).0,
        r.1 == spec_query(table.name@, rows_view(table.rows@), parse_of(sql@)).1,
        forall|i: int| 0 <= i < r.0@.len() ==> (#[trigger] r.0@[i]).wf(),
{
    let stmt = parse_statement(sql);
    evaluate_statement(table, &stmt)
}

} // verus!
