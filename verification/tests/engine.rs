use miniquery::ast::{BinOp, Expression, ParsedStatement, ProjItem};
use miniquery::eval::eval_condition;
use miniquery::pipeline::{evaluate_query, evaluate_statement};
use miniquery::row::{Row, Table};

fn row(cols: &[(&str, &str)]) -> Row {
    let mut r = Row::new();
    for (k, v) in cols {
        r.insert(k.to_string(), v.to_string());
    }
    r
}

fn students() -> Table {
    Table {
        name: "student".to_string(),
        rows: vec![
            row(&[("id", "1"), ("name", "Alice"), ("major", "CS")]),
            row(&[("id", "2"), ("name", "Bob"), ("major", "Math")]),
            row(&[("id", "3"), ("name", "Charlie"), ("major", "CS")]),
        ],
    }
}

fn compare(col: &str, op: BinOp, lit: &str) -> Expression {
    Expression::Binary {
        op,
        left: Box::new(Expression::Ident(col.to_string())),
        right: Box::new(Expression::Literal(lit.to_string())),
    }
}

#[test]
fn table_name_matches_case_insensitively() {
    let (res, valid) = evaluate_query(&students(), "SELECT * FROM STUDENT;");
    assert!(valid);
    assert_eq!(res.len(), 3);
}

#[test]
fn wrong_table_is_invalid() {
    let (res, valid) = evaluate_query(&students(), "SELECT * FROM teacher;");
    assert!(!valid);
    assert_eq!(res.len(), 0);
}

#[test]
fn where_not_equal_keeps_complement() {
    let (res, valid) = evaluate_query(&students(), "SELECT * FROM student WHERE major != 'CS';");
    assert!(valid);
    assert_eq!(res.len(), 1);
    assert_eq!(res[0].get("name").unwrap().as_str(), "Bob");
}

#[test]
fn not_equal_counts_missing_column_as_different() {
    let (res, valid) = evaluate_query(&students(), "SELECT * FROM student WHERE age != '20';");
    assert!(valid);
    assert_eq!(res.len(), 3);
}

#[test]
fn where_or_keeps_either() {
    let (res, valid) =
        evaluate_query(&students(), "SELECT * FROM student WHERE major = 'Math' OR id = '1';");
    assert!(valid);
    assert_eq!(res.len(), 2);
    assert_eq!(res[0].get("name").unwrap().as_str(), "Alice");
    assert_eq!(res[1].get("name").unwrap().as_str(), "Bob");
}

#[test]
fn nested_and_binds_tighter_than_or() {
    let (res, valid) = evaluate_query(
        &students(),
        "SELECT * FROM student WHERE major = 'CS' OR major = 'Math' AND id = '2';",
    );
    assert!(valid);
    assert_eq!(res.len(), 3);
}

#[test]
fn parenthesized_predicate_fails_closed() {
    let (res, valid) = evaluate_query(
        &students(),
        "SELECT * FROM student WHERE major = 'CS' AND (id = '1' OR id = '3');",
    );
    assert!(valid);
    assert_eq!(res.len(), 0);
}

#[test]
fn unquoted_number_literal_compares_by_text() {
    let (res, valid) = evaluate_query(&students(), "SELECT * FROM student WHERE id = 1;");
    assert!(valid);
    assert_eq!(res.len(), 1);
    assert_eq!(res[0].get("name").unwrap().as_str(), "Alice");
}

#[test]
fn literal_left_of_identifier_is_unsupported() {
    let (res, valid) = evaluate_query(&students(), "SELECT * FROM student WHERE 'CS' = major;");
    assert!(valid);
    assert_eq!(res.len(), 0);
}

#[test]
fn bare_identifier_predicate_keeps_nothing() {
    let (res, valid) = evaluate_query(&students(), "SELECT * FROM student WHERE major;");
    assert!(valid);
    assert_eq!(res.len(), 0);
}

#[test]
fn duplicate_projected_columns_collapse() {
    let (res, valid) = evaluate_query(&students(), "SELECT id, id FROM student;");
    assert!(valid);
    assert_eq!(res.len(), 3);
    assert!(res.iter().all(|r| r.len() == 1 && r.contains_key("id")));
}

#[test]
fn unsupported_projection_item_adds_nothing() {
    let (res, valid) = evaluate_query(&students(), "SELECT id, UPPER(name) FROM student;");
    assert!(valid);
    assert_eq!(res.len(), 3);
    assert!(res.iter().all(|r| r.len() == 1 && r.contains_key("id")));
}

#[test]
fn empty_table_gives_empty_valid_result() {
    let table = Table { name: "student".to_string(), rows: vec![] };
    let (res, valid) = evaluate_query(&table, "SELECT * FROM student;");
    assert!(valid);
    assert_eq!(res.len(), 0);
}

#[test]
fn more_than_one_relation_is_invalid() {
    let (res, valid) = evaluate_query(&students(), "SELECT * FROM student, teacher;");
    assert!(!valid);
    assert_eq!(res.len(), 0);
}

#[test]
fn empty_from_clause_is_invalid() {
    let stmt = ParsedStatement::Select {
        from: vec![],
        projection: vec![ProjItem::Wildcard],
        selection: None,
    };
    let (res, valid) = evaluate_statement(&students(), &stmt);
    assert!(!valid);
    assert_eq!(res.len(), 0);
}

#[test]
fn unsupported_statement_is_invalid() {
    let (res, valid) = evaluate_statement(&students(), &ParsedStatement::Unsupported);
    assert!(!valid);
    assert_eq!(res.len(), 0);
}

#[test]
fn conjunction_of_identifier_and_literal_fails_closed() {
    let r = row(&[("major", "CS")]);
    let e = Expression::Binary {
        op: BinOp::And,
        left: Box::new(Expression::Ident("major".to_string())),
        right: Box::new(Expression::Literal("'CS'".to_string())),
    };
    assert!(!eval_condition(&e, &r));
}

#[test]
fn unsupported_operator_evaluates_false() {
    let r = row(&[("id", "1")]);
    assert!(!eval_condition(&compare("id", BinOp::Unsupported, "'1'"), &r));
}

#[test]
fn quote_marks_are_stripped_before_comparing() {
    let r = row(&[("major", "CS")]);
    assert!(eval_condition(&compare("major", BinOp::Eq, "'CS'"), &r));
    assert!(eval_condition(&compare("major", BinOp::Eq, "''CS''"), &r));
    assert!(eval_condition(&compare("major", BinOp::Eq, "CS"), &r));
    assert!(!eval_condition(&compare("major", BinOp::Eq, "'Math'"), &r));
}

#[test]
fn row_insert_replaces_existing_column() {
    let mut r = Row::new();
    r.insert("id".to_string(), "1".to_string());
    r.insert("id".to_string(), "2".to_string());
    assert_eq!(r.len(), 1);
    assert_eq!(r.get("id").unwrap().as_str(), "2");
    assert!(r.get("name").is_none());
}

#[test]
fn wildcard_with_named_column_keeps_all() {
    let (res, valid) = evaluate_query(&students(), "SELECT *, id FROM student;");
    assert!(valid);
    assert_eq!(res.len(), 3);
    assert!(res.iter().all(|r| r.len() == 3));
}
