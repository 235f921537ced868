use miniquery::pipeline::evaluate_query;
use miniquery::row::{Row, Table};

fn row(cols: &[(&str, &str)]) -> Row {
    let mut r = Row::new();
    for (k, v) in cols {
        r.insert(k.to_string(), v.to_string());
    }
    r
}

fn sample_table() -> Table {
    Table {
        name: "student".to_string(),
        rows: vec![
            row(&[("id", "1"), ("name", "Alice"), ("major", "CS")]),
            row(&[("id", "2"), ("name", "Bob"), ("major", "Math")]),
            row(&[("id", "3"), ("name", "Charlie"), ("major", "CS")]),
        ],
    }
}

#[test]
fn test_case_1_select_star() {
    let (res, valid) = evaluate_query(&sample_table(), "SELECT * FROM student;");
    assert!(valid);
    assert_eq!(res.len(), 3);
}

#[test]
fn test_case_2_select_major() {
    let (res, valid) = evaluate_query(&sample_table(), "SELECT major FROM student;");
    assert!(valid);
    assert_eq!(res.len(), 3);
    assert!(res.iter().all(|r| r.contains_key("major")));
}

#[test]
fn test_case_3_where_major_cs() {
    let (res, valid) = evaluate_query(&sample_table(), "SELECT * FROM student WHERE major = 'CS';");
    assert!(valid);
    assert_eq!(res.len(), 2);
}

#[test]
fn test_case_4_where_major_math() {
    let (res, valid) =
        evaluate_query(&sample_table(), "SELECT * FROM student WHERE major = 'Math';");
    assert!(valid);
    assert_eq!(res.len(), 1);
    assert_eq!(res[0].get("name").unwrap().as_str(), "Bob");
}

#[test]
fn test_case_5_where_name_alice() {
    let (res, valid) =
        evaluate_query(&sample_table(), "SELECT id, major FROM student WHERE name = 'Alice';");
    assert!(valid);
    assert_eq!(res.len(), 1);
    assert_eq!(res[0].get("id").unwrap().as_str(), "1");
    assert_eq!(res[0].get("major").unwrap().as_str(), "CS");
}

#[test]
fn test_case_6_invalid_string_literal() {
    let (res, valid) = evaluate_query(&sample_table(), "SELECT name WHERE major = Math;");
    assert!(!valid);
    assert_eq!(res.len(), 0);
}

#[test]
fn test_case_7_nonexistent_column() {
    let (res, valid) = evaluate_query(&sample_table(), "SELECT age FROM student;");
    assert!(valid);
    assert_eq!(res.len(), 3);
    assert!(res.iter().all(|r| r.is_empty()));
}

#[test]
fn test_case_8_missing_select_clause() {
    let (res, valid) = evaluate_query(&sample_table(), "WHERE major = 'CS';");
    assert!(!valid);
    assert_eq!(res.len(), 0);
}

#[test]
fn test_case_9_and_condition_match() {
    let (res, valid) = evaluate_query(
        &sample_table(),
        "SELECT * FROM student WHERE major = 'CS' AND id = '1';",
    );
    assert!(valid);
    assert_eq!(res.len(), 1);
    assert_eq!(res[0].get("name").unwrap().as_str(), "Alice");
}

#[test]
fn test_case_10_and_condition_multiple_fields() {
    let (res, valid) = evaluate_query(
        &sample_table(),
        "SELECT id, major FROM student WHERE name = 'Charlie' AND major = 'CS';",
    );
    assert!(valid);
    assert_eq!(res.len(), 1);
    assert_eq!(res[0].get("id").unwrap().as_str(), "3");
    assert_eq!(res[0].get("major").unwrap().as_str(), "CS");
}
