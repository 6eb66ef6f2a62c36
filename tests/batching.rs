use mysql_backup::batch::{build_insert_header, row_values, TableDump};
use mysql_backup::dump::{table_data_opening, table_structure};
use mysql_backup::error::BackupError;
use mysql_backup::value::{ColumnValue, Row};

fn columns() -> Vec<String> {
    vec!["id".to_string(), "name".to_string()]
}

fn row(i: i64) -> Row {
    Row {
        columns: columns(),
        values: vec![Some(ColumnValue::SignedInt(i)), Some(ColumnValue::Text(format!("n{}", i)))],
    }
}

/// Feeds `n` rows and returns the statements in the order they came out,
/// the text of `finish` last, and the number of progress reports.
fn feed(n: i64, row_count: u64) -> (Vec<String>, String, usize) {
    let mut dump = TableDump::new("t", columns(), row_count, 33);
    let mut out = Vec::new();
    let mut reports = 0;
    for i in 0..n {
        let step = dump.add_row(&row(i)).unwrap();
        if let Some(s) = step.statement {
            out.push(s);
        }
        if let Some(p) = step.progress {
            assert_eq!(p.percent, 33);
            assert_eq!(p.status, "正在备份表数据...");
            assert_eq!(p.current_table.as_deref(), Some("t"));
            reports += 1;
        }
    }
    (out, dump.finish(), reports)
}

fn line_ends(statement: &str) -> (usize, usize) {
    let lines: Vec<&str> = statement.lines().skip(1).collect();
    let commas = lines.iter().filter(|l| l.ends_with(',')).count();
    let semis = lines.iter().filter(|l| l.ends_with(';')).count();
    assert_eq!(commas + semis, lines.len());
    (commas, semis)
}

#[test]
fn header_quotes_names() {
    assert_eq!(
        build_insert_header("users", &columns()),
        "INSERT INTO `users` (`id`, `name`) VALUES\n"
    );
    assert_eq!(build_insert_header("t", &vec![]), "INSERT INTO `t` () VALUES\n");
}

#[test]
fn row_tuple_text() {
    assert_eq!(row_values(&row(5), &columns()).unwrap(), "(5, 'n5')");
    let reversed = vec!["name".to_string(), "id".to_string()];
    assert_eq!(row_values(&row(5), &reversed).unwrap(), "('n5', 5)");
}

#[test]
fn row_with_missing_column_fails() {
    let cols = vec!["id".to_string(), "age".to_string(), "zip".to_string()];
    match row_values(&row(1), &cols) {
        Err(BackupError::ValueUnavailable(n)) => assert_eq!(n, "age"),
        other => panic!("unexpected {:?}", other),
    }
}

#[test]
fn failed_row_changes_nothing() {
    let mut dump = TableDump::new("t", vec!["id".to_string(), "age".to_string()], 0, 20);
    assert!(dump.add_row(&row(1)).is_err());
    assert_eq!(dump.finish(), "UNLOCK TABLES;\n");
}

#[test]
fn small_table_statement() {
    let (out, rest, reports) = feed(2, 2);
    assert!(out.is_empty());
    assert_eq!(reports, 0);
    assert_eq!(
        rest,
        "INSERT INTO `t` (`id`, `name`) VALUES\n(0, 'n0'),\n(1, 'n1');\nUNLOCK TABLES;\n"
    );
}

#[test]
fn empty_table_only_unlocks() {
    let (out, rest, _) = feed(0, 0);
    assert!(out.is_empty());
    assert_eq!(rest, "UNLOCK TABLES;\n");
}

#[test]
fn thousand_rows_make_one_statement() {
    let (out, rest, reports) = feed(1000, 1000);
    assert_eq!(out.len(), 1);
    assert_eq!(reports, 1);
    assert_eq!(line_ends(&out[0]), (999, 1));
    assert_eq!(rest, "UNLOCK TABLES;\n");
}

#[test]
fn thousand_and_one_rows_make_two_statements() {
    let (out, rest, _) = feed(1001, 1001);
    assert_eq!(out.len(), 1);
    assert_eq!(line_ends(&out[0]), (999, 1));
    assert_eq!(
        rest,
        "INSERT INTO `t` (`id`, `name`) VALUES\n(1000, 'n1000');\nUNLOCK TABLES;\n"
    );
}

#[test]
fn no_progress_without_known_rows() {
    let (out, _, reports) = feed(2000, 0);
    assert_eq!(out.len(), 2);
    assert_eq!(reports, 0);
}

#[test]
fn table_of_2500_rows_end_to_end() {
    let mut doc = String::new();
    doc.push_str(&table_structure("t", "CREATE TABLE `t` (`id` int, `name` text)"));
    doc.push_str(&table_data_opening("t"));
    let (out, rest, reports) = feed(2500, 2500);
    for s in &out {
        doc.push_str(s);
    }
    doc.push_str(&rest);
    assert_eq!(reports, 2);
    assert_eq!(doc.matches("DROP TABLE IF EXISTS `t`;").count(), 1);
    assert_eq!(doc.matches("CREATE TABLE").count(), 1);
    assert_eq!(doc.matches("INSERT INTO").count(), 3);
    let sizes: Vec<usize> = doc
        .split("INSERT INTO")
        .skip(1)
        .map(|part| part.lines().skip(1).filter(|l| l.starts_with('(')).count())
        .collect();
    assert_eq!(sizes, vec![1000, 1000, 500]);
    assert!(doc.contains("LOCK TABLES `t` WRITE;\n"));
    assert!(doc.ends_with("(2499, 'n2499');\nUNLOCK TABLES;\n"));
}
