use mysql_backup::error::BackupError;
use mysql_backup::value::{get_escaped_value, sql_literal, ColumnValue, Row};

fn text(s: &str) -> ColumnValue {
    ColumnValue::Text(s.to_string())
}

/// Reads a quoted literal back: strips the quotes and halves doubled quotes
/// and backslashes.
fn read_back(lit: &str) -> String {
    let inner: Vec<char> = lit[1..lit.len() - 1].chars().collect();
    let mut out = String::new();
    let mut i = 0;
    while i < inner.len() {
        let c = inner[i];
        if (c == '\'' || c == '\\') && i + 1 < inner.len() && inner[i + 1] == c {
            i += 2;
        } else {
            i += 1;
        }
        out.push(c);
    }
    out
}

#[test]
fn null_is_null() {
    assert_eq!(sql_literal(&ColumnValue::Null), "NULL");
}

#[test]
fn text_quotes_are_doubled() {
    assert_eq!(sql_literal(&text("it's")), "'it''s'");
}

#[test]
fn text_backslashes_are_doubled() {
    assert_eq!(sql_literal(&text("a\\b")), "'a\\\\b'");
}

#[test]
fn text_plain_and_empty() {
    assert_eq!(sql_literal(&text("hello world")), "'hello world'");
    assert_eq!(sql_literal(&text("")), "''");
    assert_eq!(sql_literal(&text("数据")), "'数据'");
}

#[test]
fn utf8_bytes_are_quoted_text() {
    let v = ColumnValue::Binary("O'Brien".as_bytes().to_vec());
    assert_eq!(sql_literal(&v), "'O''Brien'");
}

#[test]
fn invalid_utf8_is_hex() {
    let v = ColumnValue::Binary(vec![0xff, 0x00, 0xab, 0x10]);
    assert_eq!(sql_literal(&v), "0xff00ab10");
}

#[test]
fn invalid_utf8_never_quoted() {
    let v = ColumnValue::Binary(vec![0xc3, 0x28, 0x27]);
    let lit = sql_literal(&v);
    assert!(lit.starts_with("0x"));
    assert!(!lit.contains('\''));
    assert_eq!(lit, "0xc32827");
}

#[test]
fn integers_are_decimal() {
    assert_eq!(sql_literal(&ColumnValue::SignedInt(-42)), "-42");
    assert_eq!(sql_literal(&ColumnValue::SignedInt(0)), "0");
    assert_eq!(sql_literal(&ColumnValue::SignedInt(i64::MIN)), "-9223372036854775808");
    assert_eq!(sql_literal(&ColumnValue::SignedInt(i64::MAX)), "9223372036854775807");
    assert_eq!(sql_literal(&ColumnValue::UnsignedInt(u64::MAX)), "18446744073709551615");
    assert_eq!(sql_literal(&ColumnValue::UnsignedInt(1000)), "1000");
}

#[test]
fn float_text_is_kept() {
    let f: f64 = 1.5;
    assert_eq!(sql_literal(&ColumnValue::Float(f.to_string())), "1.5");
    let g: f64 = -0.25;
    assert_eq!(sql_literal(&ColumnValue::Float(g.to_string())), "-0.25");
}

#[test]
fn date_is_padded() {
    assert_eq!(sql_literal(&ColumnValue::Date(2024, 1, 5)), "'2024-01-05'");
    assert_eq!(sql_literal(&ColumnValue::Date(99, 12, 31)), "'0099-12-31'");
}

#[test]
fn datetime_without_time_is_a_date() {
    assert_eq!(sql_literal(&ColumnValue::DateTime(2023, 7, 9, 0, 0, 0, 0)), "'2023-07-09'");
}

#[test]
fn datetime_with_time() {
    assert_eq!(
        sql_literal(&ColumnValue::DateTime(2023, 7, 9, 8, 5, 3, 0)),
        "'2023-07-09 08:05:03'"
    );
    assert_eq!(
        sql_literal(&ColumnValue::DateTime(2023, 7, 9, 0, 0, 0, 5)),
        "'2023-07-09 00:00:00.000005'"
    );
    assert_eq!(
        sql_literal(&ColumnValue::DateTime(2023, 7, 9, 23, 59, 59, 123456)),
        "'2023-07-09 23:59:59.123456'"
    );
}

#[test]
fn time_hours_include_days() {
    assert_eq!(sql_literal(&ColumnValue::Time(false, 0, 1, 2, 3, 0)), "'01:02:03'");
    assert_eq!(sql_literal(&ColumnValue::Time(true, 1, 2, 3, 4, 0)), "'-26:03:04'");
    assert_eq!(sql_literal(&ColumnValue::Time(false, 5, 0, 0, 0, 42)), "'120:00:00.000042'");
    assert_eq!(
        sql_literal(&ColumnValue::Time(false, u32::MAX, 23, 0, 0, 0)),
        "'103079215103:00:00'"
    );
}

#[test]
fn quoted_literal_reads_back_to_itself() {
    for s in ["it's", "a\\'b", "''", "\\\\", "plain", "x'y'z\\"] {
        let lit = sql_literal(&text(s));
        let back = read_back(&lit);
        assert_eq!(back, s);
        assert_eq!(sql_literal(&ColumnValue::Text(back)), lit);
    }
}

#[test]
fn quoted_literal_has_no_lone_quote() {
    let lit = sql_literal(&text("'; DROP TABLE users; --"));
    assert_eq!(lit, "'''; DROP TABLE users; --'");
    let inner: Vec<char> = lit[1..lit.len() - 1].chars().collect();
    let mut i = 0;
    while i < inner.len() {
        if inner[i] == '\'' {
            assert_eq!(inner[i + 1], '\'');
            i += 2;
        } else {
            i += 1;
        }
    }
}

#[test]
fn date_literal_reads_back_to_itself() {
    let lit = sql_literal(&ColumnValue::DateTime(2020, 2, 29, 12, 0, 1, 7));
    let back = read_back(&lit);
    assert_eq!(sql_literal(&ColumnValue::Text(back)), lit);
}

fn sample_row() -> Row {
    Row {
        columns: vec!["id".to_string(), "name".to_string(), "note".to_string(), "id".to_string()],
        values: vec![
            Some(ColumnValue::SignedInt(7)),
            Some(text("Ann")),
            Some(ColumnValue::Null),
            Some(ColumnValue::SignedInt(8)),
        ],
    }
}

#[test]
fn cell_by_name() {
    let row = sample_row();
    assert_eq!(get_escaped_value(&row, "name").unwrap(), "'Ann'");
    assert_eq!(get_escaped_value(&row, "id").unwrap(), "7");
}

#[test]
fn null_cell_is_not_an_error() {
    let row = sample_row();
    assert_eq!(get_escaped_value(&row, "note").unwrap(), "NULL");
}

#[test]
fn missing_column_is_an_error() {
    let row = sample_row();
    match get_escaped_value(&row, "age") {
        Err(BackupError::ValueUnavailable(n)) => assert_eq!(n, "age"),
        other => panic!("unexpected {:?}", other),
    }
}

#[test]
fn taken_value_is_an_error() {
    let row = Row { columns: vec!["a".to_string()], values: vec![None] };
    assert!(matches!(get_escaped_value(&row, "a"), Err(BackupError::ValueUnavailable(_))));
}
