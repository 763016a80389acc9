use query_table::row::ResultRow;
use query_table::text::{replace_newlines, split_lines, string_less};
use query_table::value::{format_db_value, integer_text, join_strings, DbValue, FloatValue};

fn float(v: f64) -> DbValue {
    DbValue::Float(FloatValue { bits: v.to_bits(), display: v.to_string() })
}

#[test]
fn formats_null_as_null() {
    assert_eq!(format_db_value(&DbValue::Null), "null");
}

#[test]
fn formats_text_and_numeric_verbatim() {
    assert_eq!(format_db_value(&DbValue::Text("héllo wörld".to_string())), "héllo wörld");
    assert_eq!(format_db_value(&DbValue::Numeric("12.500".to_string())), "12.500");
    assert_eq!(format_db_value(&DbValue::Text(String::new())), "");
}

#[test]
fn formats_text_array_in_braces() {
    let v = DbValue::TextArray(vec!["a".to_string(), "b c".to_string(), "".to_string()]);
    assert_eq!(format_db_value(&v), "{a,b c,}");
    assert_eq!(format_db_value(&DbValue::TextArray(vec![])), "{}");
    assert_eq!(format_db_value(&DbValue::TextArray(vec!["x".to_string()])), "{x}");
}

#[test]
fn formats_integers_like_to_string() {
    for n in [0i64, 7, 10, -1, -42, 1234567890, i64::MAX, i64::MIN, -100, 99] {
        assert_eq!(format_db_value(&DbValue::Integer(n)), n.to_string());
        assert_eq!(integer_text(n), n.to_string());
    }
}

#[test]
fn formats_booleans() {
    assert_eq!(format_db_value(&DbValue::Boolean(true)), "true");
    assert_eq!(format_db_value(&DbValue::Boolean(false)), "false");
}

#[test]
fn formats_finite_floats_with_their_display() {
    assert_eq!(format_db_value(&float(1.5)), "1.5");
    assert_eq!(format_db_value(&float(-0.25)), "-0.25");
    assert_eq!(format_db_value(&float(3.0)), "3");
}

#[test]
fn formats_non_finite_floats_as_null() {
    assert_eq!(format_db_value(&float(f64::NAN)), "null");
    assert_eq!(format_db_value(&float(f64::INFINITY)), "null");
    assert_eq!(format_db_value(&float(f64::NEG_INFINITY)), "null");
}

#[test]
fn joins_strings_with_separator() {
    let parts = vec!["a".to_string(), "b".to_string(), "c".to_string()];
    assert_eq!(join_strings(&parts, ", "), "a, b, c");
    assert_eq!(join_strings(&vec![], ","), "");
}

#[test]
fn splits_lines_like_std() {
    let samples = [
        "", "a", "a\n", "a\nb", "a\r\nb\r\n", "\n\n", "foo\nbar\n\r\nbaz\r", "x\r", "\r\n", "é\nü",
        "select *\nfrom t\nwhere x = 1",
    ];
    for s in samples {
        let expected: Vec<String> = s.lines().map(|l| l.to_string()).collect();
        assert_eq!(split_lines(s), expected, "lines of {:?}", s);
    }
}

#[test]
fn replaces_newlines_with_spaces() {
    assert_eq!(replace_newlines("a\nb\r\nc"), "a b  c");
    assert_eq!(replace_newlines("plain"), "plain");
    let s = "x\ry\nz";
    assert_eq!(replace_newlines(s), s.replace(['\n', '\r'], " "));
}

#[test]
fn orders_strings_like_std() {
    let samples = ["", "a", "b", "ab", "abc", "B", "é", "z", "zz", "Ä", "日本", "a\u{0}"];
    for a in samples {
        for b in samples {
            assert_eq!(string_less(a, b), a < b, "{:?} < {:?}", a, b);
        }
    }
}

#[test]
fn row_insert_replaces_and_get_finds() {
    let mut row = ResultRow::new();
    assert!(row.get(&"id".to_string()).is_none());
    row.insert("id".to_string(), DbValue::Integer(1));
    row.insert("name".to_string(), DbValue::Text("x".to_string()));
    row.insert("id".to_string(), DbValue::Integer(2));
    assert_eq!(row.entry_count(), 2);
    match row.get(&"id".to_string()) {
        Some(DbValue::Integer(n)) => assert_eq!(*n, 2),
        _ => panic!("id missing"),
    }
    assert_eq!(format_db_value(row.get(&"name".to_string()).unwrap()), "x");
    assert!(row.get(&"other".to_string()).is_none());
}
