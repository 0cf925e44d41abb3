use es_client::codec::{csv_document, csv_value, eq_ignore_ascii_case, parse_i64_text, parse_json_lines, parse_json_text, trim_text};
use es_client::json::Json;

fn s(t: &str) -> String {
    t.to_string()
}

#[test]
fn json_lines_skip_blanks_and_name_bad_line() {
    let lines = vec![s(r#"{"a":1}"#), s("   "), s(r#"  {"b":"x"}  "#)];
    let docs = parse_json_lines(&lines).unwrap();
    assert_eq!(
        docs,
        vec![
            Json::Object(vec![(s("a"), Json::Number(s("1")))]),
            Json::Object(vec![(s("b"), Json::Str(s("x")))]),
        ]
    );
    let bad = vec![s(r#"{"a":1}"#), s(""), s("{oops")];
    assert_eq!(parse_json_lines(&bad), Err(3));
}

#[test]
fn csv_cells_are_typed() {
    assert_eq!(csv_value("", None), Json::Null);
    assert_eq!(csv_value("007", None), Json::Number(s("7")));
    assert_eq!(csv_value("-12", None), Json::Number(s("-12")));
    assert_eq!(csv_value("+5", None), Json::Number(s("5")));
    assert_eq!(csv_value("1.5", Some(s("1.5"))), Json::Number(s("1.5")));
    assert_eq!(csv_value("TRUE", None), Json::Bool(true));
    assert_eq!(csv_value("False", None), Json::Bool(false));
    assert_eq!(csv_value("New York", None), Json::Str(s("New York")));
    assert_eq!(csv_value("-9223372036854775808", None), Json::Number(s("-9223372036854775808")));
    assert_eq!(csv_value("9223372036854775808", None), Json::Str(s("9223372036854775808")));
}

#[test]
fn integer_reading_matches_std() {
    for t in ["0", "-0", "+0", "12", "-", "+", "", "1a", "9223372036854775807", "9223372036854775808", "-9223372036854775809", " 1"] {
        assert_eq!(parse_i64_text(t), t.parse::<i64>().ok(), "{}", t);
    }
}

#[test]
fn csv_record_takes_header_names() {
    let headers = vec![s("id"), s("name"), s("age")];
    let fields = vec![s("1"), s("Alice"), s("30"), s("extra")];
    let floats = vec![Some(s("1.0")), None, Some(s("30.0")), None];
    let doc = csv_document(&headers, &fields, &floats);
    assert_eq!(
        doc,
        Json::Object(vec![
            (s("id"), Json::Number(s("1"))),
            (s("name"), Json::Str(s("Alice"))),
            (s("age"), Json::Number(s("30"))),
        ])
    );
}

#[test]
fn trimming_and_case() {
    assert_eq!(trim_text("\t x y \n"), "x y");
    assert_eq!(trim_text("   "), "");
    assert!(eq_ignore_ascii_case("TrUe", "true"));
    assert!(!eq_ignore_ascii_case("tru", "true"));
}

#[test]
fn json_file_may_hold_one_array() {
    let one_line = r#"[{"a":1},{"a":2}]"#;
    let docs = parse_json_text(one_line).unwrap();
    assert_eq!(
        docs,
        vec![Json::Object(vec![(s("a"), Json::Number(s("1")))]), Json::Object(vec![(s("a"), Json::Number(s("2")))])]
    );
    let pretty = "[\n  {\"b\": true},\n  {\"b\": false}\n]\n";
    assert_eq!(parse_json_text(pretty).unwrap().len(), 2);
    let lines = "{\"a\":1}\r\n\n{\"a\":2}\n";
    assert_eq!(parse_json_text(lines).unwrap().len(), 2);
    assert_eq!(parse_json_text("{\"a\":1}\n\nnope\n"), Err(3));
    assert_eq!(parse_json_text(""), Ok(vec![]));
}
