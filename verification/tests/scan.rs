use graphql_fdw::ScanError;
use graphql_fdw::cursor::CursorState;
use graphql_fdw::cursor::ScanCursor;
use graphql_fdw::json::JsonValue;
use graphql_fdw::materialize::materialize_row;
use graphql_fdw::navigate::navigate;
use graphql_fdw::navigate::wrap_rows;
use graphql_fdw::plan::default_row_estimate;
use graphql_fdw::plan::validate_scan_target;
use graphql_fdw::query::build_gql_query;
use graphql_fdw::query::split_path;
use graphql_fdw::remote::parse_response;

fn strings(items: &[&str]) -> Vec<String> {
    items.iter().map(|s| s.to_string()).collect()
}

#[test]
fn test_build_gql() {
    println!("{}", build_gql_query("x.y.z", &strings(&["x", "y", "z"])));
}

#[test]
fn query_text_is_exact() {
    let q = build_gql_query("a.b", &strings(&["x", "y"]));
    assert_eq!(q, "{ a{b{ x y } } }");
}

#[test]
fn query_text_with_no_fields() {
    let q = build_gql_query("a", &strings(&[]));
    assert_eq!(q, "{ a{ } }");
}

#[test]
fn split_keeps_order_and_empty_segments() {
    assert_eq!(split_path("x.y.z"), strings(&["x", "y", "z"]));
    assert_eq!(split_path("abc"), strings(&["abc"]));
    assert_eq!(split_path("a..b"), strings(&["a", "", "b"]));
    assert_eq!(split_path(""), strings(&[""]));
}

#[test]
fn scan_filter_processes() {
    let mut cursor =
        ScanCursor::new("team.core.service.filters.processes", strings(&["name"]));
    assert_eq!(
        cursor.query(),
        "{ team{core{service{filters{processes{ name } } } } } }"
    );
    let body = r#"{"data":{"team":{"core":{"service":{"filters":{"processes":[{"name":"p1"},{"name":"p2"}]}}}}}}"#;
    let doc = parse_response(body).unwrap();
    cursor.open(doc).unwrap();
    assert_eq!(cursor.rows.len(), 2);
    assert_eq!(cursor.next().unwrap(), Some(vec![Some("p1".to_string())]));
    assert_eq!(cursor.next().unwrap(), Some(vec![Some("p2".to_string())]));
    assert_eq!(cursor.next().unwrap(), None);
    assert!(matches!(cursor.state, CursorState::Exhausted));
    assert_eq!(cursor.next().unwrap(), None);
    assert_eq!(cursor.idx, 2);
    assert_eq!(cursor.rows.len(), 2);
}

#[test]
fn scalar_kinds_materialize() {
    let body = r#"{"data":{"t":[{"b":true,"c":false,"n":42,"s":"hi","z":null}]}}"#;
    let mut cursor = ScanCursor::new("t", strings(&["b", "c", "n", "s", "z", "missing"]));
    let doc = parse_response(body).unwrap();
    cursor.open(doc).unwrap();
    assert_eq!(
        cursor.next().unwrap(),
        Some(vec![
            Some("true".to_string()),
            Some("false".to_string()),
            Some("42".to_string()),
            Some("hi".to_string()),
            None,
            None,
        ])
    );
}

#[test]
fn absent_field_is_null() {
    let row = vec![("y".to_string(), JsonValue::Number("1".to_string()))];
    let out = materialize_row(&row, &strings(&["x"]));
    assert_eq!(out, Ok(vec![None]));
}

#[test]
fn nested_field_is_fatal() {
    let row = vec![(
        "x".to_string(),
        JsonValue::Object(vec![("nested".to_string(), JsonValue::Number("1".to_string()))]),
    )];
    let out = materialize_row(&row, &strings(&["x"]));
    assert_eq!(out, Err(ScanError::FieldTypeError));
}

#[test]
fn nested_field_aborts_scan_without_tuple() {
    let body = r#"{"data":{"t":[{"x":{"nested":1}}]}}"#;
    let mut cursor = ScanCursor::new("t", strings(&["x"]));
    let doc = parse_response(body).unwrap();
    cursor.open(doc).unwrap();
    assert_eq!(cursor.next(), Err(ScanError::FieldTypeError));
    assert_eq!(cursor.idx, 0);
    assert!(matches!(cursor.state, CursorState::Open));
}

#[test]
fn round_trip_recovers_rows() {
    let rows = vec![
        vec![("a".to_string(), JsonValue::Text("1".to_string()))],
        vec![("a".to_string(), JsonValue::Null)],
        vec![],
    ];
    let rows_again = vec![
        vec![("a".to_string(), JsonValue::Text("1".to_string()))],
        vec![("a".to_string(), JsonValue::Null)],
        vec![],
    ];
    let path = strings(&["p", "q"]);
    let doc = wrap_rows(rows, &path);
    let out = navigate(doc, &path).unwrap();
    assert_eq!(out, rows_again);
}

#[test]
fn navigation_failures_are_shape_errors() {
    let path_ab = strings(&["a", "b"]);
    let path_a = strings(&["a"]);

    let missing_segment = parse_response(r#"{"data":{"a":{}}}"#).unwrap();
    assert_eq!(
        navigate(missing_segment, &path_ab),
        Err(ScanError::ResponseShapeError)
    );

    let leaf_not_collection = parse_response(r#"{"data":{"a":1}}"#).unwrap();
    assert_eq!(
        navigate(leaf_not_collection, &path_a),
        Err(ScanError::ResponseShapeError)
    );

    let no_data_container = parse_response(r#"{"x":[]}"#).unwrap();
    assert_eq!(
        navigate(no_data_container, &path_a),
        Err(ScanError::ResponseShapeError)
    );

    let row_not_object = parse_response(r#"{"data":{"a":[1]}}"#).unwrap();
    assert_eq!(
        navigate(row_not_object, &path_a),
        Err(ScanError::ResponseShapeError)
    );
}

#[test]
fn malformed_body_is_remote_call_error() {
    assert_eq!(
        parse_response("not json at all"),
        Err(ScanError::RemoteCallError)
    );
    assert_eq!(parse_response(""), Err(ScanError::RemoteCallError));
}

#[test]
fn open_failure_closes_cursor() {
    let mut cursor = ScanCursor::new("a.b", strings(&["x"]));
    let doc = parse_response(r#"{"nodata":1}"#).unwrap();
    assert_eq!(cursor.open(doc), Err(ScanError::ResponseShapeError));
    assert!(matches!(cursor.state, CursorState::Closed));
    assert_eq!(cursor.rows.len(), 0);
}

#[test]
fn reset_is_unsupported() {
    let mut cursor = ScanCursor::new("t", strings(&["x"]));
    assert_eq!(cursor.reset(), Err(ScanError::UnsupportedOperation));
    assert!(matches!(cursor.state, CursorState::Unopened));
}

#[test]
fn close_is_idempotent_from_any_state() {
    let mut unopened = ScanCursor::new("t", strings(&["x"]));
    unopened.close();
    assert!(matches!(unopened.state, CursorState::Closed));
    unopened.close();
    assert!(matches!(unopened.state, CursorState::Closed));

    let mut opened = ScanCursor::new("t", strings(&["x"]));
    let doc = parse_response(r#"{"data":{"t":[{"x":1}]}}"#).unwrap();
    opened.open(doc).unwrap();
    opened.close();
    assert!(matches!(opened.state, CursorState::Closed));
    assert_eq!(opened.rows.len(), 0);
}

#[test]
fn plan_validation() {
    assert!(validate_scan_target(1, true).is_ok());
    assert_eq!(validate_scan_target(2, true), Err(ScanError::PlanError));
    assert_eq!(validate_scan_target(0, true), Err(ScanError::PlanError));
    assert_eq!(validate_scan_target(1, false), Err(ScanError::PlanError));
    assert_eq!(default_row_estimate(), 1);
}

#[test]
fn errors_describe_themselves() {
    assert_eq!(
        ScanError::FieldTypeError.describe(),
        "cannot select non-leaf fields"
    );
    assert_eq!(
        ScanError::UnsupportedOperation.describe(),
        "rescan is not supported"
    );
    assert_eq!(ScanError::PlanError.describe(), "unsupported scan target shape");
    assert_eq!(ScanError::RemoteCallError.describe(), "remote call failed");
    assert_eq!(
        ScanError::ResponseShapeError.describe(),
        "response lacks the requested path"
    );
}

#[test]
fn row_order_is_preserved() {
    let body = r#"{"data":{"t":[{"n":3},{"n":1},{"n":2},{"n":1}]}}"#;
    let mut cursor = ScanCursor::new("t", strings(&["n"]));
    let doc = parse_response(body).unwrap();
    cursor.open(doc).unwrap();
    let mut seen: Vec<String> = Vec::new();
    while let Some(tuple) = cursor.next().unwrap() {
        seen.push(tuple[0].clone().unwrap());
    }
    assert_eq!(seen, strings(&["3", "1", "2", "1"]));
}

#[test]
fn query_brace_counts_match_path_depth() {
    let q = build_gql_query("a.b", &strings(&["x", "y"]));
    assert_eq!(q.chars().filter(|c| *c == '{').count(), 3);
    assert_eq!(q.chars().filter(|c| *c == '}').count(), 3);
    assert!(q.contains(" x y "));
}

#[test]
fn open_with_body_runs_the_whole_pipeline() {
    let mut cursor = ScanCursor::new("a.b", strings(&["x"]));
    cursor
        .open_with_body(r#"{"data":{"a":{"b":[{"x":"v"}]}}}"#)
        .unwrap();
    assert_eq!(cursor.next().unwrap(), Some(vec![Some("v".to_string())]));

    let mut failing = ScanCursor::new("a", strings(&["x"]));
    assert_eq!(
        failing.open_with_body("no json here"),
        Err(ScanError::RemoteCallError)
    );
    assert!(matches!(failing.state, CursorState::Closed));
}
