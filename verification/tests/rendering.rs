//! Tests for the JSON renderer: exact wire text.

use graphql_subscription_core::error::{ErrorKind, GqlError, Pos};
use graphql_subscription_core::json::{json_to_text, Json};
use graphql_subscription_core::response::{build_response, render_body, CacheControl, ExecutionResult};

#[test]
fn scalars_render_exactly() {
    assert_eq!(json_to_text(&Json::Null), "null");
    assert_eq!(json_to_text(&Json::Bool(true)), "true");
    assert_eq!(json_to_text(&Json::Bool(false)), "false");
    assert_eq!(json_to_text(&Json::Int(0)), "0");
    assert_eq!(json_to_text(&Json::Int(-42)), "-42");
    assert_eq!(json_to_text(&Json::Int(i64::MIN)), "-9223372036854775808");
    assert_eq!(json_to_text(&Json::Int(i64::MAX)), "9223372036854775807");
}

#[test]
fn strings_are_escaped() {
    assert_eq!(json_to_text(&Json::Str("plain".to_string())), "\"plain\"");
    assert_eq!(
        json_to_text(&Json::Str("a\"b\\c\nd".to_string())),
        "\"a\\\"b\\\\c\\nd\""
    );
}

#[test]
fn arrays_and_objects_render_exactly() {
    let v = Json::Arr(vec![Json::Int(1), Json::Int(2), Json::Int(3)]);
    assert_eq!(json_to_text(&v), "[1,2,3]");
    assert_eq!(json_to_text(&Json::Arr(Vec::new())), "[]");
    let o = Json::Obj(vec![
        ("a".to_string(), Json::Int(1)),
        ("b".to_string(), Json::Arr(vec![Json::Null])),
    ]);
    assert_eq!(json_to_text(&o), "{\"a\":1,\"b\":[null]}");
    assert_eq!(json_to_text(&Json::Obj(Vec::new())), "{}");
}

#[test]
fn response_body_bytes_are_data_errors_shaped() {
    let res = ExecutionResult {
        data: Json::Obj(vec![("value".to_string(), Json::Int(5))]),
        errors: Vec::new(),
        cache_control: CacheControl::unset(),
    };
    let r = build_response(res);
    assert_eq!(render_body(&r), "{\"data\":{\"value\":5},\"errors\":[]}");
}

#[test]
fn equal_results_render_byte_identically() {
    let make = || ExecutionResult {
        data: Json::Obj(vec![("value".to_string(), Json::Int(5))]),
        errors: vec![GqlError {
            kind: ErrorKind::GuardRejected {
                reason: "no".to_string(),
            },
            pos: Pos { line: 1, column: 1 },
            path: Vec::new(),
        }],
        cache_control: CacheControl::unset(),
    };
    let a = render_body(&build_response(make()));
    let b = render_body(&build_response(make()));
    assert_eq!(a, b);
}
