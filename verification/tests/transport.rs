//! Tests for the HTTP and WebSocket transport adapters and the response
//! builder.

use graphql_subscription_core::error::{ErrorKind, GqlError, Pos};
use graphql_subscription_core::http::{
    http_dispatch, request_from_query_string, HttpMethod, Request,
};
use graphql_subscription_core::json::Json;
use graphql_subscription_core::json::u64_to_string;
use graphql_subscription_core::response::{
    build_response, render_message, CacheControl, ExecutionResult,
};
use graphql_subscription_core::ws::{inbound_payloads, upgrade_response_headers, InboundFrame};

#[test]
fn get_query_string_is_url_decoded() {
    // Would fail if the decoder handed its input back unchanged.
    let req = request_from_query_string("query=%7B+value+%7D&operationName=Op").unwrap();
    assert_eq!(req.query, "{ value }");
    assert_eq!(req.operation_name.as_deref(), Some("Op"));
    assert!(req.variables.is_none());
}

#[test]
fn query_string_without_query_is_rejected() {
    assert!(request_from_query_string("operationName=Op").is_err());
}

#[test]
fn get_and_post_with_equal_requests_agree() {
    let raw = "query=%7Bvalue%7D";
    let via_get = http_dispatch(
        HttpMethod::Get,
        raw,
        Err("the body is not consulted on GET".to_string()),
    )
    .unwrap();
    let body = Request {
        query: "{value}".to_string(),
        operation_name: None,
        variables: None,
    };
    let via_post = http_dispatch(HttpMethod::Post, "", Ok(body)).unwrap();
    assert_eq!(via_get.query, via_post.query);
    assert_eq!(via_get.operation_name, via_post.operation_name);
    assert_eq!(via_get.variables, via_post.variables);
}

#[test]
fn post_body_failure_is_bad_request() {
    let r = http_dispatch(HttpMethod::Post, "", Err("no parse".to_string()));
    match r {
        Err(bad) => assert_eq!(bad.0, "no parse"),
        Ok(_) => panic!("a failing body parse must reject"),
    }
}

#[test]
fn upgrade_always_advertises_graphql_ws() {
    let headers = upgrade_response_headers(Vec::new());
    assert_eq!(headers.len(), 1);
    assert_eq!(headers[0].0, "Sec-WebSocket-Protocol");
    assert_eq!(headers[0].1, "graphql-ws");

    let base = vec![("upgrade".to_string(), "websocket".to_string())];
    let headers = upgrade_response_headers(base);
    assert_eq!(headers.len(), 2);
    assert_eq!(headers[1].0, "Sec-WebSocket-Protocol");
    assert_eq!(headers[1].1, "graphql-ws");
}

#[test]
fn malformed_frame_ends_the_inbound_stream() {
    let frames = vec![
        InboundFrame::Payload(vec![1, 2]),
        InboundFrame::Payload(vec![3]),
        InboundFrame::Malformed,
        InboundFrame::Payload(vec![4]),
    ];
    let payloads = inbound_payloads(frames);
    assert_eq!(payloads, vec![vec![1, 2], vec![3]]);

    let all_ok = vec![InboundFrame::Payload(vec![9])];
    assert_eq!(inbound_payloads(all_ok), vec![vec![9]]);

    let empty: Vec<InboundFrame> = Vec::new();
    assert!(inbound_payloads(empty).is_empty());
}

#[test]
fn decimal_rendering_is_exact() {
    assert_eq!(u64_to_string(0), "0");
    assert_eq!(u64_to_string(7), "7");
    assert_eq!(u64_to_string(30), "30");
    assert_eq!(u64_to_string(1234567890), "1234567890");
    assert_eq!(u64_to_string(u64::MAX), "18446744073709551615");
}

#[test]
fn cache_control_value_formats() {
    let public = CacheControl {
        public: true,
        max_age: 30,
    };
    assert_eq!(public.value().as_deref(), Some("max-age=30"));
    let private = CacheControl {
        public: false,
        max_age: 60,
    };
    assert_eq!(private.value().as_deref(), Some("max-age=60, private"));
    assert!(CacheControl::unset().value().is_none());
}

#[test]
fn cache_control_merge_is_most_constraining() {
    let mut cc = CacheControl::unset();
    cc.merge(&CacheControl {
        public: true,
        max_age: 100,
    });
    assert_eq!(cc.max_age, 100);
    assert!(cc.public);
    cc.merge(&CacheControl {
        public: false,
        max_age: 30,
    });
    assert_eq!(cc.max_age, 30);
    assert!(!cc.public);
    cc.merge(&CacheControl {
        public: true,
        max_age: 0,
    });
    assert_eq!(cc.max_age, 30);
    assert!(!cc.public);
}

fn header_value<'a>(headers: &'a [(String, String)], name: &str) -> Option<&'a str> {
    headers
        .iter()
        .find(|(k, _)| k == name)
        .map(|(_, v)| v.as_str())
}

#[test]
fn error_free_response_carries_cache_control() {
    let res = ExecutionResult {
        data: Json::Int(1),
        errors: Vec::new(),
        cache_control: CacheControl {
            public: true,
            max_age: 30,
        },
    };
    let r = build_response(res);
    assert_eq!(r.status, 200);
    assert_eq!(header_value(&r.headers, "content-type"), Some("application/json"));
    assert_eq!(header_value(&r.headers, "cache-control"), Some("max-age=30"));
}

#[test]
fn erroring_response_never_carries_cache_control() {
    let res = ExecutionResult {
        data: Json::Null,
        errors: vec![GqlError {
            kind: ErrorKind::HandlerFailure {
                message: "boom".to_string(),
            },
            pos: Pos { line: 1, column: 1 },
            path: Vec::new(),
        }],
        cache_control: CacheControl {
            public: true,
            max_age: 30,
        },
    };
    let r = build_response(res);
    assert_eq!(header_value(&r.headers, "cache-control"), None);
    assert_eq!(r.headers.len(), 1);
}

#[test]
fn response_without_stated_age_has_no_header() {
    let res = ExecutionResult {
        data: Json::Int(1),
        errors: Vec::new(),
        cache_control: CacheControl::unset(),
    };
    let r = build_response(res);
    assert_eq!(header_value(&r.headers, "cache-control"), None);
}

#[test]
fn response_body_is_data_errors_shaped() {
    let res = ExecutionResult {
        data: Json::Int(5),
        errors: vec![GqlError {
            kind: ErrorKind::FieldNotFound {
                field_name: "tock".to_string(),
                object: "SubscriptionRoot".to_string(),
            },
            pos: Pos { line: 2, column: 9 },
            path: vec!["tock".to_string()],
        }],
        cache_control: CacheControl::unset(),
    };
    let r = build_response(res);
    match &r.body {
        Json::Obj(entries) => {
            assert_eq!(entries.len(), 2);
            assert_eq!(entries[0].0, "data");
            assert!(matches!(entries[0].1, Json::Int(5)));
            assert_eq!(entries[1].0, "errors");
            match &entries[1].1 {
                Json::Arr(errs) => {
                    assert_eq!(errs.len(), 1);
                    match &errs[0] {
                        Json::Obj(fields) => {
                            assert_eq!(fields[0].0, "message");
                            match &fields[0].1 {
                                Json::Str(m) => assert_eq!(
                                    m,
                                    "Unknown field \"tock\" on type \"SubscriptionRoot\""
                                ),
                                _ => panic!("the message must be a string"),
                            }
                            assert!(matches!(fields[1].1, Json::Int(2)));
                            assert!(matches!(fields[2].1, Json::Int(9)));
                        }
                        _ => panic!("each error must be an object"),
                    }
                }
                _ => panic!("errors must be an array"),
            }
        }
        _ => panic!("the body must be an object"),
    }
}

#[test]
fn error_messages_are_exact() {
    assert_eq!(
        render_message(&ErrorKind::MissingArgument {
            name: "count".to_string()
        }),
        "Required argument \"count\" was not provided"
    );
    assert_eq!(
        render_message(&ErrorKind::GuardRejected {
            reason: "no".to_string()
        }),
        "Forbidden: no"
    );
    assert_eq!(
        render_message(&ErrorKind::InvalidArgument {
            name: "n".to_string(),
            reason: "too big".to_string()
        }),
        "Invalid value for argument \"n\": too big"
    );
}
