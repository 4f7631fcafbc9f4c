//! Scenario tests for the subscription pipeline: wrapping, latching,
//! pre-stream checks, and dispatch.

use graphql_subscription_core::args::{ArgSpec, Ty};
use graphql_subscription_core::error::{ErrorKind, GqlError, Pos};
use graphql_subscription_core::guard::eval_guards;
use graphql_subscription_core::json::Json;
use graphql_subscription_core::registry::{
    dispatch_field, not_found_stream, DispatchOutcome, FieldMeta, SubscriptionRoot, TypeRegistry,
    SchemaError,
};
use graphql_subscription_core::response::CacheControl;
use graphql_subscription_core::subscription::{
    run_subscription, start_subscription, OutItem, ResolutionScope, StartDecision,
};

fn pos() -> Pos {
    Pos { line: 3, column: 7 }
}

fn sample_error(reason: &str) -> GqlError {
    GqlError {
        kind: ErrorKind::HandlerFailure {
            message: reason.to_string(),
        },
        pos: pos(),
        path: vec!["tick".to_string()],
    }
}

fn expect_wrapped(item: &OutItem, key: &str, n: i64) {
    match item {
        OutItem::Data(Json::Obj(entries)) => {
            assert_eq!(entries.len(), 1);
            assert_eq!(entries[0].0, key);
            match &entries[0].1 {
                Json::Int(v) => assert_eq!(*v, n),
                other => panic!("expected an integer value, got {:?}", std::mem::discriminant(other)),
            }
        }
        _ => panic!("expected a wrapped data item"),
    }
}

#[test]
fn all_successes_pass_through_in_order() {
    let resolved = vec![Ok(Json::Int(1)), Ok(Json::Int(2)), Ok(Json::Int(3))];
    let out = run_subscription(&"tick".to_string(), Ok(vec![]), Ok(()), Ok(()), resolved);
    assert_eq!(out.len(), 3);
    expect_wrapped(&out[0], "tick", 1);
    expect_wrapped(&out[1], "tick", 2);
    expect_wrapped(&out[2], "tick", 3);
}

#[test]
fn first_resolution_error_latches_the_stream() {
    let resolved = vec![
        Ok(Json::Int(1)),
        Err(sample_error("resolution failed")),
        Ok(Json::Int(3)),
        Ok(Json::Int(4)),
    ];
    let out = run_subscription(&"tick".to_string(), Ok(vec![]), Ok(()), Ok(()), resolved);
    assert_eq!(out.len(), 2);
    expect_wrapped(&out[0], "tick", 1);
    match &out[1] {
        OutItem::Failure(e) => match &e.kind {
            ErrorKind::HandlerFailure { message } => assert_eq!(message, "resolution failed"),
            _ => panic!("wrong error kind"),
        },
        _ => panic!("expected the terminal error"),
    }
}

#[test]
fn guard_rejection_aborts_before_any_item() {
    let outcomes = vec![Ok(()), Err("not allowed".to_string())];
    let guard = eval_guards(&outcomes, pos(), &vec!["tick".to_string()]);
    let guard_err = match guard {
        Err(e) => e,
        Ok(()) => panic!("the failing guard must reject"),
    };
    match &guard_err.kind {
        ErrorKind::GuardRejected { reason } => assert_eq!(reason, "not allowed"),
        _ => panic!("wrong error kind"),
    }
    assert_eq!(guard_err.pos.line, 3);
    assert_eq!(guard_err.pos.column, 7);

    // The pre-stream check aborts: the handler is never invoked.
    let decision = start_subscription(Ok(vec![]), Err(guard_err));
    match decision {
        StartDecision::Abort(e) => match e.kind {
            ErrorKind::GuardRejected { .. } => {}
            _ => panic!("wrong error kind"),
        },
        StartDecision::Proceed(_) => panic!("a failing guard must abort"),
    }

    // Whatever the raw sequence would have produced, one error comes out.
    let outcomes2 = vec![Ok(()), Err("not allowed".to_string())];
    let guard2 = eval_guards(&outcomes2, pos(), &vec![]).unwrap_err();
    let would_have_produced = vec![Ok(Json::Int(1)), Ok(Json::Int(2))];
    let out = run_subscription(
        &"tick".to_string(),
        Ok(vec![]),
        Err(guard2),
        Ok(()),
        would_have_produced,
    );
    assert_eq!(out.len(), 1);
    assert!(matches!(&out[0], OutItem::Failure(_)));
}

#[test]
fn guards_all_pass() {
    let outcomes = vec![Ok(()), Ok(()), Ok(())];
    assert!(eval_guards(&outcomes, pos(), &vec![]).is_ok());
    assert!(eval_guards(&Vec::new(), pos(), &vec![]).is_ok());
}

#[test]
fn handler_failure_yields_single_error() {
    let out = run_subscription(
        &"tick".to_string(),
        Ok(vec![]),
        Ok(()),
        Err(sample_error("handler exploded")),
        vec![Ok(Json::Int(1))],
    );
    assert_eq!(out.len(), 1);
    assert!(matches!(&out[0], OutItem::Failure(_)));
}

fn field_named(name: &str) -> FieldMeta {
    FieldMeta {
        name: name.to_string(),
        description: None,
        deprecation: None,
        args: Vec::new(),
        ty_name: "Int".to_string(),
        cache_control: CacheControl::unset(),
    }
}

#[test]
fn dispatch_finds_declared_field() {
    let mut root = SubscriptionRoot::create("SubscriptionRoot".to_string());
    root.add_field(field_named("tick"), false).unwrap();
    root.add_field(field_named("values"), false).unwrap();
    match dispatch_field(&root, &"values".to_string(), pos()) {
        DispatchOutcome::Found(i) => assert_eq!(i, 1),
        DispatchOutcome::NotFound(_) => panic!("the declared field must be found"),
    }
}

#[test]
fn dispatch_miss_names_field_and_type() {
    let mut root = SubscriptionRoot::create("SubscriptionRoot".to_string());
    root.add_field(field_named("tick"), false).unwrap();
    let e = match dispatch_field(&root, &"tock".to_string(), pos()) {
        DispatchOutcome::NotFound(e) => e,
        DispatchOutcome::Found(_) => panic!("an absent field must miss"),
    };
    match &e.kind {
        ErrorKind::FieldNotFound { field_name, object } => {
            assert_eq!(field_name, "tock");
            assert_eq!(object, "SubscriptionRoot");
        }
        _ => panic!("wrong error kind"),
    }
    assert_eq!(e.pos.line, 3);
    assert!(e.path.is_empty());
    let stream = not_found_stream(e);
    assert_eq!(stream.len(), 1);
    assert!(matches!(&stream[0], OutItem::Failure(_)));
}

#[test]
fn post_guard_is_rejected_at_build_time() {
    let mut root = SubscriptionRoot::create("SubscriptionRoot".to_string());
    let r = root.add_field(field_named("tick"), true);
    assert_eq!(r, Err(SchemaError::PostGuardUnsupported));
    assert_eq!(root.fields.len(), 0);
}

#[test]
fn duplicate_field_is_rejected() {
    let mut root = SubscriptionRoot::create("SubscriptionRoot".to_string());
    root.add_field(field_named("tick"), false).unwrap();
    let r = root.add_field(field_named("tick"), false);
    assert_eq!(r, Err(SchemaError::DuplicateField));
    assert_eq!(root.fields.len(), 1);
}

#[test]
fn registry_first_registration_wins() {
    let mut reg = TypeRegistry::create();
    reg.register("SubscriptionRoot".to_string(), Some("first".to_string()), vec![]);
    reg.register("SubscriptionRoot".to_string(), Some("second".to_string()), vec![]);
    assert_eq!(reg.entries.len(), 1);
    assert_eq!(reg.entries[0].description.as_deref(), Some("first"));
    reg.register("QueryRoot".to_string(), None, vec![]);
    assert_eq!(reg.entries.len(), 2);
}

#[test]
fn resolution_scope_is_fresh_per_item() {
    let mut scope = ResolutionScope::fresh(&"tick".to_string());
    assert_eq!(scope.path_segment, "tick");
    assert_eq!(scope.next_id(), 0);
    assert_eq!(scope.next_id(), 1);
    // The next item gets a fresh scope: the counter starts over.
    let mut next = ResolutionScope::fresh(&"tick".to_string());
    assert_eq!(next.next_id(), 0);
}

#[test]
fn failure_on_first_item_yields_only_that_error() {
    let resolved = vec![
        Err(sample_error("immediately")),
        Ok(Json::Int(2)),
    ];
    let out = run_subscription(&"tick".to_string(), Ok(vec![]), Ok(()), Ok(()), resolved);
    assert_eq!(out.len(), 1);
    assert!(matches!(&out[0], OutItem::Failure(_)));
}

#[test]
fn duplicate_argument_names_are_rejected() {
    let arg = |n: &str| ArgSpec {
        name: n.to_string(),
        description: None,
        ty: Ty::Int,
        default: None,
        validator: None,
    };
    let mut root = SubscriptionRoot::create("SubscriptionRoot".to_string());
    let mut meta = field_named("tick");
    meta.args = vec![arg("n"), arg("n")];
    assert_eq!(root.add_field(meta, false), Err(SchemaError::DuplicateArgument));
}

#[test]
fn mistyped_default_is_rejected_at_build_time() {
    let mut root = SubscriptionRoot::create("SubscriptionRoot".to_string());
    let mut meta = field_named("tick");
    meta.args = vec![ArgSpec {
        name: "n".to_string(),
        description: None,
        ty: Ty::Int,
        default: Some(Json::Bool(true)),
        validator: None,
    }];
    assert_eq!(root.add_field(meta, false), Err(SchemaError::DefaultHasWrongType));
}
