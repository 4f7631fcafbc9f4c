//! Tests for the argument binder: types, defaults, validators, and the
//! memoized getters.

use graphql_subscription_core::args::{
    bind_arg, bind_args, check_type, lookup_var, run_validator, ArgGetter, ArgSpec, Ty, Validator,
};
use graphql_subscription_core::error::{ErrorKind, Pos};
use graphql_subscription_core::json::Json;

fn pos() -> Pos {
    Pos { line: 1, column: 2 }
}

fn int_arg(name: &str) -> ArgSpec {
    ArgSpec {
        name: name.to_string(),
        description: None,
        ty: Ty::Int,
        default: None,
        validator: None,
    }
}

#[test]
fn missing_required_argument_is_reported() {
    let spec = int_arg("count");
    let vars: Vec<(String, Json)> = Vec::new();
    let e = bind_arg(&spec, &vars, pos(), &vec![]).unwrap_err();
    match &e.kind {
        ErrorKind::MissingArgument { name } => assert_eq!(name, "count"),
        _ => panic!("wrong error kind"),
    }
}

#[test]
fn default_suppresses_missing_and_is_passed_through() {
    let mut spec = int_arg("count");
    spec.default = Some(Json::Int(42));
    let vars: Vec<(String, Json)> = Vec::new();
    let v = bind_arg(&spec, &vars, pos(), &vec![]).unwrap();
    assert!(matches!(v, Json::Int(42)));

    // And the whole tuple carries the default positionally.
    let specs = vec![spec];
    let vals = bind_args(&specs, &vars, pos(), &vec![]).unwrap();
    assert_eq!(vals.len(), 1);
    assert!(matches!(vals[0], Json::Int(42)));
}

#[test]
fn nullable_argument_may_be_absent() {
    let spec = ArgSpec {
        name: "filter".to_string(),
        description: None,
        ty: Ty::Nullable(Box::new(Ty::Text)),
        default: None,
        validator: None,
    };
    let vars: Vec<(String, Json)> = Vec::new();
    let v = bind_arg(&spec, &vars, pos(), &vec![]).unwrap();
    assert!(matches!(v, Json::Null));
}

#[test]
fn provided_value_of_wrong_shape_is_invalid() {
    let spec = int_arg("count");
    let vars = vec![("count".to_string(), Json::Str("three".to_string()))];
    let e = bind_arg(&spec, &vars, pos(), &vec![]).unwrap_err();
    match &e.kind {
        ErrorKind::InvalidArgument { name, .. } => assert_eq!(name, "count"),
        _ => panic!("wrong error kind"),
    }
}

#[test]
fn validator_rejection_is_invalid_argument() {
    let mut spec = int_arg("count");
    spec.validator = Some(Validator::IntRange { min: 0, max: 10 });
    let vars = vec![("count".to_string(), Json::Int(11))];
    let e = bind_arg(&spec, &vars, pos(), &vec![]).unwrap_err();
    assert!(matches!(e.kind, ErrorKind::InvalidArgument { .. }));

    let vars_ok = vec![("count".to_string(), Json::Int(10))];
    let v = bind_arg(&spec, &vars_ok, pos(), &vec![]).unwrap();
    assert!(matches!(v, Json::Int(10)));
}

#[test]
fn binding_stops_at_first_failure_in_declaration_order() {
    let specs = vec![int_arg("first"), int_arg("second")];
    let vars = vec![("second".to_string(), Json::Int(2))];
    let e = bind_args(&specs, &vars, pos(), &vec![]).unwrap_err();
    match &e.kind {
        ErrorKind::MissingArgument { name } => assert_eq!(name, "first"),
        _ => panic!("wrong error kind"),
    }
}

#[test]
fn type_checks() {
    assert!(check_type(&Json::Int(1), &Ty::Int));
    assert!(!check_type(&Json::Bool(true), &Ty::Int));
    assert!(check_type(&Json::Bool(true), &Ty::Boolean));
    assert!(check_type(&Json::Str("x".to_string()), &Ty::Text));
    assert!(check_type(
        &Json::Arr(vec![Json::Int(1), Json::Int(2)]),
        &Ty::List(Box::new(Ty::Int))
    ));
    assert!(!check_type(
        &Json::Arr(vec![Json::Int(1), Json::Bool(false)]),
        &Ty::List(Box::new(Ty::Int))
    ));
    assert!(check_type(&Json::Null, &Ty::Nullable(Box::new(Ty::Int))));
    assert!(check_type(&Json::Int(3), &Ty::Nullable(Box::new(Ty::Int))));
}

#[test]
fn validators() {
    assert!(run_validator(
        &Json::Int(5),
        &Validator::IntRange { min: 0, max: 10 }
    ));
    assert!(!run_validator(
        &Json::Int(-1),
        &Validator::IntRange { min: 0, max: 10 }
    ));
    assert!(run_validator(
        &Json::Str("abc".to_string()),
        &Validator::TextMinLength { n: 3 }
    ));
    assert!(!run_validator(
        &Json::Str("ab".to_string()),
        &Validator::TextMinLength { n: 3 }
    ));
    assert!(run_validator(
        &Json::Str("ab".to_string()),
        &Validator::TextMaxLength { n: 2 }
    ));
}

#[test]
fn first_recorded_variable_wins() {
    let vars = vec![
        ("count".to_string(), Json::Int(1)),
        ("count".to_string(), Json::Int(2)),
    ];
    let v = lookup_var(&vars, &"count".to_string()).unwrap();
    assert!(matches!(v, Json::Int(1)));
    assert!(lookup_var(&vars, &"other".to_string()).is_none());
}

#[test]
fn getter_is_memoized_and_idempotent() {
    let mut spec = int_arg("count");
    spec.default = Some(Json::Int(7));
    let vars: Vec<(String, Json)> = Vec::new();
    let getter = ArgGetter::prepare(&spec, &vars, pos(), &vec![]);
    let first = getter.get();
    let second = getter.get();
    match (first, second) {
        (Ok(Json::Int(a)), Ok(Json::Int(b))) => {
            assert_eq!(*a, 7);
            assert_eq!(*b, 7);
        }
        _ => panic!("both reads must observe the bound default"),
    }
}

#[test]
fn provided_value_wins_over_default() {
    let mut spec = int_arg("count");
    spec.default = Some(Json::Int(42));
    let vars = vec![("count".to_string(), Json::Int(3))];
    let v = bind_arg(&spec, &vars, pos(), &vec![]).unwrap();
    assert!(matches!(v, Json::Int(3)));
}
