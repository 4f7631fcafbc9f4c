//! The argument binder: converts raw request variables into typed values,
//! applying declared types, defaults and validators, in declaration order.

use vstd::prelude::*;
use vstd::string::StrSliceExecFns;
use crate::json::{Json, JsonModel, json_model};
use crate::error::{ErrorKind, GqlError, Pos};

verus! {

broadcast use vstd::std_specs::vec::group_vec_axioms, vstd::seq::group_seq_axioms;

/// The declared type of an argument value.
#[derive(Debug)]
pub enum Ty {
    Int,
    Boolean,
    Text,
    List(Box<Ty>),
    Nullable(Box<Ty>),
}

/// Whether a JSON value has the shape the declared type asks for.
pub open spec fn type_matches(v: JsonModel, t: Ty) -> bool
    decreases t,
{
    match t {
        Ty::Int => v is Int,
        Ty::Boolean => v is Bool,
        Ty::Text => v is Str,
        Ty::List(inner) => v matches JsonModel::Arr(items) && (forall|i: int|
            0 <= i < items.len() ==> type_matches(#[trigger] items[i], *inner)),
        Ty::Nullable(inner) => v is Null || type_matches(v, *inner),
    }
}

/// A declared type accepts an absent value exactly when it is nullable.
pub open spec fn allows_absent(t: Ty) -> bool {
    t is Nullable
}

/// A built-in value validator, run after the shape check.
#[derive(Debug)]
pub enum Validator {
    IntRange { min: i64, max: i64 },
    TextMinLength { n: usize },
    TextMaxLength { n: usize },
}

/// Whether a validator accepts a value.
pub open spec fn validator_accepts(v: JsonModel, val: Validator) -> bool {
    match val {
        Validator::IntRange { min, max } => v matches JsonModel::Int(n) && min <= n <= max,
        Validator::TextMinLength { n } => v matches JsonModel::Str(s) && s.len() >= n,
        Validator::TextMaxLength { n } => v matches JsonModel::Str(s) && s.len() <= n,
    }
}

/// Metadata of one declared argument.
#[derive(Debug)]
pub struct ArgSpec {
    pub name: String,
    pub description: Option<String>,
    pub ty: Ty,
    pub default: Option<Json>,
    pub validator: Option<Validator>,
}

/// A well-formed argument declaration: a default value must have the shape
/// of the declared type.
pub open spec fn arg_spec_wf(a: ArgSpec) -> bool {
    a.default matches Some(d) ==> type_matches(json_model(d), a.ty)
}

/// The first value recorded for a variable name, if any.
pub open spec fn var_lookup(vars: Seq<(String, Json)>, name: Seq<char>) -> Option<Json>
    decreases vars.len(),
{
    if vars.len() == 0 {
        None
    } else if vars[0].0@ == name {
        Some(vars[0].1)
    } else {
        var_lookup(vars.skip(1), name)
    }
}

/// How binding one declared argument against the variables turns out.
pub enum BindOutcome {
    Bound(JsonModel),
    MissingArg,
    InvalidArg,
}

/// The outcome of binding one argument: a present value must match the type
/// and the validator; an absent one falls back to the default, then to null
/// for a nullable type, and is an error otherwise.
pub open spec fn bound_outcome(a: ArgSpec, vars: Seq<(String, Json)>) -> BindOutcome {
    match var_lookup(vars, a.name@) {
        Some(v) => if !type_matches(json_model(v), a.ty) {
            BindOutcome::InvalidArg
        } else if a.validator matches Some(val) && !validator_accepts(json_model(v), val) {
            BindOutcome::InvalidArg
        } else {
            BindOutcome::Bound(json_model(v))
        },
        None => match a.default {
            Some(d) => BindOutcome::Bound(json_model(d)),
            None => if allows_absent(a.ty) {
                BindOutcome::Bound(JsonModel::Null)
            } else {
                BindOutcome::MissingArg
            },
        },
    }
}

/// Checks a value's shape against a declared type.
#[verifier::loop_isolation(false)]
pub fn check_type(v: &Json, t: &Ty) -> (b: bool)
    ensures
        b == type_matches(v@, *t),
    decreases *t,
{
    match t {
        Ty::Int => matches!(v, Json::Int(_)),
        Ty::Boolean => matches!(v, Json::Bool(_)),
        Ty::Text => matches!(v, Json::Str(_)),
        Ty::List(inner) => {
            match v {
                Json::Arr(items) => {
                    let mut i: usize = 0;
                    let mut ok = true;
                    while i < items.len() && ok
                        invariant
                            i <= items.len(),
                            ok == (forall|k: int|
                                0 <= k < i ==> type_matches(#[trigger] items@[k]@, **inner)),
                            !ok ==> i > 0 && !type_matches(items@[i - 1]@, **inner),
                        decreases items.len() - i,
                    {
                        proof {
                            assert(decreases_to!(*t => t->List_0));
                        }
                        ok = check_type(&items[i], inner);
                        i = i + 1;
                    }
                    proof {
                        assert(v@->Arr_0.len() == items@.len());
                        assert forall|k: int| 0 <= k < items@.len() implies #[trigger] v@->Arr_0[k]
                            == items@[k]@ by {}
                        if !ok {
                            let k = choose|k: int| 0 <= k < i && !type_matches(items@[k]@, **inner);
                            assert(!type_matches(v@->Arr_0[k], **inner));
                        }
                    }
                    ok
                },
                _ => false,
            }
        },
        Ty::Nullable(inner) => {
            match v {
                Json::Null => true,
                _ => {
                    proof {
                        assert(decreases_to!(*t => t->Nullable_0));
                    }
                    check_type(v, inner)
                },
            }
        },
    }
}

/// Runs a validator against a value.
pub fn run_validator(v: &Json, val: &Validator) -> (b: bool)
    ensures
        b == validator_accepts(v@, *val),
{
    match val {
        Validator::IntRange { min, max } => {
            match v {
                Json::Int(n) => *min <= *n && *n <= *max,
                _ => false,
            }
        },
        Validator::TextMinLength { n } => {
            match v {
                Json::Str(s) => s.as_str().unicode_len() >= *n,
                _ => false,
            }
        },
        Validator::TextMaxLength { n } => {
            match v {
                Json::Str(s) => s.as_str().unicode_len() <= *n,
                _ => false,
            }
        },
    }
}

/// Looks a variable up by name; the first recorded value wins.
#[verifier::loop_isolation(false)]
pub fn lookup_var<'a>(vars: &'a Vec<(String, Json)>, name: &String) -> (r: Option<&'a Json>)
    ensures
        match r {
            Some(v) => var_lookup(vars@, name@) == Some(*v),
            None => var_lookup(vars@, name@) is None,
        },
{
    proof {
        assert(vars@.skip(0) =~= vars@);
    }
    let mut i: usize = 0;
    while i < vars.len()
        invariant
            i <= vars.len(),
            forall|k: int| 0 <= k < i ==> vars@[k].0@ != name@,
            var_lookup(vars@, name@) == var_lookup(vars@.skip(i as int), name@),
        decreases vars.len() - i,
    {
        if vars[i].0 == *name {
            proof {
                assert(vars@.skip(i as int)[0] == vars@[i as int]);
            }
            return Some(&vars[i].1);
        }
        proof {
            assert(vars@.skip(i as int).skip(1) =~= vars@.skip(i as int + 1));
            assert(vars@.skip(i as int)[0] == vars@[i as int]);
        }
        i = i + 1;
    }
    proof {
        assert(vars@.skip(i as int).len() == 0);
    }
    None
}

/// Binds one declared argument, reporting failures as positioned errors
/// naming the argument.
pub fn bind_arg(a: &ArgSpec, vars: &Vec<(String, Json)>, pos: Pos, path: &Vec<String>) -> (r:
    Result<Json, GqlError>)
    ensures
        r matches Ok(v) ==> bound_outcome(*a, vars@) == BindOutcome::Bound(v@),
        r matches Err(e) ==> {
            &&& e.pos == pos
            &&& e.path@ == path@
            &&& (bound_outcome(*a, vars@) == BindOutcome::MissingArg ==> (e.kind
                matches ErrorKind::MissingArgument { name } && name@ == a.name@))
            &&& (bound_outcome(*a, vars@) == BindOutcome::InvalidArg ==> (e.kind
                matches ErrorKind::InvalidArgument { name, .. } && name@ == a.name@))
        },
        (r is Ok) == (bound_outcome(*a, vars@) is Bound),
{
    match lookup_var(vars, &a.name) {
        Some(v) => {
            if !check_type(v, &a.ty) {
                return Result::Err(GqlError {
                    kind: ErrorKind::InvalidArgument {
                        name: a.name.clone(),
                        reason: string_of("the value does not have the declared type"),
                    },
                    pos,
                    path: copy_path(path),
                });
            }
            let valid = match &a.validator {
                Some(val) => run_validator(v, val),
                None => true,
            };
            if !valid {
                return Result::Err(GqlError {
                    kind: ErrorKind::InvalidArgument {
                        name: a.name.clone(),
                        reason: string_of("the value was rejected by the validator"),
                    },
                    pos,
                    path: copy_path(path),
                });
            }
            Result::Ok(v.deep_copy())
        },
        None => {
            match &a.default {
                Some(d) => Result::Ok(d.deep_copy()),
                None => {
                    if matches!(&a.ty, Ty::Nullable(_)) {
                        Result::Ok(Json::Null)
                    } else {
                        Result::Err(GqlError {
                            kind: ErrorKind::MissingArgument { name: a.name.clone() },
                            pos,
                            path: copy_path(path),
                        })
                    }
                },
            }
        },
    }
}

/// Binds every declared argument in declaration order; the first failure
/// short-circuits. On success the values are consumed positionally by the
/// handler.
#[verifier::loop_isolation(false)]
pub fn bind_args(specs: &Vec<ArgSpec>, vars: &Vec<(String, Json)>, pos: Pos, path: &Vec<String>)
    -> (r: Result<Vec<Json>, GqlError>)
    ensures
        r matches Ok(vals) ==> {
            &&& vals@.len() == specs@.len()
            &&& forall|i: int|
                0 <= i < specs@.len() ==> bound_outcome(specs@[i], vars@) == BindOutcome::Bound(
                    #[trigger] vals@[i]@,
                )
        },
        (r is Ok) <==> (forall|i: int|
            0 <= i < specs@.len() ==> (#[trigger] bound_outcome(specs@[i], vars@)) is Bound),
        r matches Err(e) ==> exists|k: int|
            {
                &&& 0 <= k < specs@.len()
                &&& !((#[trigger] bound_outcome(specs@[k], vars@)) is Bound)
                &&& (forall|j: int| 0 <= j < k ==> (#[trigger] bound_outcome(specs@[j], vars@)) is Bound)
                &&& e.pos == pos
                &&& e.path@ == path@
                &&& (bound_outcome(specs@[k], vars@) == BindOutcome::MissingArg ==> (e.kind
                    matches ErrorKind::MissingArgument { name } && name@ == specs@[k].name@))
                &&& (bound_outcome(specs@[k], vars@) == BindOutcome::InvalidArg ==> (e.kind
                    matches ErrorKind::InvalidArgument { name, .. } && name@ == specs@[k].name@))
            },
{
    let mut vals: Vec<Json> = Vec::new();
    let mut i: usize = 0;
    while i < specs.len()
        invariant
            i <= specs.len(),
            vals@.len() == i as nat,
            forall|j: int|
                0 <= j < i ==> (#[trigger] bound_outcome(specs@[j], vars@)) == BindOutcome::Bound(
                    vals@[j]@,
                ),
        decreases specs.len() - i,
    {
        match bind_arg(&specs[i], vars, pos, path) {
            Result::Ok(v) => {
                vals.push(v);
            },
            Result::Err(e) => {
                proof {
                    assert(!((bound_outcome(specs@[i as int], vars@)) is Bound));
                }
                return Result::Err(e);
            },
        }
        i = i + 1;
    }
    Result::Ok(vals)
}

/// A deferred, memoized accessor for one argument: computed once at binding
/// time; re-requesting the value never re-binds.
pub struct ArgGetter {
    bound: Result<Json, GqlError>,
}

impl ArgGetter {
    /// The recorded binding outcome.
    pub closed spec fn stored(&self) -> Result<Json, GqlError> {
        self.bound
    }

    /// Binds the argument once and memoizes the outcome.
    pub fn prepare(a: &ArgSpec, vars: &Vec<(String, Json)>, pos: Pos, path: &Vec<String>) -> (g:
        ArgGetter)
        ensures
            g.stored() matches Ok(v) ==> bound_outcome(*a, vars@) == BindOutcome::Bound(v@),
            (g.stored() is Ok) == (bound_outcome(*a, vars@) is Bound),
            g.stored() matches Err(e) ==> {
                &&& e.pos == pos
                &&& e.path@ == path@
                &&& (bound_outcome(*a, vars@) == BindOutcome::MissingArg ==> (e.kind
                    matches ErrorKind::MissingArgument { name } && name@ == a.name@))
                &&& (bound_outcome(*a, vars@) == BindOutcome::InvalidArg ==> (e.kind
                    matches ErrorKind::InvalidArgument { name, .. } && name@ == a.name@))
            },
    {
        ArgGetter { bound: bind_arg(a, vars, pos, path) }
    }

    /// Returns the memoized value; calling it any number of times yields
    /// the same outcome with no re-binding.
    pub fn get(&self) -> (r: &Result<Json, GqlError>)
        ensures
            *r == self.stored(),
    {
        &self.bound
    }
}

/// Re-requesting an argument through its getter is idempotent: two reads
/// observe the same outcome.
pub proof fn lemma_getter_idempotent(g: ArgGetter, first: Result<Json, GqlError>, second: Result<
    Json,
    GqlError,
>)
    requires
        first == g.stored(),
        second == g.stored(),
    ensures
        first == second,
{
}

/// A missing required argument with no default is a binding failure; a
/// declared default suppresses it, and the default's value is what the
/// handler receives for that argument.
pub proof fn lemma_default_suppresses_missing(a: ArgSpec, vars: Seq<(String, Json)>)
    requires
        var_lookup(vars, a.name@) is None,
    ensures
        a.default matches Some(d) ==> bound_outcome(a, vars) == BindOutcome::Bound(json_model(d)),
        a.default is None && !allows_absent(a.ty) ==> bound_outcome(a, vars)
            == BindOutcome::MissingArg,
{
}

/// A copy of a selection path: the same sequence of response keys.
pub fn copy_path(path: &Vec<String>) -> (r: Vec<String>)
    ensures
        r@ == path@,
{
    let mut out: Vec<String> = Vec::new();
    let mut i: usize = 0;
    while i < path.len()
        invariant
            i <= path.len(),
            out@ =~= path@.take(i as int),
        decreases path.len() - i,
    {
        out.push(path[i].clone());
        i = i + 1;
    }
    proof {
        assert(out@ =~= path@);
    }
    out
}

/// An owned string with the given characters.
pub fn string_of(s: &str) -> (r: String)
    ensures
        r@ == s@,
{
    s.to_owned()
}

} // verus!
