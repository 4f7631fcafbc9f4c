//! The subscription stream compiler: argument binding and guard evaluation
//! precede the creation of the handler's raw sequence; every emitted item is
//! wrapped under the field's response key; the error latch ends the visible
//! sequence at the first failure.

use vstd::prelude::*;
use crate::json::{Json, JsonModel, json_model};
use crate::error::GqlError;

verus! {

broadcast use vstd::std_specs::vec::group_vec_axioms, vstd::seq::group_seq_axioms;

/// One externally observable item of a subscription's result sequence.
#[derive(Debug)]
pub enum OutItem {
    Data(Json),
    Failure(GqlError),
}

/// The model of an observable item.
pub enum OutModel {
    Data(JsonModel),
    Failure(GqlError),
}

/// The model of one observable item.
pub open spec fn out_model(o: OutItem) -> OutModel {
    match o {
        OutItem::Data(j) => OutModel::Data(json_model(j)),
        OutItem::Failure(e) => OutModel::Failure(e),
    }
}

/// The model of an observable item sequence.
pub open spec fn out_models(s: Seq<OutItem>) -> Seq<OutModel> {
    s.map_values(|o: OutItem| out_model(o))
}

/// One resolution outcome wrapped for delivery: a success becomes the
/// single-entry object `{ response_key: value }`; a failure is delivered
/// as the error itself.
pub open spec fn wrapped_model(key: Seq<char>, r: Result<Json, GqlError>) -> OutModel {
    match r {
        Ok(v) => OutModel::Data(JsonModel::Obj(seq![(key, json_model(v))])),
        Err(e) => OutModel::Failure(e),
    }
}

/// Every resolution outcome wrapped, in emission order.
pub open spec fn wrapped_models(key: Seq<char>, rs: Seq<Result<Json, GqlError>>) -> Seq<OutModel> {
    rs.map_values(|r: Result<Json, GqlError>| wrapped_model(key, r))
}

/// The error latch applied to a sequence: items pass through until the
/// first failure, which is delivered and ends the sequence.
pub open spec fn latched(items: Seq<OutModel>) -> Seq<OutModel>
    decreases items.len(),
{
    if items.len() == 0 {
        Seq::empty()
    } else if items[0] is Failure {
        seq![items[0]]
    } else {
        seq![items[0]] + latched(items.skip(1))
    }
}

/// The observable result sequence of one subscription operation: a binding
/// failure, a guard rejection or a handler failure each yield a single
/// terminal error before any item is produced; otherwise the wrapped
/// per-item outcomes pass through the error latch.
pub open spec fn observable(
    key: Seq<char>,
    bind_err: Option<GqlError>,
    guard_err: Option<GqlError>,
    handler_err: Option<GqlError>,
    resolved: Seq<Result<Json, GqlError>>,
) -> Seq<OutModel> {
    match bind_err {
        Some(e) => seq![OutModel::Failure(e)],
        None => match guard_err {
            Some(e) => seq![OutModel::Failure(e)],
            None => match handler_err {
                Some(e) => seq![OutModel::Failure(e)],
                None => latched(wrapped_models(key, resolved)),
            },
        },
    }
}

/// The error of a step's outcome, if it failed.
pub open spec fn err_of<T>(r: Result<T, GqlError>) -> Option<GqlError> {
    match r {
        Ok(_) => None,
        Err(e) => Some(e),
    }
}

/// The explicit two-state error latch: `flowing` while no failure has been
/// delivered, `latched` afterwards.
#[derive(Debug)]
pub struct ErrorLatch {
    pub errored: bool,
}

impl ErrorLatch {
    /// A fresh latch, still flowing.
    pub fn start() -> (r: ErrorLatch)
        ensures
            !r.errored,
    {
        ErrorLatch { errored: false }
    }

    /// One step: while flowing, the item passes through and a failure trips
    /// the latch; once latched, every further pull signals completion.
    pub fn step(&mut self, item: OutItem) -> (out: Option<OutItem>)
        ensures
            old(self).errored ==> final(self).errored && out is None,
            !old(self).errored ==> final(self).errored == (item is Failure) && out == Some(item),
    {
        if self.errored {
            None
        } else {
            if matches!(item, OutItem::Failure(_)) {
                self.errored = true;
            }
            Some(item)
        }
    }
}

/// Wraps one resolution outcome under the field's response key.
pub fn wrap_resolved(key: &String, r: Result<Json, GqlError>) -> (o: OutItem)
    ensures
        out_model(o) == wrapped_model(key@, r),
{
    match r {
        Result::Ok(v) => {
            let mut entries: Vec<(String, Json)> = Vec::new();
            entries.push((key.clone(), v));
            let obj = Json::Obj(entries);
            proof {
                assert(json_model(obj)->Obj_0 =~= seq![(key@, json_model(r->Ok_0))]);
            }
            OutItem::Data(obj)
        },
        Result::Err(e) => OutItem::Failure(e),
    }
}

/// What happens before the handler is asked for its sequence.
#[derive(Debug)]
pub enum StartDecision {
    /// Arguments bound and guards passed: the handler may be invoked with
    /// these positional values.
    Proceed(Vec<Json>),
    /// The operation aborts with this single error; the handler is never
    /// invoked and no raw item is ever requested.
    Abort(GqlError),
}

/// The pre-stream decision: argument binding is consulted first, then the guard
/// outcome. Only when both succeed may a caller invoke the handler.
pub fn start_subscription(bind: Result<Vec<Json>, GqlError>, guard: Result<(), GqlError>) -> (d:
    StartDecision)
    ensures
        bind is Err ==> d == StartDecision::Abort(bind->Err_0),
        bind is Ok && guard is Err ==> d == StartDecision::Abort(guard->Err_0),
        bind is Ok && guard is Ok ==> d == StartDecision::Proceed(bind->Ok_0),
{
    match bind {
        Result::Ok(vals) => {
            match guard {
                Result::Ok(_) => StartDecision::Proceed(vals),
                Result::Err(e) => StartDecision::Abort(e),
            }
        },
        Result::Err(e) => StartDecision::Abort(e),
    }
}

/// The streaming phase: consumes the per-item resolution outcomes in
/// emission order, wraps each under the response key and applies the error
/// latch. Consumption stops at the first failure: later outcomes are never
/// taken from the sequence.
#[verifier::loop_isolation(false)]
pub fn run_stream_phase(key: &String, resolved: Vec<Result<Json, GqlError>>) -> (out: Vec<OutItem>)
    ensures
        out_models(out@) == latched(wrapped_models(key@, resolved@)),
{
    let ghost orig = resolved@;
    let mut rest = resolved;
    let total = rest.len();
    let mut out: Vec<OutItem> = Vec::new();
    let mut latch = ErrorLatch::start();
    let mut k: usize = 0;
    while rest.len() > 0 && !latch.errored
        invariant
            orig.len() == total as int,
            k + rest@.len() == orig.len(),
            rest@ == orig.skip(k as int),
            !latch.errored ==> {
                &&& out_models(out@) == wrapped_models(key@, orig.take(k as int))
                &&& forall|j: int| 0 <= j < k ==> (#[trigger] orig[j]) is Ok
            },
            latch.errored ==> out_models(out@) == latched(wrapped_models(key@, orig)),
        decreases rest@.len(),
    {
        let item = rest.remove(0);
        proof {
            assert(orig.skip(k as int)[0] == orig[k as int]);
            assert(orig.skip(k as int).remove(0) =~= orig.skip(k as int + 1));
        }
        let was_err = matches!(item, Result::Err(_));
        let o = wrap_resolved(key, item);
        match latch.step(o) {
            Some(x) => {
                out.push(x);
            },
            None => {},
        }
        proof {
            let ws = wrapped_models(key@, orig);
            assert forall|j: int| 0 <= j < orig.len() implies #[trigger] ws[j] == wrapped_model(
                key@,
                orig[j],
            ) by {}
            assert(out@.len() == k + 1);
            assert forall|j: int| 0 <= j < k + 1 implies #[trigger] out_models(out@)[j] == ws[j] by {
                assert(out_models(out@)[j] == out_model(out@[j]));
                if j < k {
                    assert(out_model(out@[j]) == wrapped_models(key@, orig.take(k as int))[j]);
                    assert(wrapped_models(key@, orig.take(k as int))[j] == wrapped_model(
                        key@,
                        orig.take(k as int)[j],
                    ));
                } else {
                    assert(out@[j] == o);
                    assert(out_model(o) == wrapped_model(key@, orig[k as int]));
                }
            }
            if was_err {
                lemma_latched_first_failure(ws, k as int);
                assert(out_models(out@) =~= ws.take(k as int + 1));
            } else {
                assert(out_models(out@) =~= wrapped_models(key@, orig.take(k as int + 1)));
            }
        }
        k = k + 1;
    }
    proof {
        if !latch.errored {
            assert(k == orig.len());
            assert(orig.take(k as int) =~= orig);
            lemma_latched_no_failure(wrapped_models(key@, orig));
        }
    }
    out
}

/// The whole pipeline of one operation, as the driver sees it: the
/// pre-stream checks first, then the handler outcome, then the streaming
/// phase.
pub fn run_subscription(
    key: &String,
    bind: Result<Vec<Json>, GqlError>,
    guard: Result<(), GqlError>,
    handler: Result<(), GqlError>,
    resolved: Vec<Result<Json, GqlError>>,
) -> (out: Vec<OutItem>)
    ensures
        out_models(out@) == observable(
            key@,
            err_of(bind),
            err_of(guard),
            err_of(handler),
            resolved@,
        ),
{
    let decision = start_subscription(bind, guard);
    match decision {
        StartDecision::Abort(e) => {
            let mut out: Vec<OutItem> = Vec::new();
            out.push(OutItem::Failure(e));
            proof {
                assert(out_models(out@) =~= observable(
                    key@,
                    err_of(bind),
                    err_of(guard),
                    err_of(handler),
                    resolved@,
                ));
            }
            out
        },
        StartDecision::Proceed(_) => {
            match handler {
                Result::Err(e) => {
                    let mut out: Vec<OutItem> = Vec::new();
                    out.push(OutItem::Failure(e));
                    proof {
                        assert(out_models(out@) =~= observable(
                            key@,
                            err_of(bind),
                            err_of(guard),
                            err_of(handler),
                            resolved@,
                        ));
                    }
                    out
                },
                Result::Ok(_) => run_stream_phase(key, resolved),
            }
        },
    }
}

/// The per-item resolution environment: a path node whose segment is the
/// field's response key, and the resolve-id counter used to generate
/// unique internal identifiers during this one item's resolution. One is
/// allocated fresh for every emitted value and discarded after use, never
/// shared across items.
pub struct ResolutionScope {
    pub path_segment: String,
    pub resolve_id: u64,
}

impl ResolutionScope {
    /// A fresh scope for one emitted item: the path segment is the field's
    /// response key and the counter starts over.
    pub fn fresh(key: &String) -> (r: ResolutionScope)
        ensures
            r.path_segment@ == key@,
            r.resolve_id == 0,
    {
        ResolutionScope { path_segment: key.clone(), resolve_id: 0 }
    }

    /// Draws the next unique identifier of this item's resolution.
    pub fn next_id(&mut self) -> (id: u64)
        requires
            old(self).resolve_id < u64::MAX,
        ensures
            id == old(self).resolve_id,
            final(self).resolve_id == old(self).resolve_id + 1,
            final(self).path_segment == old(self).path_segment,
    {
        let id = self.resolve_id;
        self.resolve_id = self.resolve_id + 1;
        id
    }
}

/// A sequence without failures passes the latch unchanged.
pub proof fn lemma_latched_no_failure(s: Seq<OutModel>)
    requires
        forall|i: int| 0 <= i < s.len() ==> !((#[trigger] s[i]) is Failure),
    ensures
        latched(s) == s,
    decreases s.len(),
{
    if s.len() == 0 {
        assert(latched(s) =~= s);
    } else {
        assert(forall|i: int| 0 <= i < s.skip(1).len() ==> #[trigger] s.skip(1)[i] == s[i + 1]);
        lemma_latched_no_failure(s.skip(1));
        assert(latched(s) =~= s);
    }
}

/// With the first failure at position `k`, the latch delivers exactly the
/// first `k` passing items and that failure, and nothing afterwards.
pub proof fn lemma_latched_first_failure(s: Seq<OutModel>, k: int)
    requires
        0 <= k < s.len(),
        forall|j: int| 0 <= j < k ==> !((#[trigger] s[j]) is Failure),
        s[k] is Failure,
    ensures
        latched(s) == s.take(k + 1),
    decreases k,
{
    if k == 0 {
        assert(latched(s) =~= s.take(1));
    } else {
        assert(forall|i: int| 0 <= i < s.skip(1).len() ==> #[trigger] s.skip(1)[i] == s[i + 1]);
        lemma_latched_first_failure(s.skip(1), k - 1);
        assert(latched(s) == seq![s[0]] + s.skip(1).take(k));
        assert(seq![s[0]] + s.skip(1).take(k) =~= s.take(k + 1));
    }
}

/// When every item of the raw sequence resolves successfully, the
/// observable sequence is exactly the same number of successes, each
/// wrapped as the single-entry object under the response key, in emission
/// order.
pub proof fn lemma_all_success(
    key: Seq<char>,
    resolved: Seq<Result<Json, GqlError>>,
)
    requires
        forall|i: int| 0 <= i < resolved.len() ==> (#[trigger] resolved[i]) is Ok,
    ensures
        observable(key, None, None, None, resolved).len() == resolved.len(),
        forall|i: int|
            0 <= i < resolved.len() ==> observable(key, None, None, None, resolved)[i]
                == OutModel::Data(JsonModel::Obj(seq![(key, json_model(resolved[i]->Ok_0))])),
{
    let ws = wrapped_models(key, resolved);
    assert(forall|i: int| 0 <= i < ws.len() ==> !((#[trigger] ws[i]) is Failure));
    lemma_latched_no_failure(ws);
}

/// When item `k` is the first to fail resolution, the observable sequence
/// is exactly `k` wrapped successes followed by that one error; no later
/// item ever appears, however many the raw sequence would have produced.
pub proof fn lemma_error_ends_stream(
    key: Seq<char>,
    resolved: Seq<Result<Json, GqlError>>,
    k: int,
)
    requires
        0 <= k < resolved.len(),
        forall|j: int| 0 <= j < k ==> (#[trigger] resolved[j]) is Ok,
        resolved[k] is Err,
    ensures
        observable(key, None, None, None, resolved).len() == k + 1,
        forall|j: int|
            0 <= j < k ==> observable(key, None, None, None, resolved)[j] == OutModel::Data(
                JsonModel::Obj(seq![(key, json_model(resolved[j]->Ok_0))]),
            ),
        observable(key, None, None, None, resolved)[k] == OutModel::Failure(resolved[k]->Err_0),
{
    let ws = wrapped_models(key, resolved);
    lemma_latched_first_failure(ws, k);
}

/// A guard rejection is delivered before any raw item is requested: the
/// observable sequence is the single rejection error, and it is the same
/// whatever sequence the handler would have produced — the handler
/// observes zero invocations.
pub proof fn lemma_guard_rejection(
    key: Seq<char>,
    e: GqlError,
    would_a: Seq<Result<Json, GqlError>>,
    would_b: Seq<Result<Json, GqlError>>,
)
    ensures
        observable(key, None, Some(e), None, would_a) == seq![OutModel::Failure(e)],
        observable(key, None, Some(e), None, would_a) == observable(
            key,
            None,
            Some(e),
            None,
            would_b,
        ),
{
}

/// A binding failure likewise aborts before the handler: one error,
/// independent of guards, handler outcome and raw sequence.
pub proof fn lemma_bind_failure(
    key: Seq<char>,
    e: GqlError,
    guard_err: Option<GqlError>,
    handler_err: Option<GqlError>,
    would: Seq<Result<Json, GqlError>>,
)
    ensures
        observable(key, Some(e), guard_err, handler_err, would) == seq![OutModel::Failure(e)],
{
}

} // verus!
