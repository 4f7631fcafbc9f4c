//! The guard evaluator: ordered authorization checks run before a field's
//! stream is created; the first failure short-circuits the operation.

use vstd::prelude::*;
use crate::args::copy_path;
use crate::error::{ErrorKind, GqlError, Pos};

verus! {

broadcast use vstd::std_specs::vec::group_vec_axioms, vstd::seq::group_seq_axioms;

/// Evaluates the ordered guard outcomes of one operation. The first failing
/// check is converted to a positioned `GuardRejected` error carrying the
/// field's location and path; later checks are not consulted.
#[verifier::loop_isolation(false)]
pub fn eval_guards(outcomes: &Vec<Result<(), String>>, pos: Pos, path: &Vec<String>) -> (r: Result<
    (),
    GqlError,
>)
    ensures
        (r is Ok) <==> (forall|i: int|
            0 <= i < outcomes@.len() ==> (#[trigger] outcomes@[i]) is Ok),
        r matches Err(e) ==> exists|k: int|
            {
                &&& 0 <= k < outcomes@.len()
                &&& (#[trigger] outcomes@[k]) is Err
                &&& (forall|j: int| 0 <= j < k ==> (#[trigger] outcomes@[j]) is Ok)
                &&& (e.kind matches ErrorKind::GuardRejected { reason } && reason
                    == outcomes@[k]->Err_0)
                &&& e.pos == pos
                &&& e.path@ == path@
            },
{
    let mut i: usize = 0;
    while i < outcomes.len()
        invariant
            i <= outcomes.len(),
            forall|j: int| 0 <= j < i ==> (#[trigger] outcomes@[j]) is Ok,
        decreases outcomes.len() - i,
    {
        match &outcomes[i] {
            Result::Ok(_) => {
                i = i + 1;
            },
            Result::Err(reason) => {
                return Result::Err(GqlError {
                    kind: ErrorKind::GuardRejected { reason: reason.clone() },
                    pos,
                    path: copy_path(path),
                });
            },
        }
    }
    Result::Ok(())
}

} // verus!
