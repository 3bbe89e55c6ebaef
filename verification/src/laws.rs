//! The bridge's guarantees, stated and proved against the arena's
//! mathematical view and the transition functions of [`crate::bridge`].
//! Every exec operation's contract equates the arena's new view with one of
//! those transitions, so these lemmas carry over to the running code.

use vstd::prelude::*;

use crate::bridge::{
    complete_step, is_completed, is_inflight, is_requested, mark_inflight_step, outcome_at,
    request_at, submit_step, tag_at, take_request_step, take_result_step, task_at, SlotTag,
};
use crate::request::HttpRequest;
use crate::response::ReqwestBytesResult;

verus! {

/// At any time a slot has at most one of the three tags: holding a request,
/// being inflight and holding an outcome are mutually exclusive.
pub proof fn tags_are_mutually_exclusive(m: Map<u64, SlotTag>, slot: u64)
    ensures
        !(is_requested(m, slot) && is_inflight(m, slot)),
        !(is_requested(m, slot) && is_completed(m, slot)),
        !(is_inflight(m, slot) && is_completed(m, slot)),
{
}

/// A slot advances only along request → inflight → outcome → detached: each
/// step demands the stage just before its own and otherwise leaves the arena
/// unchanged, so no stage is ever skipped and none is ever re-entered.
pub proof fn steps_respect_stage_order(
    m: Map<u64, SlotTag>,
    slot: u64,
    req: HttpRequest,
    task: u64,
    outcome: Result<Vec<u8>, String>,
)
    ensures
        m.contains_key(slot) ==> submit_step(m, slot, req) == m,
        !is_requested(m, slot) ==> take_request_step(m, slot) == m,
        m.contains_key(slot) ==> mark_inflight_step(m, slot, task) == m,
        !is_inflight(m, slot) ==> complete_step(m, slot, outcome) == m,
        !is_completed(m, slot) ==> take_result_step(m, slot) == m,
{
}

/// Every step is local to the slot it addresses: the tag of any other slot is
/// untouched, whichever step runs.
pub proof fn steps_are_local(
    m: Map<u64, SlotTag>,
    slot: u64,
    other: u64,
    req: HttpRequest,
    task: u64,
    outcome: Result<Vec<u8>, String>,
)
    requires
        other != slot,
    ensures
        tag_at(submit_step(m, slot, req), other) == tag_at(m, other),
        tag_at(take_request_step(m, slot), other) == tag_at(m, other),
        tag_at(mark_inflight_step(m, slot, task), other) == tag_at(m, other),
        tag_at(complete_step(m, slot, outcome), other) == tag_at(m, other),
        tag_at(take_result_step(m, slot), other) == tag_at(m, other),
{
}

/// An outcome is recorded exactly once per dispatched request: completing an
/// inflight slot stores exactly the given outcome, and any further completion
/// attempt at that slot is refused and changes nothing — the poller stops at
/// a slot once its outcome is written.
pub proof fn outcome_recorded_exactly_once(
    m: Map<u64, SlotTag>,
    slot: u64,
    first: Result<Vec<u8>, String>,
    second: Result<Vec<u8>, String>,
)
    requires
        is_inflight(m, slot),
    ensures
        outcome_at(complete_step(m, slot, first), slot) == Some(ReqwestBytesResult(first)),
        complete_step(complete_step(m, slot, first), slot, second) == complete_step(
            m,
            slot,
            first,
        ),
{
}

/// An outcome appears at a slot only through the completion step: no submit,
/// dispatch or consumption anywhere in the arena makes a result observable at
/// a slot that had none — a result is never produced before its task's
/// completion is observed.
pub proof fn no_outcome_without_completion(
    m: Map<u64, SlotTag>,
    slot: u64,
    at: u64,
    req: HttpRequest,
    task: u64,
)
    requires
        !is_completed(m, slot),
    ensures
        !is_completed(submit_step(m, at, req), slot),
        !is_completed(take_request_step(m, at), slot),
        !is_completed(mark_inflight_step(m, at, task), slot),
        !is_completed(take_result_step(m, at), slot),
{
}

/// Completions at two distinct slots commute: the arena ends in the same
/// state whichever task finishes first, and each slot ends up with its own
/// outcome — completion order across slots carries no information.
pub proof fn completion_order_is_immaterial(
    m: Map<u64, SlotTag>,
    slot_a: u64,
    slot_b: u64,
    outcome_a: Result<Vec<u8>, String>,
    outcome_b: Result<Vec<u8>, String>,
)
    requires
        slot_a != slot_b,
    ensures
        complete_step(complete_step(m, slot_a, outcome_a), slot_b, outcome_b) == complete_step(
            complete_step(m, slot_b, outcome_b),
            slot_a,
            outcome_a,
        ),
        is_inflight(m, slot_a) ==> outcome_at(
            complete_step(complete_step(m, slot_a, outcome_a), slot_b, outcome_b),
            slot_a,
        ) == Some(ReqwestBytesResult(outcome_a)),
        is_inflight(m, slot_b) ==> outcome_at(
            complete_step(complete_step(m, slot_a, outcome_a), slot_b, outcome_b),
            slot_b,
        ) == Some(ReqwestBytesResult(outcome_b)),
{
    assert(complete_step(complete_step(m, slot_a, outcome_a), slot_b, outcome_b)
        =~= complete_step(complete_step(m, slot_b, outcome_b), slot_a, outcome_a));
}

/// The full life of one request at a fresh slot: submitting makes the request
/// observable, dispatching consumes it and ties the slot to its task,
/// completing records exactly the task's outcome, and consuming the outcome
/// returns the arena to its prior state — each stage exactly once, in order.
pub proof fn lifecycle_of_one_request(
    m: Map<u64, SlotTag>,
    slot: u64,
    req: HttpRequest,
    task: u64,
    outcome: Result<Vec<u8>, String>,
)
    requires
        !m.contains_key(slot),
    ensures
        ({
            let submitted = submit_step(m, slot, req);
            let taken = take_request_step(submitted, slot);
            let inflight = mark_inflight_step(taken, slot, task);
            let completed = complete_step(inflight, slot, outcome);
            let reclaimed = take_result_step(completed, slot);
            &&& request_at(submitted, slot) == Some(req)
            &&& task_at(inflight, slot) == Some(task)
            &&& outcome_at(completed, slot) == Some(ReqwestBytesResult(outcome))
            &&& reclaimed == m
        }),
{
    let submitted = submit_step(m, slot, req);
    let taken = take_request_step(submitted, slot);
    assert(taken =~= m);
    let inflight = mark_inflight_step(taken, slot, task);
    let completed = complete_step(inflight, slot, outcome);
    let reclaimed = take_result_step(completed, slot);
    assert(reclaimed =~= m);
}

} // verus!
