//! The record of what a driver asked of its application.

use crate::event::WindowEvent;
use vstd::prelude::*;

verus! {

/// One call that the driver made on its application.
pub enum AppCall {
    /// `new`, which made the application.
    New,
    /// `should_close`, with the answer it gave.
    ShouldClose(bool),
    /// `process_input`, with the event handed over.
    ProcessInput(WindowEvent),
    /// `update`: one update tick.
    Update,
    /// `render`: one frame.
    Render,
    /// `one_sec_update`: one maintenance tick.
    OneSecUpdate,
}

/// `count` times the same call.
pub open spec fn repeated(call: AppCall, count: nat) -> Seq<AppCall> {
    Seq::new(count, |i: int| call)
}

/// How often `call` occurs in `calls`.
pub open spec fn count_of(calls: Seq<AppCall>, call: AppCall) -> nat
    decreases calls.len(),
{
    if calls.len() == 0 {
        0
    } else {
        count_of(calls.drop_last(), call) + if calls.last() == call {
            1nat
        } else {
            0nat
        }
    }
}

/// The calls of one wake-up of an application that goes on: the update
/// ticks, one render pass, the maintenance ticks.
pub open spec fn wake_calls(updates: nat, reports: nat) -> Seq<AppCall> {
    repeated(AppCall::Update, updates) + seq![AppCall::Render] + repeated(
        AppCall::OneSecUpdate,
        reports,
    )
}

/// Adding one call adds one to its own count and nothing to the others.
pub proof fn lemma_count_push(calls: Seq<AppCall>, added: AppCall, call: AppCall)
    ensures
        count_of(calls.push(added), call) == count_of(calls, call) + if added == call {
            1nat
        } else {
            0nat
        },
{
    assert(calls.push(added).drop_last() =~= calls);
}

/// Counts add up over a run of calls followed by another.
pub proof fn lemma_count_concat(first: Seq<AppCall>, second: Seq<AppCall>, call: AppCall)
    ensures
        count_of(first + second, call) == count_of(first, call) + count_of(second, call),
    decreases second.len(),
{
    if second.len() > 0 {
        assert((first + second).drop_last() =~= first + second.drop_last());
        lemma_count_concat(first, second.drop_last(), call);
    }
}

/// A run of one call holds that call as often as it is long, and no other.
pub proof fn lemma_count_repeated(repeating: AppCall, count: nat, call: AppCall)
    ensures
        count_of(repeated(repeating, count), call) == if repeating == call {
            count
        } else {
            0
        },
    decreases count,
{
    if count > 0 {
        assert(repeated(repeating, count).drop_last() =~= repeated(
            repeating,
            (count - 1) as nat,
        ));
        lemma_count_repeated(repeating, (count - 1) as nat, call);
    }
}

/// One wake-up draws once and runs as many update and maintenance ticks as
/// it was asked to.
pub proof fn lemma_wake_call_counts(updates: nat, reports: nat)
    ensures
        count_of(wake_calls(updates, reports), AppCall::Update) == updates,
        count_of(wake_calls(updates, reports), AppCall::Render) == 1,
        count_of(wake_calls(updates, reports), AppCall::OneSecUpdate) == reports,
{
    let ticks = repeated(AppCall::Update, updates);
    let draw = seq![AppCall::Render];
    let maintenance = repeated(AppCall::OneSecUpdate, reports);
    assert forall|call: AppCall|
        count_of(wake_calls(updates, reports), call) == count_of(ticks, call) + count_of(
            draw,
            call,
        ) + count_of(maintenance, call) by {
        lemma_count_concat(ticks, draw, call);
        lemma_count_concat(ticks + draw, maintenance, call);
    }
    assert forall|call: AppCall|
        count_of(draw, call) == if call == AppCall::Render {
            1nat
        } else {
            0nat
        } by {
        assert(draw =~= Seq::<AppCall>::empty().push(AppCall::Render));
        lemma_count_push(Seq::empty(), AppCall::Render, call);
    }
    assert forall|call: AppCall|
        count_of(ticks, call) == if call == AppCall::Update {
            updates
        } else {
            0
        } by {
        lemma_count_repeated(AppCall::Update, updates, call);
    }
    assert forall|call: AppCall|
        count_of(maintenance, call) == if call == AppCall::OneSecUpdate {
            reports
        } else {
            0
        } by {
        lemma_count_repeated(AppCall::OneSecUpdate, reports, call);
    }
}

} // verus!
