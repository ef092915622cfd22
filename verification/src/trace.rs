//! What holds of the runtime along every course of events.
//!
//! A course of events is a sequence of submissions, of units that finish or
//! are lost, of callers that stop waiting, and of teardowns, in any order. The
//! dispatch of a unit is under way in exactly the states in which the unit
//! holds the guard, so two dispatches overlap in time exactly where some state
//! has both units running.

use crate::exclusivity::{
    held_count, holders, lemma_admitted_exact, lemma_held_bound, lemma_in_rest,
    lemma_mutual_exclusion, lemma_position, lemma_release_moves_up, lemma_release_wf,
    lemma_request_grant, lemma_shared_hold_together, mode_for, position, AccessMode,
};
use crate::outcome::{CallOutcomeView, DispatchErrorView, RuntimeErrorView, ToolCallView};
use crate::runtime::{HandleView, RuntimeView};
use vstd::prelude::*;

verus! {

/// One thing that happens to a runtime.
pub ghost enum Event {
    /// A call is submitted.
    Submit { call: ToolCallView, parallel_safe: bool },
    /// A unit of work has finished its dispatch.
    Finish { ticket: u64, result: Result<CallOutcomeView, DispatchErrorView> },
    /// A unit of work has ended without a result.
    Lose { ticket: u64 },
    /// A caller has stopped waiting.
    Abandon { ticket: u64 },
    /// The runtime is torn down.
    Teardown,
}

/// Whether the event can happen in the state: a submission takes a well-formed
/// call and a ticket that was not issued before.
pub open spec fn enabled(s: RuntimeView, e: Event) -> bool {
    match e {
        Event::Submit { call, .. } => s.gate.issued < u64::MAX && call.well_formed(),
        _ => true,
    }
}

/// The state after the event.
pub open spec fn step(s: RuntimeView, e: Event) -> RuntimeView {
    match e {
        Event::Submit { call, parallel_safe } => s.submit(call, parallel_safe),
        Event::Finish { ticket, .. } => s.finish(ticket),
        Event::Lose { ticket } => s.leave(ticket),
        Event::Abandon { ticket } => s.abandon(ticket),
        Event::Teardown => s.teardown(),
    }
}

/// The state after the events, in their order.
pub open spec fn run(s: RuntimeView, events: Seq<Event>) -> RuntimeView
    decreases events.len(),
{
    if events.len() == 0 {
        s
    } else {
        step(run(s, events.drop_last()), events.last())
    }
}

/// Whether each of the events can happen in the state that the events before
/// it lead to.
pub open spec fn feasible(s: RuntimeView, events: Seq<Event>) -> bool
    decreases events.len(),
{
    events.len() == 0 || (feasible(s, events.drop_last()) && enabled(
        run(s, events.drop_last()),
        events.last(),
    ))
}

/// The access mode in which the unit with this ticket claimed the guard.
pub open spec fn mode_of(s: RuntimeView, ticket: u64) -> AccessMode {
    s.gate.line[position(s.gate.line, ticket)].mode
}

/// Every event leads from a valid state to a valid state.
pub proof fn lemma_step_wf(s: RuntimeView, e: Event)
    requires
        s.wf(),
        enabled(s, e),
    ensures
        step(s, e).wf(),
{
    match e {
        Event::Submit { call, parallel_safe } => {
            lemma_request_grant(s.gate, mode_for(parallel_safe));
        },
        Event::Finish { ticket, .. } => {
            lemma_leave_wf(s, ticket);
        },
        Event::Lose { ticket } => {
            lemma_leave_wf(s, ticket);
        },
        Event::Abandon { ticket } => {},
        Event::Teardown => {},
    }
}

/// A unit that leaves takes its claim and its handle with it, and the
/// registry goes on matching the line.
pub proof fn lemma_leave_wf(s: RuntimeView, ticket: u64)
    requires
        s.wf(),
    ensures
        s.leave(ticket).wf(),
{
    lemma_release_wf(s.gate, ticket);
    if s.registered(ticket) {
        let i = position(s.gate.line, ticket);
        let next = s.leave(ticket);
        assert forall|k: int| 0 <= k < next.pending.len() implies (#[trigger] next.pending[k]).ticket
            == next.gate.line[k].ticket by {
            let x = if k < i { k } else { k + 1 };
            assert(next.pending[k] == s.pending[x]);
            assert(next.gate.line[k] == s.gate.line[x]);
        }
    }
}

/// Every course of events from a valid state leads to a valid state.
pub proof fn lemma_run_wf(s: RuntimeView, events: Seq<Event>)
    requires
        s.wf(),
        feasible(s, events),
    ensures
        run(s, events).wf(),
    decreases events.len(),
{
    if events.len() > 0 {
        lemma_run_wf(s, events.drop_last());
        lemma_step_wf(run(s, events.drop_last()), events.last());
    }
}

/// Mutual exclusion. After any course of events, two units whose dispatches
/// are under way together are both shared: the dispatch of an exclusive call
/// overlaps with no other dispatch, shared or exclusive.
pub proof fn lemma_exclusive_runs_alone(sub_id: Seq<char>, events: Seq<Event>, a: u64, b: u64)
    requires
        feasible(RuntimeView::fresh(sub_id), events),
        run(RuntimeView::fresh(sub_id), events).running(a),
        run(RuntimeView::fresh(sub_id), events).running(b),
        a != b,
    ensures
        mode_of(run(RuntimeView::fresh(sub_id), events), a) == AccessMode::Shared,
        mode_of(run(RuntimeView::fresh(sub_id), events), b) == AccessMode::Shared,
{
    let s = run(RuntimeView::fresh(sub_id), events);
    lemma_run_wf(RuntimeView::fresh(sub_id), events);
    lemma_mutual_exclusion(s.gate.line);
    let i = position(s.gate.line, a);
    let j = position(s.gate.line, b);
    assert(s.gate.line[i].ticket == a);
    assert(s.gate.line[j].ticket == b);
    assert(i != j);
}

/// The units that are told to start are exactly those whose dispatch comes
/// under way: after a unit has left, a unit runs if and only if it ran before
/// and is not the one that left, or is among the started ones; and the
/// started ones waited before.
pub proof fn lemma_started_exactly(s: RuntimeView, leaving: u64, other: u64)
    requires
        s.wf(),
    ensures
        s.leave(leaving).running(other) <==> (s.running(other) && other != leaving)
            || s.started_by(leaving).contains(other),
        s.started_by(leaving).contains(other) ==> s.queued(other),
{
    lemma_admitted_exact(s.gate.line, leaving, other);
}

/// Parallelism. Where every unit in the registry is shared, a shared call that
/// is submitted starts at once, beside all the others, which go on running.
pub proof fn lemma_shared_calls_run_together(s: RuntimeView, call: ToolCallView)
    requires
        s.wf(),
        enabled(s, Event::Submit { call, parallel_safe: true }),
        forall|i: int|
            0 <= i < s.gate.line.len() ==> (#[trigger] s.gate.line[i]).mode == AccessMode::Shared,
    ensures
        s.submit(call, true).running(s.gate.issued as u64),
        forall|t: u64| s.registered(t) ==> s.running(t) && s.submit(call, true).running(t),
        held_count(s.submit(call, true).gate.line) == s.gate.line.len() + 1,
{
    lemma_request_grant(s.gate, AccessMode::Shared);
    lemma_shared_hold_together(s.gate.line);
    let next = s.submit(call, true).gate.line;
    assert forall|i: int| 0 <= i < next.len() implies (#[trigger] next[i]).mode
        == AccessMode::Shared by {
        if i < s.gate.line.len() {
            assert(next[i] == s.gate.line[i]);
        }
    }
    lemma_shared_hold_together(next);
}

/// While an exclusive call is in the line, running or waiting, no call that is
/// submitted starts at once, shared or exclusive. And a call that is
/// submitted to an empty line starts at once, whatever its mode.
pub proof fn lemma_exclusive_blocks_later_calls(
    s: RuntimeView,
    exclusive: u64,
    call: ToolCallView,
    parallel_safe: bool,
)
    requires
        s.wf(),
        enabled(s, Event::Submit { call, parallel_safe }),
    ensures
        s.registered(exclusive) && mode_of(s, exclusive) == AccessMode::Exclusive
            ==> !s.submit(call, parallel_safe).running(s.gate.issued as u64),
        s.gate.line.len() == 0 ==> s.submit(call, parallel_safe).running(s.gate.issued as u64),
{
    lemma_request_grant(s.gate, mode_for(parallel_safe));
}

/// No starvation. A unit that waits is not overtaken: a call that is
/// submitted later takes a place behind it and does not start while it waits,
/// whatever the modes. The number of units before it never grows, and falls by
/// one whenever one of them leaves. So a waiting unit at place `p` of the line
/// starts at the latest when the `p` units before it have left: no stream of
/// later submissions delays it.
pub proof fn lemma_waiting_is_not_overtaken(
    s: RuntimeView,
    waiting: u64,
    call: ToolCallView,
    parallel_safe: bool,
)
    requires
        s.wf(),
        s.queued(waiting),
        enabled(s, Event::Submit { call, parallel_safe }),
    ensures
        !s.submit(call, parallel_safe).running(s.gate.issued as u64),
        s.submit(call, parallel_safe).queued(waiting),
        position(s.submit(call, parallel_safe).gate.line, waiting) == position(
            s.gate.line,
            waiting,
        ),
        position(s.submit(call, parallel_safe).gate.line, s.gate.issued as u64)
            == s.gate.line.len(),
{
    let mode = mode_for(parallel_safe);
    lemma_request_grant(s.gate, mode);
    let next = s.submit(call, parallel_safe).gate.line;
    lemma_position(next, s.gate.issued as u64, s.gate.line.len() as int);
}

/// When a unit leaves, every unit that waits moves up by one place if the
/// leaving one stood before it, keeps its place otherwise, and starts once
/// no unit stands before it.
pub proof fn lemma_waiting_moves_up(s: RuntimeView, leaving: u64, waiting: u64)
    requires
        s.wf(),
        s.queued(waiting),
        waiting != leaving,
    ensures
        s.leave(leaving).registered(waiting),
        position(s.leave(leaving).gate.line, waiting) == if s.registered(leaving) && position(
            s.gate.line,
            leaving,
        ) < position(s.gate.line, waiting) {
            position(s.gate.line, waiting) - 1
        } else {
            position(s.gate.line, waiting)
        },
        position(s.leave(leaving).gate.line, waiting) == 0 ==> s.leave(leaving).running(waiting),
{
    lemma_release_moves_up(s.gate.line, leaving, waiting);
    lemma_held_bound(s.leave(leaving).gate.line);
}

/// Tickets are issued in growing order along every course of events.
pub proof fn lemma_issued_grows(s: RuntimeView, events: Seq<Event>)
    ensures
        run(s, events).gate.issued >= s.gate.issued,
    decreases events.len(),
{
    if events.len() > 0 {
        lemma_issued_grows(s, events.drop_last());
    }
}

/// A unit that is in the registry after an event was in it before, unless
/// the event is its own submission.
pub proof fn lemma_registered_before(s: RuntimeView, e: Event, ticket: u64)
    requires
        s.wf(),
        enabled(s, e),
        step(s, e).registered(ticket),
        ticket < s.gate.issued,
    ensures
        s.registered(ticket),
{
    let next = step(s, e);
    let i = position(next.gate.line, ticket);
    match e {
        Event::Submit { call, parallel_safe } => {
            assert(next.gate.line[i] == s.gate.line[i]);
        },
        Event::Finish { ticket: leaving, .. } => {
            if s.running(leaving) {
                lemma_in_rest(s.gate.line, leaving, i);
            }
        },
        Event::Lose { ticket: leaving } => {
            lemma_in_rest(s.gate.line, leaving, i);
        },
        Event::Abandon { ticket: other } => {},
        Event::Teardown => {},
    }
}

/// The bound on a wait. Let a unit be in the registry, at place `p` of the
/// line, and still be there after a course of events. Then its place has not
/// grown, and every unit that stands before it afterwards stood before it at
/// the start. A unit runs only while no unit before it waits, so the only
/// dispatches that can come before that of a waiting unit are those of the
/// `p` units that stood before it when it was submitted: under this policy
/// not one shared call that is submitted later is granted the guard before a
/// pending exclusive call.
pub proof fn lemma_only_earlier_units_come_first(s: RuntimeView, events: Seq<Event>, unit: u64)
    requires
        s.wf(),
        feasible(s, events),
        s.registered(unit),
        run(s, events).registered(unit),
    ensures
        position(run(s, events).gate.line, unit) <= position(s.gate.line, unit),
        forall|t: u64|
            run(s, events).registered(t) && position(run(s, events).gate.line, t) < position(
                run(s, events).gate.line,
                unit,
            ) ==> s.registered(t) && position(s.gate.line, t) < position(s.gate.line, unit),
        forall|t: u64|
            run(s, events).running(t) && run(s, events).queued(unit) ==> s.registered(t)
                && position(s.gate.line, t) < position(s.gate.line, unit),
    decreases events.len(),
{
    if events.len() > 0 {
        let mid = run(s, events.drop_last());
        let e = events.last();
        let fin = step(mid, e);
        lemma_run_wf(s, events.drop_last());
        lemma_step_wf(mid, e);
        lemma_issued_grows(s, events.drop_last());
        assert(s.gate.line[position(s.gate.line, unit)].ticket < s.gate.issued);
        lemma_registered_before(mid, e, unit);
        lemma_only_earlier_units_come_first(s, events.drop_last(), unit);
        lemma_place_after_step(mid, e, unit, unit);
        assert forall|t: u64|
            fin.registered(t) && position(fin.gate.line, t) < position(
                fin.gate.line,
                unit,
            ) implies s.registered(t) && position(s.gate.line, t) < position(
            s.gate.line,
            unit,
        ) by {
            lemma_place_after_step(mid, e, unit, t);
        }
    }
}

/// Across one event, a unit that stays in the registry does not fall back,
/// and a unit that stands before it afterwards stood before it already.
pub proof fn lemma_place_after_step(s: RuntimeView, e: Event, unit: u64, t: u64)
    requires
        s.wf(),
        enabled(s, e),
        s.registered(unit),
        step(s, e).registered(unit),
        step(s, e).registered(t),
        position(step(s, e).gate.line, t) <= position(step(s, e).gate.line, unit),
    ensures
        s.registered(t),
        position(s.gate.line, t) <= position(s.gate.line, unit),
        t != unit ==> position(s.gate.line, t) < position(s.gate.line, unit),
        position(step(s, e).gate.line, unit) <= position(s.gate.line, unit),
{
    let next = step(s, e);
    lemma_step_wf(s, e);
    let pu = position(s.gate.line, unit);
    match e {
        Event::Submit { call, parallel_safe } => {
            lemma_request_grant(s.gate, mode_for(parallel_safe));
            lemma_position(next.gate.line, s.gate.issued as u64, s.gate.line.len() as int);
            let q = position(next.gate.line, t);
            assert(next.gate.line[q] == s.gate.line[q]);
            lemma_position(s.gate.line, t, q);
        },
        Event::Finish { ticket: leaving, .. } => {
            if s.running(leaving) {
                lemma_place_after_leave(s, leaving, unit, t);
            }
        },
        Event::Lose { ticket: leaving } => {
            lemma_place_after_leave(s, leaving, unit, t);
        },
        Event::Abandon { ticket: other } => {},
        Event::Teardown => {},
    }
    if t != unit && position(s.gate.line, t) == pu {
        assert(s.gate.line[pu].ticket == unit);
    }
}

/// The same, where the event is a unit that leaves.
pub proof fn lemma_place_after_leave(s: RuntimeView, leaving: u64, unit: u64, t: u64)
    requires
        s.wf(),
        s.registered(unit),
        s.leave(leaving).registered(unit),
        s.leave(leaving).registered(t),
        position(s.leave(leaving).gate.line, t) <= position(s.leave(leaving).gate.line, unit),
    ensures
        s.registered(t),
        position(s.gate.line, t) <= position(s.gate.line, unit),
        position(s.leave(leaving).gate.line, unit) <= position(s.gate.line, unit),
{
    if s.registered(leaving) {
        let rest = s.leave(leaving).gate.line;
        lemma_in_rest(s.gate.line, leaving, position(rest, t));
        lemma_in_rest(s.gate.line, leaving, position(rest, unit));
        lemma_release_moves_up(s.gate.line, leaving, t);
        lemma_release_moves_up(s.gate.line, leaving, unit);
        let pt = position(s.gate.line, t);
        let pu = position(s.gate.line, unit);
        if pt > pu {
            assert(s.gate.line[pt].ticket == t);
            assert(s.gate.line[pu].ticket == unit);
        }
    }
}

/// A ticket that was issued and is not in the registry does not come back.
pub proof fn lemma_stays_gone(s: RuntimeView, events: Seq<Event>, ticket: u64)
    requires
        s.wf(),
        feasible(s, events),
        !s.registered(ticket),
        ticket < s.gate.issued,
    ensures
        !run(s, events).registered(ticket),
    decreases events.len(),
{
    if events.len() > 0 {
        let mid = run(s, events.drop_last());
        lemma_stays_gone(s, events.drop_last(), ticket);
        lemma_run_wf(s, events.drop_last());
        lemma_issued_grows(s, events.drop_last());
        if step(mid, events.last()).registered(ticket) {
            lemma_registered_before(mid, events.last(), ticket);
        }
    }
}

/// At most one reply. Once a unit has left, by finishing or by being lost, no
/// later event finds it in the registry: whatever is reported of it then, its
/// caller receives nothing more.
pub proof fn lemma_at_most_one_reply(
    s: RuntimeView,
    ticket: u64,
    events: Seq<Event>,
    result: Result<CallOutcomeView, DispatchErrorView>,
)
    requires
        s.wf(),
        s.registered(ticket),
        feasible(s.leave(ticket), events),
    ensures
        !run(s.leave(ticket), events).registered(ticket),
        run(s.leave(ticket), events).finish_reply(ticket, result) is None,
        run(s.leave(ticket), events).lose_reply(ticket) is None,
{
    let left = s.leave(ticket);
    lemma_leave_wf(s, ticket);
    if left.registered(ticket) {
        lemma_in_rest(s.gate.line, ticket, position(left.gate.line, ticket));
    }
    assert(s.gate.line[position(s.gate.line, ticket)].ticket < s.gate.issued);
    lemma_stays_gone(left, events, ticket);
}

/// Cancellation on teardown. Teardown cancels every unit in the registry;
/// every caller that still waits receives the lost-result failure under the
/// name of its call; and afterwards nothing holds the guard or waits for it.
pub proof fn lemma_teardown_cancels_all(s: RuntimeView, ticket: u64)
    requires
        s.wf(),
        s.registered(ticket),
    ensures
        holders(s.teardown().gate.line).len() == 0,
        s.teardown().gate.line.len() == 0,
        s.teardown().pending.len() == 0,
        s.teardown().wf(),
        s.cancelled_all().len() == s.pending.len(),
        s.cancelled_all()[position(s.gate.line, ticket)].ticket == ticket,
        s.outstanding(ticket) ==> s.cancelled_all()[position(s.gate.line, ticket)].reply == Some(
            RuntimeErrorView::LostResult {
                call_id: s.handle(ticket).call_id,
                tool_name: s.handle(ticket).tool_name,
            },
        ),
{
    lemma_held_bound(s.teardown().gate.line);
}

/// Teardown is final: a unit that teardown has cancelled is not found by any
/// later event, so the lost-result failure is the only thing that its caller
/// receives.
pub proof fn lemma_teardown_is_final(
    s: RuntimeView,
    events: Seq<Event>,
    ticket: u64,
    result: Result<CallOutcomeView, DispatchErrorView>,
)
    requires
        s.wf(),
        s.registered(ticket),
        feasible(s.teardown(), events),
    ensures
        !run(s.teardown(), events).registered(ticket),
        run(s.teardown(), events).finish_reply(ticket, result) is None,
        run(s.teardown(), events).lose_reply(ticket) is None,
{
    assert(s.gate.line[position(s.gate.line, ticket)].ticket < s.gate.issued);
    lemma_stays_gone(s.teardown(), events, ticket);
}

/// Fatal propagation. When the dispatch of a call whose caller waits ends in
/// a fatal failure, the caller receives a fatal error that names the call.
/// When it ends in any other failure, the caller receives an outcome that
/// carries the failure; and a success is handed on as it is.
pub proof fn lemma_failures_reach_the_caller(
    s: RuntimeView,
    ticket: u64,
    message: Seq<char>,
    outcome: CallOutcomeView,
)
    requires
        s.wf(),
        s.running(ticket),
        s.outstanding(ticket),
    ensures
        s.finish_reply(ticket, Err(DispatchErrorView::Fatal(message))) == Some(
            Err::<CallOutcomeView, RuntimeErrorView>(
                RuntimeErrorView::Fatal {
                    call_id: s.handle(ticket).call_id,
                    tool_name: s.handle(ticket).tool_name,
                    message,
                },
            ),
        ),
        s.finish_reply(ticket, Err(DispatchErrorView::NonFatal(message))) == Some(
            Ok::<CallOutcomeView, RuntimeErrorView>(
                CallOutcomeView::Failure { call_id: s.handle(ticket).call_id, message },
            ),
        ),
        s.finish_reply(ticket, Ok(outcome)) == Some(
            Ok::<CallOutcomeView, RuntimeErrorView>(outcome),
        ),
{
}

/// The handle of a submitted call carries the call's identifier and tool
/// name, and keeps them for as long as the unit is in the registry.
pub proof fn lemma_handle_names_its_call(s: RuntimeView, call: ToolCallView, parallel_safe: bool)
    requires
        s.wf(),
        enabled(s, Event::Submit { call, parallel_safe }),
    ensures
        s.submit(call, parallel_safe).registered(s.gate.issued as u64),
        s.submit(call, parallel_safe).handle(s.gate.issued as u64) == (HandleView {
            ticket: s.gate.issued as u64,
            call_id: call.call_id,
            tool_name: call.tool_name,
            awaited: true,
        }),
{
    lemma_request_grant(s.gate, mode_for(parallel_safe));
    let next = s.submit(call, parallel_safe);
    lemma_position(next.gate.line, s.gate.issued as u64, s.gate.line.len() as int);
}

/// No event changes the names that the handle of another unit carries.
pub proof fn lemma_handle_is_kept(s: RuntimeView, e: Event, ticket: u64)
    requires
        s.wf(),
        enabled(s, e),
        s.registered(ticket),
        step(s, e).registered(ticket),
    ensures
        step(s, e).handle(ticket).ticket == ticket,
        step(s, e).handle(ticket).call_id == s.handle(ticket).call_id,
        step(s, e).handle(ticket).tool_name == s.handle(ticket).tool_name,
{
    let next = step(s, e);
    let p = position(s.gate.line, ticket);
    lemma_step_wf(s, e);
    match e {
        Event::Submit { call, parallel_safe } => {
            assert(next.gate.line[p] == s.gate.line[p]);
            lemma_position(next.gate.line, ticket, p);
        },
        Event::Finish { ticket: leaving, .. } => {
            if s.running(leaving) {
                lemma_handle_after_leave(s, leaving, ticket);
            }
        },
        Event::Lose { ticket: leaving } => {
            lemma_handle_after_leave(s, leaving, ticket);
        },
        Event::Abandon { ticket: other } => {},
        Event::Teardown => {},
    }
}

/// A unit that stays when another leaves keeps its handle.
pub proof fn lemma_handle_after_leave(s: RuntimeView, leaving: u64, ticket: u64)
    requires
        s.wf(),
        s.registered(ticket),
        s.leave(leaving).registered(ticket),
    ensures
        s.leave(leaving).handle(ticket) == s.handle(ticket),
{
    if s.registered(leaving) {
        if ticket == leaving {
            lemma_leave_wf(s, leaving);
            let rest = s.leave(leaving).gate.line;
            lemma_in_rest(s.gate.line, leaving, position(rest, ticket));
        } else {
            lemma_release_moves_up(s.gate.line, leaving, ticket);
        }
    }
}

} // verus!
