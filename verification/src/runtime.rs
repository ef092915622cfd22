//! The tool call runtime of one turn, as a state machine.
//!
//! The runtime decides; its driver acts. The driver submits a call and learns
//! whether the call's unit of work may start its dispatch now. It reports when
//! a unit has finished its dispatch, or has ended without a result, and learns
//! which waiting units start in its place and what the caller of the call
//! receives. The dispatcher, the session and the turn context stay with the
//! driver: the runtime reads none of them.

use crate::exclusivity::{
    admitted, classify, holders, holds, in_line, mode_for, position, tickets_of, waiting, waits,
    AccessMode, Exclusivity, GateView,
};
use crate::outcome::{
    dispatch_view, lost_result, reply_view, resolve, resolved, CallOutcome, CallOutcomeView,
    DispatchError, DispatchErrorView, RuntimeError, RuntimeErrorView, ToolCall, ToolCallView,
};
use tokio::sync::oneshot::error::RecvError;
use vstd::prelude::*;

verus! {

/// `tokio::sync::oneshot::error::RecvError`: what the receiving end of a
/// result channel yields when the sending end was dropped without a value.
/// It holds nothing.
#[verifier::external_type_specification]
#[verifier::external_body]
pub struct ExRecvError(RecvError);

/// The registry's handle to one unit of work.
pub struct Handle {
    pub ticket: u64,
    pub call_id: String,
    pub tool_name: String,
    /// Whether the caller still waits for the result.
    pub awaited: bool,
}

/// What a `Handle` holds.
pub ghost struct HandleView {
    pub ticket: u64,
    pub call_id: Seq<char>,
    pub tool_name: Seq<char>,
    pub awaited: bool,
}

impl View for Handle {
    type V = HandleView;

    open spec fn view(&self) -> HandleView {
        HandleView {
            ticket: self.ticket,
            call_id: self.call_id@,
            tool_name: self.tool_name@,
            awaited: self.awaited,
        }
    }
}

/// What a submission is told at once.
#[derive(Clone, Copy, Debug, PartialEq, Eq, Structural)]
pub struct Admission {
    /// The ticket under which the unit of work is known from now on.
    pub ticket: u64,
    pub mode: AccessMode,
    /// Whether the unit holds the guard and starts its dispatch now.
    pub start: bool,
}

/// What follows when a unit of work has left.
#[derive(Debug)]
pub struct Settlement {
    /// What the caller of the call receives, if the caller still waits.
    pub reply: Option<Result<CallOutcome, RuntimeError>>,
    /// The units that hold the guard from now on and start their dispatch.
    pub started: Vec<u64>,
}

/// One unit of work that teardown has cancelled.
#[derive(Debug)]
pub struct Cancelled {
    pub ticket: u64,
    /// What the caller of the call receives, if the caller still waits.
    pub reply: Option<RuntimeError>,
}

/// What a `Cancelled` holds.
pub ghost struct CancelledView {
    pub ticket: u64,
    pub reply: Option<RuntimeErrorView>,
}

impl View for Cancelled {
    type V = CancelledView;

    open spec fn view(&self) -> CancelledView {
        CancelledView {
            ticket: self.ticket,
            reply: match self.reply {
                Some(error) => Some(error@),
                None => None,
            },
        }
    }
}

/// A reply that may be absent, by its view.
pub open spec fn delivery_view(reply: Option<Result<CallOutcome, RuntimeError>>) -> Option<
    Result<CallOutcomeView, RuntimeErrorView>,
> {
    match reply {
        Some(r) => Some(reply_view(r)),
        None => None,
    }
}

/// The failure that a caller receives whose unit of work left no result.
pub open spec fn lost(handle: HandleView) -> RuntimeErrorView {
    RuntimeErrorView::LostResult { call_id: handle.call_id, tool_name: handle.tool_name }
}

/// What teardown makes of one handle.
pub open spec fn cancelled(handle: HandleView) -> CancelledView {
    CancelledView {
        ticket: handle.ticket,
        reply: if handle.awaited {
            Some(lost(handle))
        } else {
            None
        },
    }
}

/// The state of a runtime: the exclusivity primitive and the registry of
/// pending work. The registry holds one handle for each claim in the line of
/// the primitive, in the same order.
pub ghost struct RuntimeView {
    pub sub_id: Seq<char>,
    pub gate: GateView,
    pub pending: Seq<HandleView>,
}

impl RuntimeView {
    pub open spec fn wf(self) -> bool {
        &&& self.gate.wf()
        &&& self.pending.len() == self.gate.line.len()
        &&& forall|i: int|
            0 <= i < self.pending.len() ==> (#[trigger] self.pending[i]).ticket
                == self.gate.line[i].ticket
    }

    /// A runtime that has spawned nothing yet.
    pub open spec fn fresh(sub_id: Seq<char>) -> RuntimeView {
        RuntimeView {
            sub_id,
            gate: GateView { line: Seq::empty(), issued: 0 },
            pending: Seq::empty(),
        }
    }

    /// Whether the unit with this ticket is in the registry.
    pub open spec fn registered(self, ticket: u64) -> bool {
        in_line(self.gate.line, ticket)
    }

    /// The handle of the unit with this ticket.
    pub open spec fn handle(self, ticket: u64) -> HandleView {
        self.pending[position(self.gate.line, ticket)]
    }

    /// Whether the unit with this ticket holds the guard, that is, whether its
    /// dispatch is under way.
    pub open spec fn running(self, ticket: u64) -> bool {
        holds(self.gate.line, ticket)
    }

    /// Whether the unit with this ticket waits for the guard.
    pub open spec fn queued(self, ticket: u64) -> bool {
        waits(self.gate.line, ticket)
    }

    /// Whether a caller waits for the result of the unit with this ticket.
    pub open spec fn outstanding(self, ticket: u64) -> bool {
        self.registered(ticket) && self.handle(ticket).awaited
    }

    /// The state after the unit of work of a call was spawned: the unit has
    /// claimed the guard in `mode`, under the next ticket, and its handle is
    /// the last in the registry.
    pub open spec fn spawn(self, call: ToolCallView, mode: AccessMode) -> RuntimeView {
        RuntimeView {
            sub_id: self.sub_id,
            gate: self.gate.request(mode),
            pending: self.pending.push(
                HandleView {
                    ticket: self.gate.issued as u64,
                    call_id: call.call_id,
                    tool_name: call.tool_name,
                    awaited: true,
                },
            ),
        }
    }

    /// The state after a call was submitted: its unit of work is spawned in
    /// the mode that the call is classified as.
    pub open spec fn submit(self, call: ToolCallView, parallel_safe: bool) -> RuntimeView {
        self.spawn(call, mode_for(parallel_safe))
    }

    /// The state after the unit with this ticket has left, with its claim and
    /// its handle.
    pub open spec fn leave(self, ticket: u64) -> RuntimeView {
        if self.registered(ticket) {
            RuntimeView {
                sub_id: self.sub_id,
                gate: self.gate.release(ticket),
                pending: self.pending.remove(position(self.gate.line, ticket)),
            }
        } else {
            self
        }
    }

    /// The units that start their dispatch when the unit with this ticket leaves.
    pub open spec fn started_by(self, ticket: u64) -> Seq<u64> {
        tickets_of(admitted(self.gate.line, ticket))
    }

    /// The state after the unit with this ticket has finished its dispatch.
    /// Only a unit that holds the guard can finish.
    pub open spec fn finish(self, ticket: u64) -> RuntimeView {
        if self.running(ticket) {
            self.leave(ticket)
        } else {
            self
        }
    }

    /// What the caller receives when the unit with this ticket finishes with
    /// `result`. Nothing is delivered to a caller that no longer waits.
    pub open spec fn finish_reply(
        self,
        ticket: u64,
        result: Result<CallOutcomeView, DispatchErrorView>,
    ) -> Option<Result<CallOutcomeView, RuntimeErrorView>> {
        if self.running(ticket) && self.handle(ticket).awaited {
            Some(resolved(self.handle(ticket).call_id, self.handle(ticket).tool_name, result))
        } else {
            None
        }
    }

    /// What the caller receives when the unit with this ticket ends without a
    /// result.
    pub open spec fn lose_reply(self, ticket: u64) -> Option<
        Result<CallOutcomeView, RuntimeErrorView>,
    > {
        if self.outstanding(ticket) {
            Some(Err(lost(self.handle(ticket))))
        } else {
            None
        }
    }

    /// The state after the caller of the unit with this ticket has stopped
    /// waiting.
    pub open spec fn abandon(self, ticket: u64) -> RuntimeView {
        if self.registered(ticket) {
            RuntimeView {
                sub_id: self.sub_id,
                gate: self.gate,
                pending: self.pending.update(
                    position(self.gate.line, ticket),
                    HandleView { awaited: false, ..self.handle(ticket) },
                ),
            }
        } else {
            self
        }
    }

    /// The state after teardown: nothing pending, the guard unheld.
    pub open spec fn teardown(self) -> RuntimeView {
        RuntimeView { sub_id: self.sub_id, gate: self.gate.clear(), pending: Seq::empty() }
    }

    /// What teardown cancels: every unit in the registry, in its order.
    pub open spec fn cancelled_all(self) -> Seq<CancelledView> {
        Seq::new(self.pending.len(), |i: int| cancelled(self.pending[i]))
    }
}

/// The views of the handles, in order.
pub open spec fn handle_views(handles: Seq<Handle>) -> Seq<HandleView> {
    Seq::new(handles.len(), |i: int| handles[i]@)
}

/// The views of what teardown cancelled, in order.
pub open spec fn cancelled_views(items: Seq<Cancelled>) -> Seq<CancelledView> {
    Seq::new(items.len(), |i: int| items[i]@)
}

/// What the caller of a call receives from its result channel: the reply that
/// was posted, or the lost-result failure where the channel was closed
/// without one.
pub fn receive(
    handed_over: Result<Result<CallOutcome, RuntimeError>, RecvError>,
    call_id: String,
    tool_name: String,
) -> (r: Result<CallOutcome, RuntimeError>)
    ensures
        reply_view(r) == match handed_over {
            Ok(reply) => reply_view(reply),
            Err(_) => Err(RuntimeErrorView::LostResult { call_id: call_id@, tool_name: tool_name@ }),
        },
{
    match handed_over {
        Ok(reply) => reply,
        Err(_) => Err(lost_result(call_id, tool_name)),
    }
}

/// The tool call runtime of one turn.
pub struct ToolCallRuntime {
    sub_id: String,
    lock: Exclusivity,
    pending_calls: Vec<Handle>,
}

impl View for ToolCallRuntime {
    type V = RuntimeView;

    closed spec fn view(&self) -> RuntimeView {
        RuntimeView {
            sub_id: self.sub_id@,
            gate: self.lock@,
            pending: handle_views(self.pending_calls@),
        }
    }
}

impl ToolCallRuntime {
    /// A runtime for the turn of the given submission: an unheld exclusivity
    /// primitive and an empty registry.
    pub fn new(sub_id: String) -> (rt: Self)
        ensures
            rt@ == RuntimeView::fresh(sub_id@),
            rt@.wf(),
    {
        let rt = ToolCallRuntime { sub_id, lock: Exclusivity::new(), pending_calls: Vec::new() };
        assert(rt@.pending =~= Seq::empty());
        rt
    }

    /// The identifier of the submission that the turn belongs to.
    pub fn sub_id(&self) -> (r: &str)
        ensures
            r@ == self@.sub_id,
    {
        self.sub_id.as_str()
    }

    /// Whether another call can be submitted: tickets are not used twice.
    pub fn can_submit(&self) -> (r: bool)
        ensures
            r == (self@.gate.issued < u64::MAX),
    {
        self.lock.has_tickets()
    }

    /// How many units of work the registry holds.
    pub fn pending_len(&self) -> (n: usize)
        ensures
            n == self@.pending.len(),
    {
        self.pending_calls.len()
    }

    /// Whether the dispatch of the unit with this ticket is under way.
    pub fn is_running(&self, ticket: u64) -> (r: bool)
        requires
            self@.wf(),
        ensures
            r == self@.running(ticket),
    {
        self.lock.is_held_by(ticket)
    }

    /// How many units stand before the unit with this ticket in the line of
    /// the exclusivity primitive, if the unit is in the registry.
    pub fn place_of(&self, ticket: u64) -> (r: Option<usize>)
        requires
            self@.wf(),
        ensures
            r is Some == self@.registered(ticket),
            r matches Some(place) ==> place == position(self@.gate.line, ticket),
    {
        self.lock.find(ticket)
    }

    /// Whether nothing holds the exclusivity primitive.
    pub fn is_unheld(&self) -> (r: bool)
        ensures
            r == (holders(self@.gate.line).len() == 0),
    {
        self.lock.is_unheld()
    }

    /// The tickets of the units whose dispatch is under way.
    pub fn running_tickets(&self) -> (r: Vec<u64>)
        ensures
            r@ == tickets_of(holders(self@.gate.line)),
    {
        self.lock.holder_tickets()
    }

    /// The tickets of the units that wait for the guard, the next to start first.
    pub fn queued_tickets(&self) -> (r: Vec<u64>)
        ensures
            r@ == tickets_of(waiting(self@.gate.line)),
    {
        self.lock.waiting_tickets()
    }

    /// Submits a call: classifies it, spawns its unit of work, which claims
    /// the guard in the call's mode, and registers the unit's handle.
    pub fn handle_tool_call(&mut self, call: &ToolCall, parallel_safe: bool) -> (r: Admission)
        requires
            old(self)@.wf(),
            old(self)@.gate.issued < u64::MAX,
            call@.well_formed(),
        ensures
            final(self)@ == old(self)@.submit(call@, parallel_safe),
            final(self)@.wf(),
            r.ticket == old(self)@.gate.issued,
            r.mode == mode_for(parallel_safe),
            r.start == final(self)@.running(r.ticket),
    {
        let mode = classify(parallel_safe);
        self.spawn(call, mode)
    }

    /// Spawns the unit of work of a call: the unit claims the guard in `mode`,
    /// and its handle goes into the registry.
    pub fn spawn(&mut self, call: &ToolCall, mode: AccessMode) -> (r: Admission)
        requires
            old(self)@.wf(),
            old(self)@.gate.issued < u64::MAX,
        ensures
            final(self)@ == old(self)@.spawn(call@, mode),
            final(self)@.wf(),
            r.ticket == old(self)@.gate.issued,
            r.mode == mode,
            r.start == final(self)@.running(r.ticket),
    {
        let (ticket, start) = self.lock.request(mode);
        self.pending_calls.push(
            Handle {
                ticket,
                call_id: call.call_id.clone(),
                tool_name: call.tool_name.clone(),
                awaited: true,
            },
        );
        assert(self@.pending =~= old(self)@.spawn(call@, mode).pending);
        Admission { ticket, mode, start }
    }

    /// Takes the unit at place `i` out of the registry and out of the line.
    fn take_out(&mut self, i: usize, ticket: u64) -> (r: (Handle, Vec<u64>))
        requires
            old(self)@.wf(),
            old(self)@.registered(ticket),
            i == position(old(self)@.gate.line, ticket),
        ensures
            final(self)@ == old(self)@.leave(ticket),
            final(self)@.wf(),
            r.0@ == old(self)@.handle(ticket),
            r.1@ == old(self)@.started_by(ticket),
    {
        let handle = self.pending_calls.remove(i);
        let started = self.lock.release(ticket);
        assert(self@.pending =~= old(self)@.leave(ticket).pending);
        (handle, started)
    }

    /// The unit with this ticket has finished its dispatch with `result`: the
    /// result is posted to the caller, if the caller still waits, and the
    /// guard is released. For a unit that does not hold the guard nothing
    /// changes.
    pub fn finish(&mut self, ticket: u64, result: Result<CallOutcome, DispatchError>) -> (r:
        Settlement)
        requires
            old(self)@.wf(),
        ensures
            final(self)@ == old(self)@.finish(ticket),
            final(self)@.wf(),
            delivery_view(r.reply) == old(self)@.finish_reply(ticket, dispatch_view(result)),
            r.started@ == if old(self)@.running(ticket) {
                old(self)@.started_by(ticket)
            } else {
                Seq::empty()
            },
    {
        let held = self.lock.held();
        match self.lock.find(ticket) {
            Some(i) => {
                if i < held {
                    let (handle, started) = self.take_out(i, ticket);
                    let reply = if handle.awaited {
                        Some(resolve(handle.call_id, handle.tool_name, result))
                    } else {
                        None
                    };
                    Settlement { reply, started }
                } else {
                    Settlement { reply: None, started: Vec::new() }
                }
            },
            None => Settlement { reply: None, started: Vec::new() },
        }
    }

    /// The unit with this ticket has ended without posting a result, because
    /// it panicked or was cancelled: its claim leaves the line, whether it
    /// held the guard or waited for it, and a caller that still waits receives
    /// the lost-result failure.
    pub fn lose(&mut self, ticket: u64) -> (r: Settlement)
        requires
            old(self)@.wf(),
        ensures
            final(self)@ == old(self)@.leave(ticket),
            final(self)@.wf(),
            delivery_view(r.reply) == old(self)@.lose_reply(ticket),
            r.started@ == old(self)@.started_by(ticket),
    {
        match self.lock.find(ticket) {
            Some(i) => {
                let (handle, started) = self.take_out(i, ticket);
                let reply = if handle.awaited {
                    Some(Err(lost_result(handle.call_id, handle.tool_name)))
                } else {
                    None
                };
                Settlement { reply, started }
            },
            None => {
                let started = self.lock.release(ticket);
                Settlement { reply: None, started }
            },
        }
    }

    /// The caller of the unit with this ticket has stopped waiting. The unit
    /// goes on; what it posts later is dropped.
    pub fn abandon(&mut self, ticket: u64)
        requires
            old(self)@.wf(),
        ensures
            final(self)@ == old(self)@.abandon(ticket),
            final(self)@.wf(),
    {
        match self.lock.find(ticket) {
            Some(i) => {
                let handle = self.pending_calls.remove(i);
                self.pending_calls.insert(
                    i,
                    Handle {
                        ticket: handle.ticket,
                        call_id: handle.call_id,
                        tool_name: handle.tool_name,
                        awaited: false,
                    },
                );
                assert(self@.pending =~= old(self)@.abandon(ticket).pending);
            },
            None => {},
        }
    }

    /// Tears the runtime down: every unit in the registry is cancelled, every
    /// caller that still waits receives the lost-result failure, and nothing
    /// holds the guard afterwards.
    pub fn teardown(&mut self) -> (r: Vec<Cancelled>)
        requires
            old(self)@.wf(),
        ensures
            final(self)@ == old(self)@.teardown(),
            final(self)@.wf(),
            cancelled_views(r@) == old(self)@.cancelled_all(),
    {
        let mut handles: Vec<Handle> = Vec::new();
        std::mem::swap(&mut handles, &mut self.pending_calls);
        self.lock.clear();
        assert(self@.pending =~= Seq::empty());
        let mut out: Vec<Cancelled> = Vec::new();
        let ghost all = handles@;
        for handle in it: handles
            invariant
                it.seq() == all,
                out@.len() == it.index(),
                forall|j: int| 0 <= j < out@.len() ==> (#[trigger] out@[j])@ == cancelled(all[j]@),
        {
            let reply = if handle.awaited {
                Some(lost_result(handle.call_id, handle.tool_name))
            } else {
                None
            };
            out.push(Cancelled { ticket: handle.ticket, reply });
        }
        assert(cancelled_views(out@) =~= old(self)@.cancelled_all());
        out
    }
}

} // verus!
