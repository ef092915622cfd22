use codex_core::exclusivity::AccessMode;
use codex_core::outcome::{
    lost_result, resolve, CallOutcome, DispatchError, RuntimeError, ToolCall,
};
use codex_core::runtime::{receive, ToolCallRuntime};
use tokio::sync::oneshot;

fn call(tool: &str, id: &str) -> ToolCall {
    ToolCall { tool_name: tool.to_string(), call_id: id.to_string(), payload: "{}".to_string() }
}

fn output(id: &str, content: &str) -> CallOutcome {
    CallOutcome::Output { call_id: id.to_string(), content: content.to_string() }
}

fn lost(tool: &str, id: &str) -> RuntimeError {
    RuntimeError::LostResult { call_id: id.to_string(), tool_name: tool.to_string() }
}

/// One dispatch as the harness saw it.
#[derive(Clone, Copy, Debug, PartialEq, Eq)]
struct Window {
    ticket: u64,
    mode: AccessMode,
    start: u64,
    end: u64,
}

fn overlap(a: &Window, b: &Window) -> bool {
    a.start < b.end && b.start < a.end
}

/// Submits the calls at time 0 in the given order, lets every dispatch take
/// its duration, and returns the windows by ticket.
fn simulate(calls: &[(bool, u64)]) -> Vec<Window> {
    let mut rt = ToolCallRuntime::new("sub-1".to_string());
    let mut windows: Vec<Option<Window>> = vec![None; calls.len()];
    let mut running: Vec<(u64, u64)> = Vec::new();
    for (i, (parallel_safe, duration)) in calls.iter().enumerate() {
        let admission = rt.handle_tool_call(&call("tool", &format!("call-{}", i)), *parallel_safe);
        assert_eq!(admission.ticket, i as u64);
        if admission.start {
            running.push((*duration, admission.ticket));
            windows[i] = Some(Window { ticket: admission.ticket, mode: admission.mode, start: 0, end: *duration });
        }
    }
    while !running.is_empty() {
        running.sort();
        let (now, ticket) = running.remove(0);
        let id = format!("call-{}", ticket);
        let settlement = rt.finish(ticket, Ok(output(&id, "done")));
        assert_eq!(settlement.reply, Some(Ok(output(&id, "done"))));
        for started in settlement.started {
            let (parallel_safe, duration) = calls[started as usize];
            let mode = if parallel_safe { AccessMode::Shared } else { AccessMode::Exclusive };
            running.push((now + duration, started));
            windows[started as usize] = Some(Window { ticket: started, mode, start: now, end: now + duration });
        }
        let holders = rt.running_tickets();
        let mut expected: Vec<u64> = running.iter().map(|r| r.1).collect();
        expected.sort();
        assert_eq!(holders, expected);
    }
    assert!(rt.is_unheld());
    assert_eq!(rt.pending_len(), 0);
    windows.into_iter().map(|w| w.unwrap()).collect()
}

fn assert_exclusive_windows_are_alone(windows: &[Window]) {
    for a in windows {
        for b in windows {
            if a.ticket != b.ticket && a.mode == AccessMode::Exclusive {
                assert!(!overlap(a, b), "{:?} overlaps {:?}", a, b);
            }
        }
    }
}

#[test]
fn a_new_runtime_is_unheld_and_empty() {
    let rt = ToolCallRuntime::new("sub-7".to_string());
    assert_eq!(rt.sub_id(), "sub-7");
    assert!(rt.is_unheld());
    assert_eq!(rt.pending_len(), 0);
    assert!(rt.can_submit());
    assert!(rt.running_tickets().is_empty());
    assert!(rt.queued_tickets().is_empty());
}

#[test]
fn well_formed_calls_name_their_tool_and_carry_an_id() {
    assert!(call("shell", "c1").is_well_formed());
    assert!(!call("", "c1").is_well_formed());
    assert!(!call("shell", "").is_well_formed());
}

#[test]
fn exclusive_first_delays_both_shared_calls_until_it_releases() {
    let windows = simulate(&[(false, 100), (true, 50), (true, 50)]);
    assert_eq!(windows[0], Window { ticket: 0, mode: AccessMode::Exclusive, start: 0, end: 100 });
    assert_eq!(windows[1], Window { ticket: 1, mode: AccessMode::Shared, start: 100, end: 150 });
    assert_eq!(windows[2], Window { ticket: 2, mode: AccessMode::Shared, start: 100, end: 150 });
    assert!(overlap(&windows[1], &windows[2]));
    assert_exclusive_windows_are_alone(&windows);
}

#[test]
fn shared_first_complete_together_and_the_exclusive_call_follows() {
    let windows = simulate(&[(true, 50), (true, 50), (false, 100)]);
    assert_eq!(windows[0], Window { ticket: 0, mode: AccessMode::Shared, start: 0, end: 50 });
    assert_eq!(windows[1], Window { ticket: 1, mode: AccessMode::Shared, start: 0, end: 50 });
    assert_eq!(windows[2], Window { ticket: 2, mode: AccessMode::Exclusive, start: 50, end: 150 });
    assert!(overlap(&windows[0], &windows[1]));
    assert_exclusive_windows_are_alone(&windows);
}

#[test]
fn an_exclusive_call_between_two_shared_calls_parts_them() {
    let windows = simulate(&[(true, 50), (false, 100), (true, 50)]);
    assert_eq!(windows[0].end, 50);
    assert_eq!((windows[1].start, windows[1].end), (50, 150));
    assert_eq!((windows[2].start, windows[2].end), (150, 200));
    assert_exclusive_windows_are_alone(&windows);
}

#[test]
fn shared_calls_overlap_when_no_exclusive_call_is_pending() {
    let windows = simulate(&[(true, 30), (true, 40), (true, 50), (true, 60)]);
    for a in &windows {
        assert_eq!(a.start, 0);
        for b in &windows {
            assert!(overlap(a, b));
        }
    }
}

#[test]
fn exclusive_calls_run_one_after_the_other_in_submission_order() {
    let windows = simulate(&[(false, 10), (false, 20), (false, 30)]);
    assert_eq!((windows[0].start, windows[0].end), (0, 10));
    assert_eq!((windows[1].start, windows[1].end), (10, 30));
    assert_eq!((windows[2].start, windows[2].end), (30, 60));
    assert_exclusive_windows_are_alone(&windows);
}

#[test]
fn no_exclusive_window_overlaps_another_in_generated_interleavings() {
    let mut seed: u64 = 0x9e3779b97f4a7c15;
    let mut round: u32 = 0;
    while round < 200 {
        let mut calls: Vec<(bool, u64)> = Vec::new();
        let mut k: u32 = 0;
        while k < 12 {
            seed = seed.wrapping_mul(6364136223846793005).wrapping_add(1442695040888963407);
            let parallel_safe = (seed >> 33) % 3 != 0;
            let duration = 1 + (seed >> 40) % 97;
            calls.push((parallel_safe, duration));
            k += 1;
        }
        let windows = simulate(&calls);
        assert_exclusive_windows_are_alone(&windows);
        for w in &windows {
            for earlier in &windows {
                if earlier.ticket < w.ticket {
                    assert!(earlier.start <= w.start, "{:?} overtook {:?}", w, earlier);
                }
            }
        }
        round += 1;
    }
}

#[test]
fn a_stream_of_shared_calls_does_not_delay_a_pending_exclusive_call() {
    let mut rt = ToolCallRuntime::new("sub-1".to_string());
    let first = rt.handle_tool_call(&call("read", "r0"), true);
    let second = rt.handle_tool_call(&call("read", "r1"), true);
    let exclusive = rt.handle_tool_call(&call("apply_patch", "x"), false);
    assert!(first.start && second.start && !exclusive.start);
    let mut later: Vec<u64> = Vec::new();
    let mut i: u32 = 0;
    while i < 100 {
        let admission = rt.handle_tool_call(&call("read", &format!("s{}", i)), true);
        assert!(!admission.start);
        later.push(admission.ticket);
        i += 1;
    }
    assert_eq!(rt.running_tickets(), vec![0, 1]);
    assert_eq!(rt.queued_tickets()[0], exclusive.ticket);
    assert_eq!(rt.place_of(exclusive.ticket), Some(2));
    assert_eq!(rt.place_of(later[99]), Some(102));
    assert_eq!(rt.place_of(500), None);
    assert_eq!(rt.finish(0, Ok(output("r0", ""))).started, Vec::<u64>::new());
    assert_eq!(rt.place_of(exclusive.ticket), Some(1));
    // Two shared grants stood before the exclusive call; with the second
    // release it starts, before every one of the hundred later calls.
    assert_eq!(rt.finish(1, Ok(output("r1", ""))).started, vec![exclusive.ticket]);
    assert_eq!(rt.running_tickets(), vec![exclusive.ticket]);
    assert_eq!(rt.place_of(exclusive.ticket), Some(0));
    assert_eq!(rt.finish(exclusive.ticket, Ok(output("x", ""))).started, later);
}

#[test]
fn repeated_exclusive_calls_do_not_starve_a_pending_shared_call() {
    let mut rt = ToolCallRuntime::new("sub-1".to_string());
    rt.handle_tool_call(&call("apply_patch", "x0"), false);
    let shared = rt.handle_tool_call(&call("read", "r"), true);
    let next = rt.handle_tool_call(&call("apply_patch", "x1"), false);
    assert_eq!(rt.finish(0, Ok(output("x0", ""))).started, vec![shared.ticket]);
    assert!(rt.is_running(shared.ticket));
    assert!(!rt.is_running(next.ticket));
}

#[test]
fn a_dispatch_that_panics_yields_the_lost_result_and_leaves_the_guard_unheld() {
    let mut rt = ToolCallRuntime::new("sub-1".to_string());
    let admission = rt.handle_tool_call(&call("shell", "boom"), false);
    assert!(admission.start);
    let settlement = rt.lose(admission.ticket);
    assert_eq!(settlement.reply, Some(Err(lost("shell", "boom"))));
    assert_eq!(settlement.started, Vec::<u64>::new());
    assert!(rt.is_unheld());
    assert_eq!(rt.pending_len(), 0);
    match settlement.reply {
        Some(Err(error)) => {
            assert_eq!(error.message(), "tool task failed to receive");
            assert_eq!(error.call_id(), "boom");
        }
        _ => unreachable!(),
    }
}

#[test]
fn a_lost_exclusive_unit_lets_the_waiting_units_start() {
    let mut rt = ToolCallRuntime::new("sub-1".to_string());
    rt.handle_tool_call(&call("shell", "a"), false);
    rt.handle_tool_call(&call("read", "b"), true);
    rt.handle_tool_call(&call("read", "c"), true);
    let settlement = rt.lose(0);
    assert_eq!(settlement.started, vec![1, 2]);
    assert_eq!(rt.running_tickets(), vec![1, 2]);
}

#[test]
fn a_unit_that_is_lost_while_it_waits_leaves_the_line() {
    let mut rt = ToolCallRuntime::new("sub-1".to_string());
    rt.handle_tool_call(&call("read", "a"), true);
    rt.handle_tool_call(&call("shell", "b"), false);
    rt.handle_tool_call(&call("read", "c"), true);
    let settlement = rt.lose(1);
    assert_eq!(settlement.reply, Some(Err(lost("shell", "b"))));
    assert_eq!(settlement.started, vec![2]);
    assert_eq!(rt.running_tickets(), vec![0, 2]);
}

#[test]
fn teardown_resolves_every_outstanding_call_with_the_lost_result() {
    let mut rt = ToolCallRuntime::new("sub-1".to_string());
    rt.handle_tool_call(&call("read", "a"), true);
    rt.handle_tool_call(&call("shell", "b"), false);
    rt.handle_tool_call(&call("read", "c"), true);
    rt.abandon(2);
    let cancelled = rt.teardown();
    assert_eq!(cancelled.len(), 3);
    assert_eq!(cancelled[0].ticket, 0);
    assert_eq!(cancelled[0].reply, Some(lost("read", "a")));
    assert_eq!(cancelled[1].ticket, 1);
    assert_eq!(cancelled[1].reply, Some(lost("shell", "b")));
    assert_eq!(cancelled[2].ticket, 2);
    assert_eq!(cancelled[2].reply, None);
    assert!(rt.is_unheld());
    assert_eq!(rt.pending_len(), 0);
    assert!(rt.queued_tickets().is_empty());
}

#[test]
fn after_teardown_late_reports_change_nothing() {
    let mut rt = ToolCallRuntime::new("sub-1".to_string());
    rt.handle_tool_call(&call("shell", "a"), false);
    rt.teardown();
    let settlement = rt.finish(0, Ok(output("a", "late")));
    assert_eq!(settlement.reply, None);
    assert_eq!(settlement.started, Vec::<u64>::new());
    let settlement = rt.lose(0);
    assert_eq!(settlement.reply, None);
    assert!(rt.is_unheld());
}

#[test]
fn teardown_of_an_idle_runtime_cancels_nothing() {
    let mut rt = ToolCallRuntime::new("sub-1".to_string());
    assert!(rt.teardown().is_empty());
    assert!(rt.is_unheld());
}

#[test]
fn a_fatal_failure_ends_the_turn_under_the_name_of_the_call() {
    let mut rt = ToolCallRuntime::new("sub-1".to_string());
    let admission = rt.handle_tool_call(&call("shell", "X"), false);
    let settlement =
        rt.finish(admission.ticket, Err(DispatchError::Fatal("disk is gone".to_string())));
    let expected = RuntimeError::Fatal {
        call_id: "X".to_string(),
        tool_name: "shell".to_string(),
        message: "disk is gone".to_string(),
    };
    assert_eq!(expected.message(), "disk is gone");
    assert_eq!(expected.call_id(), "X");
    assert_eq!(settlement.reply, Some(Err(expected)));
    assert!(rt.is_unheld());
}

#[test]
fn a_failure_that_is_not_fatal_comes_back_as_an_outcome() {
    let mut rt = ToolCallRuntime::new("sub-1".to_string());
    let admission = rt.handle_tool_call(&call("shell", "X"), false);
    let settlement =
        rt.finish(admission.ticket, Err(DispatchError::NonFatal("bad arguments".to_string())));
    assert_eq!(
        settlement.reply,
        Some(Ok(CallOutcome::Failure {
            call_id: "X".to_string(),
            message: "bad arguments".to_string()
        }))
    );
    assert!(rt.is_unheld());
}

#[test]
fn a_success_is_handed_on_as_it_is() {
    let mut rt = ToolCallRuntime::new("sub-1".to_string());
    let admission = rt.handle_tool_call(&call("read", "r"), true);
    let failure = CallOutcome::Failure { call_id: "other".to_string(), message: "m".to_string() };
    assert_eq!(rt.finish(admission.ticket, Ok(failure.clone())).reply, Some(Ok(failure)));
}

#[test]
fn resolve_maps_each_kind_of_result() {
    assert_eq!(
        resolve("X".to_string(), "t".to_string(), Ok(output("X", "o"))),
        Ok(output("X", "o"))
    );
    assert_eq!(
        resolve("X".to_string(), "t".to_string(), Err(DispatchError::Fatal("f".to_string()))),
        Err(RuntimeError::Fatal {
            call_id: "X".to_string(),
            tool_name: "t".to_string(),
            message: "f".to_string()
        })
    );
    assert_eq!(
        resolve("X".to_string(), "t".to_string(), Err(DispatchError::NonFatal("n".to_string()))),
        Ok(CallOutcome::Failure { call_id: "X".to_string(), message: "n".to_string() })
    );
    assert_eq!(lost_result("X".to_string(), "t".to_string()), lost("t", "X"));
}

#[test]
fn a_result_for_an_abandoned_caller_is_dropped_without_a_panic() {
    let mut rt = ToolCallRuntime::new("sub-1".to_string());
    let first = rt.handle_tool_call(&call("shell", "a"), false);
    let second = rt.handle_tool_call(&call("read", "b"), true);
    rt.abandon(first.ticket);
    rt.abandon(99);
    assert!(rt.is_running(first.ticket));
    let settlement = rt.finish(first.ticket, Ok(output("a", "unseen")));
    assert_eq!(settlement.reply, None);
    assert_eq!(settlement.started, vec![second.ticket]);
    assert_eq!(rt.running_tickets(), vec![second.ticket]);
}

#[test]
fn a_closed_result_channel_yields_the_lost_result() {
    let (tx, rx) = oneshot::channel::<Result<CallOutcome, RuntimeError>>();
    drop(tx);
    assert_eq!(
        receive(rx.blocking_recv(), "X".to_string(), "shell".to_string()),
        Err(lost("shell", "X"))
    );
}

#[test]
fn a_posted_reply_is_received_as_it_is() {
    let (tx, rx) = oneshot::channel::<Result<CallOutcome, RuntimeError>>();
    assert!(tx.send(Ok(output("X", "fine"))).is_ok());
    assert_eq!(
        receive(rx.blocking_recv(), "X".to_string(), "shell".to_string()),
        Ok(output("X", "fine"))
    );
    let (tx, rx) = oneshot::channel::<Result<CallOutcome, RuntimeError>>();
    let fatal = RuntimeError::Fatal {
        call_id: "X".to_string(),
        tool_name: "shell".to_string(),
        message: "m".to_string(),
    };
    assert!(tx.send(Err(fatal.clone())).is_ok());
    assert_eq!(receive(rx.blocking_recv(), "Y".to_string(), "other".to_string()), Err(fatal));
}

#[test]
fn a_second_report_of_the_same_unit_is_ignored() {
    let mut rt = ToolCallRuntime::new("sub-1".to_string());
    let admission = rt.handle_tool_call(&call("read", "a"), true);
    assert_eq!(rt.finish(admission.ticket, Ok(output("a", "1"))).reply, Some(Ok(output("a", "1"))));
    assert_eq!(rt.finish(admission.ticket, Ok(output("a", "2"))).reply, None);
    assert_eq!(rt.lose(admission.ticket).reply, None);
    let next = rt.handle_tool_call(&call("read", "b"), true);
    assert_eq!(next.ticket, 1);
}

#[test]
fn a_unit_that_waits_cannot_finish() {
    let mut rt = ToolCallRuntime::new("sub-1".to_string());
    rt.handle_tool_call(&call("shell", "a"), false);
    let waiting = rt.handle_tool_call(&call("shell", "b"), false);
    let settlement = rt.finish(waiting.ticket, Ok(output("b", "early")));
    assert_eq!(settlement.reply, None);
    assert_eq!(settlement.started, Vec::<u64>::new());
    assert_eq!(rt.pending_len(), 2);
    assert_eq!(rt.queued_tickets(), vec![waiting.ticket]);
}

#[test]
fn spawn_takes_the_mode_as_it_is_given() {
    let mut rt = ToolCallRuntime::new("sub-1".to_string());
    let a = rt.spawn(&call("read", "a"), AccessMode::Shared);
    let b = rt.spawn(&call("shell", "b"), AccessMode::Exclusive);
    assert_eq!((a.ticket, a.mode, a.start), (0, AccessMode::Shared, true));
    assert_eq!((b.ticket, b.mode, b.start), (1, AccessMode::Exclusive, false));
}

#[test]
fn runtimes_do_not_share_their_guard() {
    let mut one = ToolCallRuntime::new("sub-1".to_string());
    let mut two = ToolCallRuntime::new("sub-2".to_string());
    assert!(one.handle_tool_call(&call("shell", "a"), false).start);
    assert!(two.handle_tool_call(&call("shell", "b"), false).start);
}
