//! What holds of the supervisor whatever the events are.
//!
//! The theorems here are stated over the supervisor's model, the value that
//! every method of `Supervisor` is specified by. A run is a sequence of
//! events fed one after the other; its actions are the answers, in order.

use crate::launcher::{launch_refusal, FileProbe, SidecarHandle};
use crate::monitor::{classify_spec, ExitOutcome, ExitStatus};
use crate::supervisor::{Action, Event, FatalReason, SupervisorModel, SupervisorState};
use vstd::prelude::*;

verus! {

/// The supervisor after `events` were fed one after the other, and the
/// actions it asked for, in order.
pub open spec fn run(start: SupervisorModel, events: Seq<Event>) -> (SupervisorModel, Seq<Action>)
    decreases events.len(),
{
    if events.len() == 0 {
        (start, Seq::empty())
    } else {
        let (mid, earlier) = run(start, events.drop_last());
        let (after, action) = mid.step(events.last());
        (after, earlier.push(action))
    }
}

/// How many of `actions` tell the host that the supervisor gave up.
pub open spec fn fatal_reports(actions: Seq<Action>) -> nat
    decreases actions.len(),
{
    if actions.len() == 0 {
        0
    } else if actions.last() is ReportFatal {
        fatal_reports(actions.drop_last()) + 1
    } else {
        fatal_reports(actions.drop_last())
    }
}

/// Every event leaves a well-formed supervisor well-formed. In particular
/// it holds a handle exactly while it is running or stopping, so never more
/// than one.
pub proof fn lemma_step_keeps_wf(m: SupervisorModel, event: Event)
    requires
        m.wf(),
    ensures
        m.step(event).0.wf(),
{
}

/// No event changes what the supervisor was made with: the description of
/// the sidecar, the installation, the policy and the grace period.
pub proof fn lemma_step_keeps_configuration(m: SupervisorModel, event: Event)
    ensures
        m.step(event).0.spec == m.spec,
        m.step(event).0.layout == m.layout,
        m.step(event).0.policy == m.policy,
        m.step(event).0.grace_ms == m.grace_ms,
{
}

/// `Stopped` and `Failed` are never left: there every event changes nothing
/// and asks for nothing.
pub proof fn lemma_final_state_is_kept(m: SupervisorModel, event: Event)
    requires
        m.is_final(),
    ensures
        m.step(event) == (m, Action::Wait),
{
}

/// The host is told that the supervisor gave up exactly on the step that
/// enters `Failed`.
pub proof fn lemma_fatal_report_marks_failure(m: SupervisorModel, event: Event)
    ensures
        m.step(event).1 is ReportFatal <==> m.state != SupervisorState::Failed && m.step(
            event,
        ).0.state == SupervisorState::Failed,
{
}

/// A launch is asked for only when no handle is held: the first one by an
/// idle supervisor, a restart only after the previous process was seen to
/// terminate and its output to end. The supervisor is then starting.
pub proof fn lemma_launch_follows_release(m: SupervisorModel, event: Event)
    requires
        m.wf(),
        m.step(event).1 is Launch,
    ensures
        m.step(event).0.state == SupervisorState::Starting,
        m.step(event).0.handle is None,
        m.state == SupervisorState::Idle || m.state == SupervisorState::Running,
        m.state == SupervisorState::Running ==> (m.handle matches Some(h) && (h.exit is Some
            || h.drain_closed)),
{
}

/// A handle is taken only from a launch that the supervisor had asked for
/// and while it holds none.
pub proof fn lemma_handle_follows_launch(m: SupervisorModel, event: Event)
    requires
        m.wf(),
        m.handle is None,
        m.step(event).0.handle is Some,
    ensures
        m.state == SupervisorState::Starting,
        event is Launched,
{
}

/// Every launch that is asked for waits as the schedule says for its attempt
/// number, and the attempt number is the count of restarts so far. A step
/// counts a restart exactly when it asks for a launch that is not the first.
pub proof fn lemma_launch_follows_schedule(m: SupervisorModel, event: Event)
    requires
        m.wf(),
    ensures
        m.step(event).1 matches Action::Launch { delay_ms, attempt } ==> delay_ms
            == m.policy.delay(attempt as nat) && attempt == m.step(event).0.restarts,
        m.step(event).0.restarts == m.restarts + if m.step(event).1 is Launch && m.state
            != SupervisorState::Idle {
            1nat
        } else {
            0nat
        },
{
    if let Action::Launch { delay_ms, attempt } = m.step(event).1 {
        if m.state != SupervisorState::Idle {
            crate::policy::lemma_delay_fits(m.policy, m.restarts + 1);
        }
    }
}

/// Once a stop was requested it stays requested, and the host is never told
/// that the sidecar runs.
pub proof fn lemma_stop_request_silences_running(m: SupervisorModel, event: Event)
    requires
        m.stop_requested,
    ensures
        m.step(event).0.stop_requested,
        !(m.step(event).1 is ReportRunning),
{
}

/// The stop request is noted before the process is told anything: whenever
/// the supervisor asks for a process to be terminated or killed, the stop
/// flag is already set, so the termination that follows is classified as
/// requested.
pub proof fn lemma_stop_noted_before_signal(m: SupervisorModel, event: Event, status: ExitStatus)
    requires
        m.wf(),
        m.step(event).1 is Terminate || m.step(event).1 is Kill,
    ensures
        m.step(event).0.stop_requested,
        m.step(event).0.state == SupervisorState::Stopping,
        classify_spec(m.step(event).0.stop_requested, status) == ExitOutcome::KilledByRequest,
{
}

/// A failure to read the output does not touch a running process: the
/// supervisor keeps running and sends nothing to the process.
pub proof fn lemma_drain_failure_spares_process(m: SupervisorModel)
    requires
        m.wf(),
        m.state == SupervisorState::Running,
        m.handle matches Some(h) && h.alive(),
    ensures
        m.step(Event::DrainFailed).0.state == SupervisorState::Running,
        m.step(Event::DrainFailed).1 == Action::Wait,
        m.step(Event::DrainFailed).0.handle matches Some(h) && h.alive() && h.pid
            == m.handle->0.pid,
{
}

/// Starting and stopping right away ends in `Stopped` with no process left.
/// The launch in flight is left to complete; the process it gives is told to
/// terminate at once and is never reported as running; when it has
/// terminated and its output has ended, in either order, the handle is let
/// go and the supervisor is stopped.
pub proof fn lemma_start_then_stop(
    m: SupervisorModel,
    probe: FileProbe,
    pid: u32,
    launched_at: u64,
    status: ExitStatus,
    exited_at: u64,
    exit_first: bool,
)
    requires
        m.wf(),
        m.state == SupervisorState::Idle,
        launch_refusal(m.spec, probe) is None,
    ensures
        ({
            let (m1, a1) = m.start(probe);
            let (m2, a2) = m1.stop();
            let (m3, a3) = m2.launched(pid, launched_at);
            let (m4, a4) = if exit_first {
                m3.exited(status, exited_at)
            } else {
                m3.drain_closed()
            };
            let (m5, a5) = if exit_first {
                m4.drain_closed()
            } else {
                m4.exited(status, exited_at)
            };
            &&& a1 == Action::Launch { delay_ms: 0, attempt: 0 }
            &&& a2 == Action::Wait
            &&& m2.state == SupervisorState::Starting
            &&& a3 == Action::Terminate { pid, grace_ms: m.grace_ms }
            &&& m3.state == SupervisorState::Stopping
            &&& a4 == Action::Wait
            &&& m4.state == SupervisorState::Stopping
            &&& a5 == Action::Wait
            &&& m5.state == SupervisorState::Stopped
            &&& m5.handle is None
        }),
{
}

/// A stop request while a launch is in flight is honoured as soon as the
/// launch completes: the process goes from `Starting` straight to `Stopping`,
/// is told to terminate, and is not reported as running.
pub proof fn lemma_stop_while_starting(m: SupervisorModel, pid: u32, now_ms: u64)
    requires
        m.wf(),
        m.state == SupervisorState::Starting,
    ensures
        m.stop().0.state == SupervisorState::Starting,
        m.stop().1 == Action::Wait,
        m.stop().0.launched(pid, now_ms).0.state == SupervisorState::Stopping,
        m.stop().0.launched(pid, now_ms).0.handle == Some(SidecarHandle::fresh(pid, now_ms)),
        m.stop().0.launched(pid, now_ms).1 == (Action::Terminate { pid, grace_ms: m.grace_ms }),
{
}

/// Stopping a running sidecar: the request is noted, the process is told to
/// terminate, it is killed if the grace period passes first, and when it has
/// terminated and its output has ended, in either order, the supervisor is
/// stopped and holds no handle. The termination counts as requested, not as
/// a crash.
pub proof fn lemma_stop_while_running(
    m: SupervisorModel,
    status: ExitStatus,
    exited_at: u64,
    exit_first: bool,
)
    requires
        m.wf(),
        m.state == SupervisorState::Running,
        m.handle matches Some(h) && h.alive() && !h.drain_closed,
    ensures
        ({
            let pid = m.handle->0.pid;
            let (m1, a1) = m.stop();
            let (m2, a2) = m1.grace_elapsed();
            let (m3, a3) = if exit_first {
                m2.exited(status, exited_at)
            } else {
                m2.drain_closed()
            };
            let (m4, a4) = if exit_first {
                m3.drain_closed()
            } else {
                m3.exited(status, exited_at)
            };
            &&& m1.stop_requested
            &&& m1.state == SupervisorState::Stopping
            &&& a1 == Action::Terminate { pid, grace_ms: m.grace_ms }
            &&& m2 == m1
            &&& a2 == Action::Kill { pid }
            &&& a3 == Action::Wait
            &&& exit_first ==> m3.handle->0.exit->0.outcome == ExitOutcome::KilledByRequest
            &&& a4 == Action::Wait
            &&& m4.state == SupervisorState::Stopped
            &&& m4.handle is None
        }),
{
}

/// An exit with code 0 in mid-session is not taken for a stop: when no stop
/// was requested and the budget allows a restart, the termination and the
/// end of the output, in either order, bring exactly one request for a
/// launch, on the second of the two events. The restart is counted and the
/// supervisor is starting again.
pub proof fn lemma_clean_exit_restarts_once(m: SupervisorModel, exited_at: u64, exit_first: bool)
    requires
        m.wf(),
        m.state == SupervisorState::Running,
        m.handle matches Some(h) && h.alive() && !h.drain_closed,
        m.policy.allows_restart(m.restarts),
    ensures
        ({
            let status = ExitStatus { code: Some(0i32), signal: None };
            let (m1, a1) = if exit_first {
                m.exited(status, exited_at)
            } else {
                m.drain_closed()
            };
            let (m2, a2) = if exit_first {
                m1.drain_closed()
            } else {
                m1.exited(status, exited_at)
            };
            &&& classify_spec(m.stop_requested, status) == ExitOutcome::CleanExit
            &&& a1 == Action::Wait
            &&& m1.state == SupervisorState::Running
            &&& a2 == Action::Launch {
                delay_ms: m.policy.delay(m.restarts + 1) as u64,
                attempt: (m.restarts + 1) as u32,
            }
            &&& m2.state == SupervisorState::Starting
            &&& m2.handle is None
            &&& m2.restarts == m.restarts + 1
            &&& m2.crash_times == m.crash_times
        }),
{
}

/// While a launch is in flight nothing asks for another one.
pub proof fn lemma_starting_asks_no_launch(m: SupervisorModel, event: Event)
    requires
        m.wf(),
        m.state == SupervisorState::Starting,
    ensures
        !(m.step(event).1 is Launch),
{
}

/// A crash that completes a crash loop ends in `Failed`, whatever is left of
/// the restart budget: the host is told so, and no launch is asked for.
pub proof fn lemma_crash_loop_fails(
    m: SupervisorModel,
    status: ExitStatus,
    exited_at: u64,
    exit_first: bool,
)
    requires
        m.wf(),
        m.state == SupervisorState::Running,
        m.handle matches Some(h) && h.alive() && !h.drain_closed,
        classify_spec(false, status) is CrashExit,
        m.policy.breaches(m.crash_times, exited_at),
    ensures
        ({
            let (m1, a1) = if exit_first {
                m.exited(status, exited_at)
            } else {
                m.drain_closed()
            };
            let (m2, a2) = if exit_first {
                m1.drain_closed()
            } else {
                m1.exited(status, exited_at)
            };
            &&& a1 == Action::Wait
            &&& a2 == Action::ReportFatal(FatalReason::CrashLoop)
            &&& m2.state == SupervisorState::Failed
            &&& m2.handle is None
        }),
{
}

/// An unexpected exit after the last restart that the policy allows ends in
/// `Failed`.
pub proof fn lemma_spent_budget_fails(
    m: SupervisorModel,
    status: ExitStatus,
    exited_at: u64,
    exit_first: bool,
)
    requires
        m.wf(),
        m.state == SupervisorState::Running,
        m.handle matches Some(h) && h.alive() && !h.drain_closed,
        !m.policy.allows_restart(m.restarts),
    ensures
        ({
            let (m1, a1) = if exit_first {
                m.exited(status, exited_at)
            } else {
                m.drain_closed()
            };
            let (m2, a2) = if exit_first {
                m1.drain_closed()
            } else {
                m1.exited(status, exited_at)
            };
            &&& a1 == Action::Wait
            &&& a2 is ReportFatal
            &&& m2.state == SupervisorState::Failed
            &&& m2.handle is None
        }),
{
}

/// The supervisor as it stands before event number `i` of a run.
pub open spec fn state_before(start: SupervisorModel, events: Seq<Event>, i: int) -> SupervisorModel {
    run(start, events.take(i)).0
}

/// A run answers each event with one action, and the answer to event number
/// `i` is the step that the supervisor of that moment takes.
pub proof fn lemma_run_by_steps(start: SupervisorModel, events: Seq<Event>, i: int)
    requires
        0 <= i < events.len(),
    ensures
        run(start, events).1.len() == events.len(),
        run(start, events).1[i] == state_before(start, events, i).step(events[i]).1,
        state_before(start, events, i + 1) == state_before(start, events, i).step(events[i]).0,
    decreases events.len(),
{
    let front = events.drop_last();
    lemma_run_len(start, events);
    lemma_run_len(start, front);
    assert(events.take(i + 1).drop_last() =~= events.take(i));
    assert(events.take(i + 1).last() == events[i]);
    if i == events.len() - 1 {
        assert(events.take(i) =~= front);
    } else {
        lemma_run_by_steps(start, front, i);
        assert(front.take(i) =~= events.take(i));
    }
}

/// A run answers each event with one action.
pub proof fn lemma_run_len(start: SupervisorModel, events: Seq<Event>)
    ensures
        run(start, events).1.len() == events.len(),
    decreases events.len(),
{
    if events.len() > 0 {
        lemma_run_len(start, events.drop_last());
    }
}

/// Feeding one run of events after another is feeding them all in a row.
pub proof fn lemma_run_add(start: SupervisorModel, first: Seq<Event>, second: Seq<Event>)
    ensures
        run(start, first + second).0 == run(run(start, first).0, second).0,
        run(start, first + second).1 == run(start, first).1 + run(run(start, first).0, second).1,
    decreases second.len(),
{
    if second.len() == 0 {
        assert(first + second =~= first);
        assert(run(start, first).1 + run(run(start, first).0, second).1 =~= run(start, first).1);
    } else {
        lemma_run_add(start, first, second.drop_last());
        assert((first + second).drop_last() =~= first + second.drop_last());
        assert((first + second).last() == second.last());
        let mid = run(start, first).0;
        assert(run(start, first + second).1 =~= run(start, first).1 + run(mid, second).1);
    }
}

/// A well-formed supervisor stays well-formed over any run.
pub proof fn lemma_run_keeps_wf(start: SupervisorModel, events: Seq<Event>)
    requires
        start.wf(),
    ensures
        run(start, events).0.wf(),
    decreases events.len(),
{
    if events.len() > 0 {
        lemma_run_keeps_wf(start, events.drop_last());
        lemma_step_keeps_wf(run(start, events.drop_last()).0, events.last());
    }
}

/// From `Stopped` or `Failed` no run leads anywhere or asks for anything: no
/// further launch, no further report.
pub proof fn lemma_final_run_is_silent(start: SupervisorModel, events: Seq<Event>, i: int)
    requires
        start.is_final(),
        0 <= i < events.len(),
    ensures
        run(start, events).0 == start,
        run(start, events).1.len() == events.len(),
        run(start, events).1[i] == Action::Wait,
    decreases events.len(),
{
    lemma_run_len(start, events);
    lemma_final_run_keeps_state(start, events.drop_last());
    lemma_final_state_is_kept(start, events.last());
    if i < events.len() - 1 {
        lemma_final_run_is_silent(start, events.drop_last(), i);
    }
}

/// From `Stopped` or `Failed` no run leads anywhere.
pub proof fn lemma_final_run_keeps_state(start: SupervisorModel, events: Seq<Event>)
    requires
        start.is_final(),
    ensures
        run(start, events).0 == start,
    decreases events.len(),
{
    if events.len() > 0 {
        lemma_final_run_keeps_state(start, events.drop_last());
        lemma_final_state_is_kept(start, events.last());
    }
}

/// Over any run the host is told at most once that the supervisor gave up:
/// once if the run enters `Failed`, and not at all otherwise.
pub proof fn lemma_fatal_reported_once(start: SupervisorModel, events: Seq<Event>)
    ensures
        fatal_reports(run(start, events).1) == if start.state != SupervisorState::Failed && run(
            start,
            events,
        ).0.state == SupervisorState::Failed {
            1nat
        } else {
            0nat
        },
        start.state == SupervisorState::Failed ==> run(start, events).0.state
            == SupervisorState::Failed,
    decreases events.len(),
{
    if events.len() > 0 {
        let front = events.drop_last();
        let (mid, earlier) = run(start, front);
        lemma_fatal_reported_once(start, front);
        lemma_fatal_report_marks_failure(mid, events.last());
        if mid.state == SupervisorState::Failed {
            lemma_final_state_is_kept(mid, events.last());
        }
        let action = mid.step(events.last()).1;
        assert(run(start, events).1 == earlier.push(action));
        assert(earlier.push(action).drop_last() =~= earlier);
        assert(earlier.push(action).last() == action);
    }
}

/// Once a stop was requested, no run ever tells the host that the sidecar
/// runs.
pub proof fn lemma_run_silences_running(start: SupervisorModel, events: Seq<Event>, i: int)
    requires
        start.stop_requested,
        0 <= i < events.len(),
    ensures
        run(start, events).0.stop_requested,
        !(run(start, events).1[i] is ReportRunning),
    decreases events.len(),
{
    let front = events.drop_last();
    lemma_run_len(start, front);
    lemma_run_keeps_stop_request(start, front);
    lemma_stop_request_silences_running(run(start, front).0, events.last());
    if i < events.len() - 1 {
        lemma_run_silences_running(start, front, i);
    }
}

/// Once a stop was requested it stays requested over any run.
pub proof fn lemma_run_keeps_stop_request(start: SupervisorModel, events: Seq<Event>)
    requires
        start.stop_requested,
    ensures
        run(start, events).0.stop_requested,
    decreases events.len(),
{
    if events.len() > 0 {
        lemma_run_keeps_stop_request(start, events.drop_last());
        lemma_stop_request_silences_running(run(start, events.drop_last()).0, events.last());
    }
}

/// Between two moments of a run the count of restarts never falls, a
/// supervisor that has left `Idle` does not come back to it, and the count
/// stays the same if no launch is asked for in between.
pub proof fn lemma_restarts_between(
    start: SupervisorModel,
    events: Seq<Event>,
    from: int,
    to: int,
)
    requires
        start.wf(),
        0 <= from <= to <= events.len(),
        state_before(start, events, from).state != SupervisorState::Idle,
    ensures
        state_before(start, events, to).wf(),
        state_before(start, events, to).state != SupervisorState::Idle,
        state_before(start, events, to).policy == start.policy,
        state_before(start, events, from).restarts <= state_before(start, events, to).restarts,
        (forall|k: int| from <= k < to ==> !(#[trigger] run(start, events).1[k] is Launch))
            ==> state_before(start, events, from).restarts == state_before(
            start,
            events,
            to,
        ).restarts,
    decreases to - from,
{
    lemma_run_keeps_wf(start, events.take(to));
    lemma_run_keeps_configuration(start, events.take(to));
    if from < to {
        lemma_restarts_between(start, events, from, to - 1);
        lemma_run_by_steps(start, events, to - 1);
        let mid = state_before(start, events, to - 1);
        lemma_launch_follows_schedule(mid, events[to - 1]);
    }
}

/// No run changes what the supervisor was made with.
pub proof fn lemma_run_keeps_configuration(start: SupervisorModel, events: Seq<Event>)
    ensures
        run(start, events).0.spec == start.spec,
        run(start, events).0.layout == start.layout,
        run(start, events).0.policy == start.policy,
        run(start, events).0.grace_ms == start.grace_ms,
    decreases events.len(),
{
    if events.len() > 0 {
        lemma_run_keeps_configuration(start, events.drop_last());
        lemma_step_keeps_configuration(run(start, events.drop_last()).0, events.last());
    }
}

/// Every launch asked for in a run waits as the schedule says for its
/// attempt number.
pub proof fn lemma_run_launches_follow_schedule(
    start: SupervisorModel,
    events: Seq<Event>,
    i: int,
)
    requires
        start.wf(),
        0 <= i < events.len(),
    ensures
        run(start, events).1[i] matches Action::Launch { delay_ms, attempt } ==> delay_ms
            == start.policy.delay(attempt as nat),
{
    lemma_run_by_steps(start, events, i);
    lemma_run_keeps_wf(start, events.take(i));
    lemma_run_keeps_configuration(start, events.take(i));
    lemma_launch_follows_schedule(state_before(start, events, i), events[i]);
}

/// Backoff over a run. Of two launches asked for in a run, the later has the
/// higher attempt number and waits at least as long. If no launch lies
/// between them, the attempt numbers follow each other, and under a valid
/// policy the later delay is strictly longer than the earlier, or it is the
/// cap.
pub proof fn lemma_backoff_across_launches(
    start: SupervisorModel,
    events: Seq<Event>,
    i: int,
    j: int,
)
    requires
        start.wf(),
        0 <= i < j < events.len(),
        run(start, events).1[i] is Launch,
        run(start, events).1[j] is Launch,
    ensures
        ({
            let earlier = run(start, events).1[i];
            let later = run(start, events).1[j];
            &&& earlier->delay_ms == start.policy.delay(earlier->attempt as nat)
            &&& later->delay_ms == start.policy.delay(later->attempt as nat)
            &&& earlier->attempt < later->attempt
            &&& earlier->delay_ms <= later->delay_ms
            &&& (forall|k: int| i < k < j ==> !(#[trigger] run(start, events).1[k] is Launch))
                ==> {
                &&& later->attempt == earlier->attempt + 1
                &&& start.policy.valid() ==> earlier->delay_ms < later->delay_ms
                    || later->delay_ms == start.policy.backoff_cap_ms
            }
        }),
{
    let earlier = run(start, events).1[i];
    let later = run(start, events).1[j];
    lemma_run_launches_follow_schedule(start, events, i);
    lemma_run_launches_follow_schedule(start, events, j);
    lemma_run_by_steps(start, events, i);
    lemma_run_by_steps(start, events, j);
    lemma_run_keeps_wf(start, events.take(i));
    let at_i = state_before(start, events, i);
    lemma_launch_follows_schedule(at_i, events[i]);
    lemma_launch_follows_release(at_i, events[i]);
    // After the earlier launch the supervisor is starting, so not idle.
    lemma_restarts_between(start, events, i + 1, j);
    let at_j = state_before(start, events, j);
    lemma_launch_follows_schedule(at_j, events[j]);
    assert(earlier->attempt == state_before(start, events, i + 1).restarts);
    assert(later->attempt == at_j.restarts + 1);
    crate::policy::lemma_delay_monotone(
        start.policy,
        earlier->attempt as nat,
        later->attempt as nat,
    );
    if start.policy.valid() {
        crate::policy::lemma_delay_increases_or_capped(start.policy, earlier->attempt as nat);
    }
}

/// One crash of the running sidecar as the application reports it: the
/// termination and the end of the output, in either order, and then the
/// process that a restart gave, should the supervisor have asked for one.
pub struct Crash {
    pub status: ExitStatus,
    pub at_ms: u64,
    pub exit_first: bool,
    pub next_pid: u32,
    pub next_started_at: u64,
}

/// The events of one crash.
pub open spec fn crash_events(crash: Crash) -> Seq<Event> {
    let exited = Event::Exited { status: crash.status, now_ms: crash.at_ms };
    let relaunched = Event::Launched { pid: crash.next_pid, now_ms: crash.next_started_at };
    if crash.exit_first {
        seq![exited, Event::DrainClosed, relaunched]
    } else {
        seq![Event::DrainClosed, exited, relaunched]
    }
}

/// The events of several crashes, one after the other.
pub open spec fn crash_run(crashes: Seq<Crash>) -> Seq<Event>
    decreases crashes.len(),
{
    if crashes.len() == 0 {
        Seq::empty()
    } else {
        crash_run(crashes.drop_last()) + crash_events(crashes.last())
    }
}

/// The sidecar runs and neither its termination nor the end of its output
/// was seen.
pub open spec fn running_undisturbed(m: SupervisorModel) -> bool {
    &&& m.state == SupervisorState::Running
    &&& m.handle matches Some(h) && h.alive() && !h.drain_closed
}

/// The crash history ends with the times of the first `k` of `crashes`.
pub open spec fn history_ends_with(times: Seq<u64>, crashes: Seq<Crash>, k: int) -> bool {
    &&& times.len() >= k
    &&& forall|j: int| 0 <= j < k ==> times[times.len() - k + j] == (#[trigger] crashes[j]).at_ms
}

/// A filter keeps a sequence whose members all pass.
proof fn lemma_filter_keeps_all(s: Seq<u64>, pred: spec_fn(u64) -> bool)
    requires
        forall|i: int| 0 <= i < s.len() ==> pred(#[trigger] s[i]),
    ensures
        s.filter(pred) == s,
    decreases s.len(),
{
    reveal(Seq::filter);
    if s.len() > 0 {
        lemma_filter_keeps_all(s.drop_last(), pred);
        assert(s.drop_last().push(s.last()) =~= s);
    }
}

/// A run of three events is three steps.
proof fn lemma_run_three(m: SupervisorModel, first: Event, second: Event, third: Event)
    ensures
        run(m, seq![first, second, third]).0 == m.step(first).0.step(second).0.step(third).0,
{
    let all = seq![first, second, third];
    let two = seq![first, second];
    let one = seq![first];
    assert(all.drop_last() =~= two);
    assert(two.drop_last() =~= one);
    assert(one.drop_last() =~= Seq::<Event>::empty());
    assert(all.last() == third);
    assert(two.last() == second);
    assert(one.last() == first);
    assert(run(m, one.drop_last()).0 == m);
    assert(run(m, one).0 == m.step(first).0);
    assert(run(m, two).0 == m.step(first).0.step(second).0);
}

/// One more crash within the window of those before it: the crash history
/// grows by its time and still ends with all of them.
proof fn lemma_history_grows(m: SupervisorModel, crashes: Seq<Crash>, k: int)
    requires
        0 <= k < crashes.len(),
        history_ends_with(m.crash_times, crashes, k),
        forall|a: int, b: int|
            0 <= a < b < crashes.len() ==> (#[trigger] crashes[b]).at_ms - (
            #[trigger] crashes[a]).at_ms <= m.policy.crash_loop_window_ms,
    ensures
        history_ends_with(m.policy.with_crash(m.crash_times, crashes[k].at_ms), crashes, k + 1),
{
    let now = crashes[k].at_ms;
    let pred = m.policy.window_pred(now);
    let times = m.crash_times;
    let cut = times.len() - k;
    let old_part = times.subrange(0, cut);
    let new_part = times.subrange(cut, times.len() as int);
    assert(times =~= old_part + new_part);
    assert forall|i: int| 0 <= i < new_part.len() implies pred(#[trigger] new_part[i]) by {
        assert(new_part[i] == crashes[i].at_ms);
        assert(crashes[k].at_ms - crashes[i].at_ms <= m.policy.crash_loop_window_ms);
    }
    lemma_filter_keeps_all(new_part, pred);
    Seq::filter_distributes_over_add(old_part, new_part, pred);
    let grown = m.policy.with_crash(times, now);
    assert(grown == (old_part.filter(pred) + new_part).push(now));
    assert forall|j: int| 0 <= j < k + 1 implies grown[grown.len() - (k + 1) + j] == (
    #[trigger] crashes[j]).at_ms by {
        if j < k {
            assert(grown[grown.len() - (k + 1) + j] == new_part[j]);
        }
    }
}

/// What a run of crashes that lie within the crash-loop window of each
/// other leaves behind: the supervisor has failed, or it runs again, has
/// seen fewer crashes than make a crash loop, and remembers all of them.
proof fn lemma_crashes_are_remembered(m: SupervisorModel, crashes: Seq<Crash>, k: int)
    requires
        m.wf(),
        running_undisturbed(m),
        0 <= k <= crashes.len(),
        forall|j: int|
            0 <= j < crashes.len() ==> classify_spec(false, (#[trigger] crashes[j]).status)
                is CrashExit,
        forall|a: int, b: int|
            0 <= a < b < crashes.len() ==> (#[trigger] crashes[b]).at_ms - (
            #[trigger] crashes[a]).at_ms <= m.policy.crash_loop_window_ms,
    ensures
        ({
            let after = run(m, crash_run(crashes.take(k))).0;
            after.state == SupervisorState::Failed || {
                &&& after.wf()
                &&& running_undisturbed(after)
                &&& after.policy == m.policy
                &&& history_ends_with(after.crash_times, crashes, k)
                &&& k == 0 || k < m.policy.crash_loop_threshold
            }
        }),
    decreases k,
{
    if k == 0 {
        assert(crashes.take(0) =~= Seq::<Crash>::empty());
    } else {
        lemma_crashes_are_remembered(m, crashes, k - 1);
        let crash = crashes[k - 1];
        assert(crashes.take(k).drop_last() =~= crashes.take(k - 1));
        assert(crashes.take(k).last() == crash);
        let before = run(m, crash_run(crashes.take(k - 1))).0;
        lemma_run_add(m, crash_run(crashes.take(k - 1)), crash_events(crash));
        let after = run(before, crash_events(crash)).0;
        assert(run(m, crash_run(crashes.take(k))).0 == after);
        if before.state == SupervisorState::Failed {
            lemma_final_run_keeps_state(before, crash_events(crash));
        } else {
            let exited = Event::Exited { status: crash.status, now_ms: crash.at_ms };
            let relaunched = Event::Launched {
                pid: crash.next_pid,
                now_ms: crash.next_started_at,
            };
            if crash.exit_first {
                lemma_run_three(before, exited, Event::DrainClosed, relaunched);
            } else {
                lemma_run_three(before, Event::DrainClosed, exited, relaunched);
            }
            lemma_history_grows(before, crashes, k - 1);
            assert(classify_spec(false, crash.status) is CrashExit);
            let grown = before.policy.with_crash(before.crash_times, crash.at_ms);
            assert(grown.len() >= k);
            if after.state != SupervisorState::Failed {
                assert(after.crash_times == grown);
                assert(!before.policy.breaches(before.crash_times, crash.at_ms));
            }
        }
    }
}

/// A crash loop ends the supervision. When a running sidecar crashes as many
/// times as the policy's threshold says, or more, and the crashes lie within
/// the crash-loop window of each other, the supervisor has failed at the
/// end, however much of the restart budget is left, and the host was told so
/// exactly once. Each crash is reported by its termination and the end of
/// its output, in either order, followed by the process of the restart.
pub proof fn lemma_crash_loop_reaches_failed(m: SupervisorModel, crashes: Seq<Crash>)
    requires
        m.wf(),
        running_undisturbed(m),
        crashes.len() >= 1,
        crashes.len() >= m.policy.crash_loop_threshold,
        forall|j: int|
            0 <= j < crashes.len() ==> classify_spec(false, (#[trigger] crashes[j]).status)
                is CrashExit,
        forall|a: int, b: int|
            0 <= a < b < crashes.len() ==> (#[trigger] crashes[b]).at_ms - (
            #[trigger] crashes[a]).at_ms <= m.policy.crash_loop_window_ms,
    ensures
        run(m, crash_run(crashes)).0.state == SupervisorState::Failed,
        fatal_reports(run(m, crash_run(crashes)).1) == 1,
{
    lemma_crashes_are_remembered(m, crashes, crashes.len() as int);
    assert(crashes.take(crashes.len() as int) =~= crashes);
    lemma_fatal_reported_once(m, crash_run(crashes));
}

} // verus!
