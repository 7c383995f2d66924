use sidecar_supervisor::launcher::{
    FileProbe, InstallLayout, LaunchError, SidecarHandle, SidecarSpec,
};
use sidecar_supervisor::monitor::{CrashCause, ExitOutcome, ExitStatus};
use sidecar_supervisor::policy::RestartPolicy;
use sidecar_supervisor::supervisor::{Action, Event, FatalReason, Supervisor, SupervisorState};

const GRACE_MS: u64 = 750;

fn found() -> FileProbe {
    FileProbe { exists: true, executable: true }
}

fn clean() -> ExitStatus {
    ExitStatus { code: Some(0), signal: None }
}

fn crash() -> ExitStatus {
    ExitStatus { code: Some(2), signal: None }
}

fn policy(max_restarts: u32) -> RestartPolicy {
    RestartPolicy::new(max_restarts, 1000, 4000, 5, 10_000).unwrap()
}

fn supervisor(policy: RestartPolicy) -> Supervisor {
    let spec = SidecarSpec {
        executable: String::from("inventory"),
        args: vec![String::from("--serve")],
        env: vec![(String::from("LOG"), String::from("info"))],
        working_dir: None,
    };
    let layout = InstallLayout { bin_dir: String::from("/opt/app"), exe_suffix: String::new() };
    Supervisor::new(spec, layout, policy, GRACE_MS)
}

fn running(policy: RestartPolicy) -> Supervisor {
    let mut s = supervisor(policy);
    assert_eq!(s.start(found()), Action::Launch { delay_ms: 0, attempt: 0 });
    assert_eq!(s.on_launched(100, 0), Action::ReportRunning { pid: 100 });
    s
}

fn crash_once(s: &mut Supervisor, at_ms: u64) -> Action {
    assert_eq!(s.on_exit(crash(), at_ms), Action::Wait);
    s.on_drain_closed()
}

#[test]
fn new_supervisor_is_idle() {
    let s = supervisor(policy(3));
    assert_eq!(s.state(), SupervisorState::Idle);
    assert_eq!(s.handle(), None);
    assert_eq!(s.plan(), None);
    assert_eq!(s.restarts(), 0);
    assert!(!s.stop_requested());
    assert!(!s.is_final());
    assert_eq!(s.grace_ms(), GRACE_MS);
    assert_eq!(s.policy(), policy(3));
    assert_eq!(s.spec().executable, "inventory");
    assert!(s.crash_times().is_empty());
    assert_eq!(s.executable_path(), "/opt/app/inventory");
}

#[test]
fn start_plans_and_asks_for_the_first_launch() {
    let mut s = supervisor(policy(3));
    assert_eq!(s.start(found()), Action::Launch { delay_ms: 0, attempt: 0 });
    assert_eq!(s.state(), SupervisorState::Starting);
    assert_eq!(s.handle(), None);
    let plan = s.plan().unwrap();
    assert_eq!(plan.program, "/opt/app/inventory");
    assert_eq!(plan.args, vec![String::from("--serve")]);
    assert_eq!(plan.env, vec![(String::from("LOG"), String::from("info"))]);
    assert_eq!(plan.working_dir, None);
}

#[test]
fn start_twice_asks_for_one_launch() {
    let mut s = supervisor(policy(3));
    assert_eq!(s.start(found()), Action::Launch { delay_ms: 0, attempt: 0 });
    assert_eq!(s.start(found()), Action::Wait);
    assert_eq!(s.state(), SupervisorState::Starting);
}

#[test]
fn missing_executable_is_fatal_and_not_retried() {
    let mut s = supervisor(policy(3));
    let action = s.start(FileProbe { exists: false, executable: false });
    assert_eq!(action, Action::ReportFatal(FatalReason::Launch(LaunchError::ExecutableNotFound)));
    assert_eq!(s.state(), SupervisorState::Failed);
    assert!(s.is_final());
    assert_eq!(s.start(found()), Action::Wait);
    assert_eq!(s.state(), SupervisorState::Failed);
}

#[test]
fn executable_without_permission_is_fatal() {
    let mut s = supervisor(policy(3));
    let action = s.start(FileProbe { exists: true, executable: false });
    assert_eq!(action, Action::ReportFatal(FatalReason::Launch(LaunchError::PermissionDenied)));
    assert_eq!(s.state(), SupervisorState::Failed);
    assert_eq!(s.plan(), None);
}

#[test]
fn refused_spawn_is_fatal_and_not_retried() {
    let mut s = supervisor(policy(3));
    s.start(found());
    let action = s.on_launch_failed(String::from("out of memory"));
    assert_eq!(
        action,
        Action::ReportFatal(FatalReason::Launch(LaunchError::SpawnFailed(String::from(
            "out of memory"
        ))))
    );
    assert_eq!(s.state(), SupervisorState::Failed);
    assert_eq!(s.restarts(), 0);
    assert_eq!(s.on_launched(5, 10), Action::Wait);
    assert_eq!(s.handle(), None);
}

#[test]
fn launched_process_is_reported_as_running() {
    let mut s = supervisor(policy(3));
    s.start(found());
    assert_eq!(s.on_launched(4242, 17), Action::ReportRunning { pid: 4242 });
    assert_eq!(s.state(), SupervisorState::Running);
    assert_eq!(
        s.handle(),
        Some(SidecarHandle { pid: 4242, started_at_ms: 17, exit: None, drain_closed: false })
    );
}

#[test]
fn start_then_stop_ends_stopped_with_no_process() {
    let mut s = supervisor(policy(3));
    assert_eq!(s.start(found()), Action::Launch { delay_ms: 0, attempt: 0 });
    assert_eq!(s.stop(), Action::Wait);
    assert_eq!(s.state(), SupervisorState::Starting);
    assert!(s.stop_requested());
    assert_eq!(s.on_launched(9, 5), Action::Terminate { pid: 9, grace_ms: GRACE_MS });
    assert_eq!(s.state(), SupervisorState::Stopping);
    assert_eq!(s.on_exit(ExitStatus { code: None, signal: Some(15) }, 6), Action::Wait);
    assert_eq!(s.state(), SupervisorState::Stopping);
    assert_eq!(
        s.handle().unwrap().exit.unwrap().outcome,
        ExitOutcome::KilledByRequest
    );
    assert_eq!(s.on_drain_closed(), Action::Wait);
    assert_eq!(s.state(), SupervisorState::Stopped);
    assert_eq!(s.handle(), None);
    assert!(s.is_final());
}

#[test]
fn start_then_stop_with_output_ending_first() {
    let mut s = supervisor(policy(3));
    s.start(found());
    s.stop();
    assert_eq!(s.on_launched(9, 5), Action::Terminate { pid: 9, grace_ms: GRACE_MS });
    assert_eq!(s.on_drain_closed(), Action::Wait);
    assert_eq!(s.state(), SupervisorState::Stopping);
    assert!(s.handle().unwrap().drain_closed);
    assert_eq!(s.on_exit(clean(), 6), Action::Wait);
    assert_eq!(s.state(), SupervisorState::Stopped);
    assert_eq!(s.handle(), None);
}

#[test]
fn stop_while_starting_never_reports_running() {
    let mut s = supervisor(policy(3));
    let mut actions = vec![s.start(found()), s.stop(), s.on_launched(9, 5)];
    actions.push(s.on_grace_elapsed());
    actions.push(s.on_exit(crash(), 6));
    actions.push(s.on_drain_closed());
    actions.push(s.on_launched(10, 7));
    for action in &actions {
        assert!(!matches!(action, Action::ReportRunning { .. }));
    }
    assert_eq!(actions[3], Action::Kill { pid: 9 });
    assert_eq!(s.state(), SupervisorState::Stopped);
}

#[test]
fn stop_before_start_stops_at_once() {
    let mut s = supervisor(policy(3));
    assert_eq!(s.stop(), Action::Wait);
    assert_eq!(s.state(), SupervisorState::Stopped);
    assert!(s.stop_requested());
    assert_eq!(s.start(found()), Action::Wait);
    assert_eq!(s.state(), SupervisorState::Stopped);
}

#[test]
fn stop_while_running_terminates_then_kills_after_grace() {
    let mut s = running(policy(3));
    assert_eq!(s.on_grace_elapsed(), Action::Wait);
    assert_eq!(s.stop(), Action::Terminate { pid: 100, grace_ms: GRACE_MS });
    assert_eq!(s.state(), SupervisorState::Stopping);
    assert_eq!(s.stop(), Action::Wait);
    assert_eq!(s.on_grace_elapsed(), Action::Kill { pid: 100 });
    assert_eq!(s.state(), SupervisorState::Stopping);
    assert_eq!(s.on_exit(ExitStatus { code: None, signal: Some(9) }, 50), Action::Wait);
    assert_eq!(s.on_grace_elapsed(), Action::Wait);
    assert_eq!(s.on_drain_closed(), Action::Wait);
    assert_eq!(s.state(), SupervisorState::Stopped);
    assert_eq!(s.handle(), None);
    assert_eq!(s.restarts(), 0);
    assert!(s.crash_times().is_empty());
}

#[test]
fn stop_after_the_process_has_gone_sends_nothing() {
    let mut s = running(policy(3));
    assert_eq!(s.on_exit(crash(), 20), Action::Wait);
    assert_eq!(s.stop(), Action::Wait);
    assert_eq!(s.state(), SupervisorState::Stopping);
    assert_eq!(s.on_grace_elapsed(), Action::Wait);
    assert_eq!(s.on_drain_closed(), Action::Wait);
    assert_eq!(s.state(), SupervisorState::Stopped);
    assert_eq!(s.restarts(), 0);
}

#[test]
fn clean_exit_while_running_triggers_exactly_one_restart() {
    let mut s = running(policy(3));
    assert_eq!(s.on_exit(clean(), 500), Action::Wait);
    assert_eq!(s.state(), SupervisorState::Running);
    assert_eq!(
        s.handle().unwrap().exit.unwrap().outcome,
        ExitOutcome::CleanExit
    );
    assert_eq!(s.on_drain_closed(), Action::Launch { delay_ms: 1000, attempt: 1 });
    assert_eq!(s.state(), SupervisorState::Starting);
    assert_eq!(s.handle(), None);
    assert_eq!(s.restarts(), 1);
    assert!(s.crash_times().is_empty());
    assert!(!s.stop_requested());
    assert_eq!(s.on_exit(clean(), 501), Action::Wait);
    assert_eq!(s.on_drain_closed(), Action::Wait);
    assert_eq!(s.on_grace_elapsed(), Action::Wait);
    assert_eq!(s.restarts(), 1);
    assert_eq!(s.on_launched(101, 1500), Action::ReportRunning { pid: 101 });
    assert_eq!(s.state(), SupervisorState::Running);
}

#[test]
fn restart_waits_for_the_output_to_end() {
    let mut s = running(policy(3));
    assert_eq!(s.on_drain_closed(), Action::Wait);
    assert_eq!(s.state(), SupervisorState::Running);
    assert_eq!(s.on_drain_closed(), Action::Wait);
    assert_eq!(s.on_exit(crash(), 700), Action::Launch { delay_ms: 1000, attempt: 1 });
    assert_eq!(s.state(), SupervisorState::Starting);
    assert_eq!(s.crash_times(), &vec![700]);
}

#[test]
fn crash_is_recorded_with_its_cause() {
    let mut s = running(policy(3));
    s.on_exit(ExitStatus { code: None, signal: Some(11) }, 33);
    let record = s.handle().unwrap().exit.unwrap();
    assert_eq!(record.outcome, ExitOutcome::CrashExit(CrashCause::Signal(11)));
    assert_eq!(record.at_ms, 33);
    assert_eq!(s.on_exit(clean(), 34), Action::Wait);
    assert_eq!(s.handle().unwrap().exit.unwrap(), record);
}

#[test]
fn drain_failure_leaves_the_process_running() {
    let mut s = running(policy(3));
    assert_eq!(s.on_drain_error(), Action::Wait);
    assert_eq!(s.state(), SupervisorState::Running);
    let handle = s.handle().unwrap();
    assert!(handle.is_alive());
    assert!(handle.drain_closed);
    assert_eq!(handle.pid, 100);
}

#[test]
fn backoff_doubles_up_to_the_cap() {
    let mut s = running(RestartPolicy::new(10, 1000, 4000, 100, 10).unwrap());
    let mut now: u64 = 0;
    let mut delays: Vec<u64> = Vec::new();
    let mut attempts: Vec<u32> = Vec::new();
    for round in 0..6u32 {
        now += 100_000;
        match crash_once(&mut s, now) {
            Action::Launch { delay_ms, attempt } => {
                delays.push(delay_ms);
                attempts.push(attempt);
            }
            other => panic!("no restart: {:?}", other),
        }
        assert_eq!(s.on_launched(200 + round, now + 1), Action::ReportRunning { pid: 200 + round });
    }
    assert_eq!(delays, vec![1000, 2000, 4000, 4000, 4000, 4000]);
    assert_eq!(attempts, vec![1, 2, 3, 4, 5, 6]);
    for pair in delays.windows(2) {
        assert!(pair[0] < pair[1] || pair[1] == 4000);
    }
}

#[test]
fn restart_budget_is_spent_after_max_restarts() {
    let mut s = running(RestartPolicy::new(2, 1000, 4000, 100, 10).unwrap());
    assert_eq!(crash_once(&mut s, 100_000), Action::Launch { delay_ms: 1000, attempt: 1 });
    s.on_launched(101, 101_000);
    assert_eq!(s.on_exit(clean(), 200_000), Action::Wait);
    assert_eq!(s.on_drain_closed(), Action::Launch { delay_ms: 2000, attempt: 2 });
    s.on_launched(102, 202_000);
    assert_eq!(
        crash_once(&mut s, 300_000),
        Action::ReportFatal(FatalReason::RestartsExhausted)
    );
    assert_eq!(s.state(), SupervisorState::Failed);
    assert_eq!(s.restarts(), 2);
    assert_eq!(s.handle(), None);
}

#[test]
fn no_restart_at_all_with_a_budget_of_zero() {
    let mut s = running(policy(0));
    assert_eq!(s.on_exit(clean(), 10), Action::Wait);
    assert_eq!(s.on_drain_closed(), Action::ReportFatal(FatalReason::RestartsExhausted));
    assert_eq!(s.state(), SupervisorState::Failed);
}

#[test]
fn five_crashes_within_ten_seconds_fail_for_good() {
    let mut s = running(policy(100));
    let mut actions: Vec<Action> = Vec::new();
    let times: [u64; 5] = [1000, 2500, 4000, 8000, 11_000];
    for (i, at_ms) in times.iter().enumerate() {
        actions.push(s.on_exit(crash(), *at_ms));
        actions.push(s.on_drain_closed());
        actions.push(s.on_launched(300 + i as u32, *at_ms + 1));
    }
    assert_eq!(s.state(), SupervisorState::Failed);
    assert_eq!(s.handle(), None);
    assert_eq!(s.restarts(), 4);
    let fatal = actions.iter().filter(|a| matches!(a, Action::ReportFatal(_))).count();
    assert_eq!(fatal, 1);
    assert_eq!(actions[13], Action::ReportFatal(FatalReason::CrashLoop));
    assert_eq!(actions[14], Action::Wait);
    let launches = actions.iter().filter(|a| matches!(a, Action::Launch { .. })).count();
    assert_eq!(launches, 4);
    let later = vec![
        s.on_exit(crash(), 12_000),
        s.on_drain_closed(),
        s.on_launched(999, 12_001),
        s.start(found()),
        s.stop(),
        s.on_grace_elapsed(),
        s.on_launch_failed(String::from("late")),
        s.on_drain_error(),
    ];
    for action in &later {
        assert_eq!(*action, Action::Wait);
    }
    assert_eq!(s.state(), SupervisorState::Failed);
    assert_eq!(s.handle(), None);
}

#[test]
fn crashes_spread_beyond_the_window_do_not_make_a_loop() {
    let mut s = running(policy(100));
    let mut now: u64 = 0;
    for round in 0..8u32 {
        now += 3000;
        let action = crash_once(&mut s, now);
        assert!(matches!(action, Action::Launch { .. }));
        s.on_launched(400 + round, now + 1);
        assert!(s.crash_times().len() <= 4);
    }
    assert_eq!(s.state(), SupervisorState::Running);
    assert_eq!(s.crash_times(), &vec![15_000, 18_000, 21_000, 24_000]);
}

#[test]
fn clean_exits_do_not_count_as_crashes() {
    let mut s = running(policy(100));
    for round in 0..7u32 {
        assert_eq!(s.on_exit(clean(), 10 + round as u64), Action::Wait);
        assert!(matches!(s.on_drain_closed(), Action::Launch { .. }));
        s.on_launched(500 + round, 20 + round as u64);
    }
    assert_eq!(s.state(), SupervisorState::Running);
    assert!(s.crash_times().is_empty());
    assert_eq!(s.restarts(), 7);
}

#[test]
fn crash_loop_wins_over_a_spent_budget() {
    let mut s = running(RestartPolicy::new(0, 1000, 4000, 1, 10).unwrap());
    assert_eq!(crash_once(&mut s, 5), Action::ReportFatal(FatalReason::CrashLoop));
    assert_eq!(s.state(), SupervisorState::Failed);
}

#[test]
fn stopped_is_final() {
    let mut s = running(policy(3));
    s.stop();
    s.on_exit(clean(), 1);
    s.on_drain_closed();
    assert_eq!(s.state(), SupervisorState::Stopped);
    let later = vec![
        s.start(found()),
        s.stop(),
        s.on_launched(1, 2),
        s.on_launch_failed(String::from("x")),
        s.on_exit(crash(), 3),
        s.on_drain_closed(),
        s.on_drain_error(),
        s.on_grace_elapsed(),
    ];
    for action in &later {
        assert_eq!(*action, Action::Wait);
    }
    assert_eq!(s.state(), SupervisorState::Stopped);
    assert_eq!(s.handle(), None);
}

#[test]
fn events_that_do_not_fit_are_ignored() {
    let mut s = supervisor(policy(3));
    assert_eq!(s.on_launched(1, 1), Action::Wait);
    assert_eq!(s.on_launch_failed(String::from("x")), Action::Wait);
    assert_eq!(s.on_exit(crash(), 1), Action::Wait);
    assert_eq!(s.on_drain_closed(), Action::Wait);
    assert_eq!(s.on_grace_elapsed(), Action::Wait);
    assert_eq!(s.state(), SupervisorState::Idle);
    assert_eq!(s.handle(), None);
    let mut s = running(policy(3));
    assert_eq!(s.on_launched(2, 2), Action::Wait);
    assert_eq!(s.on_launch_failed(String::from("x")), Action::Wait);
    assert_eq!(s.state(), SupervisorState::Running);
    assert_eq!(s.handle().unwrap().pid, 100);
}

#[test]
fn step_answers_as_the_methods_do() {
    let events = vec![
        Event::Start(found()),
        Event::Launched { pid: 100, now_ms: 0 },
        Event::DrainFailed,
        Event::Exited { status: crash(), now_ms: 50 },
        Event::LaunchFailed(String::from("no more processes")),
        Event::Stop,
        Event::GraceElapsed,
        Event::DrainClosed,
    ];
    let mut s = supervisor(policy(3));
    let mut actions: Vec<Action> = Vec::new();
    for event in events {
        actions.push(s.step(event));
    }
    assert_eq!(
        actions,
        vec![
            Action::Launch { delay_ms: 0, attempt: 0 },
            Action::ReportRunning { pid: 100 },
            Action::Wait,
            Action::Launch { delay_ms: 1000, attempt: 1 },
            Action::ReportFatal(FatalReason::Launch(LaunchError::SpawnFailed(String::from(
                "no more processes"
            )))),
            Action::Wait,
            Action::Wait,
            Action::Wait,
        ]
    );
    assert_eq!(s.state(), SupervisorState::Failed);
}

#[test]
fn step_stops_a_running_sidecar() {
    let mut s = supervisor(policy(3));
    assert_eq!(s.step(Event::Start(found())), Action::Launch { delay_ms: 0, attempt: 0 });
    assert_eq!(s.step(Event::Launched { pid: 7, now_ms: 1 }), Action::ReportRunning { pid: 7 });
    assert_eq!(s.step(Event::Stop), Action::Terminate { pid: 7, grace_ms: GRACE_MS });
    assert_eq!(s.step(Event::GraceElapsed), Action::Kill { pid: 7 });
    assert_eq!(s.step(Event::DrainClosed), Action::Wait);
    let exited = Event::Exited { status: ExitStatus { code: None, signal: Some(9) }, now_ms: 9 };
    assert_eq!(s.step(exited), Action::Wait);
    assert_eq!(s.state(), SupervisorState::Stopped);
}
