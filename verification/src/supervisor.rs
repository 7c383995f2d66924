//! The supervisor's state machine.
//!
//! The supervisor owns at most one handle. The application tells it what
//! happened (a request of the host, the result of a spawn, a termination, the
//! end of the output streams, a timer) and gets back the one thing to do
//! next. Every method is total: an event that does not fit the state changes
//! nothing and asks for nothing.

use crate::launcher::{
    launch_refusal, planned, prepare, resolve, resolved_path, ExitRecord, FileProbe,
    InstallLayout, InstallLayoutView, LaunchError, LaunchPlan, LaunchPlanView, SidecarHandle,
    SidecarSpec, SidecarSpecView,
};
use crate::monitor::{classify, classify_spec, ExitOutcome, ExitStatus};
use crate::policy::RestartPolicy;
use vstd::prelude::*;

verus! {

/// Where the supervisor stands in the sidecar's lifecycle.
#[derive(Clone, Copy, Debug, PartialEq, Eq, Structural)]
pub enum SupervisorState {
    /// Nothing was started yet.
    Idle,
    /// A launch was asked for and its result is awaited.
    Starting,
    /// The sidecar runs.
    Running,
    /// The sidecar was told to stop and its end is awaited.
    Stopping,
    /// The sidecar was stopped on request. Final.
    Stopped,
    /// The sidecar could not be launched or kept alive. Final.
    Failed,
}

/// Why the supervisor gave up.
#[derive(Clone, Debug, PartialEq, Eq)]
pub enum FatalReason {
    /// The sidecar could not be launched.
    Launch(LaunchError),
    /// Too many crashes fell within the crash-loop window.
    CrashLoop,
    /// The sidecar exited again after the last restart the policy allows.
    RestartsExhausted,
}

/// What the application is to do after an event.
#[derive(Clone, Debug, PartialEq, Eq)]
pub enum Action {
    /// Nothing: wait for the next event.
    Wait,
    /// Wait `delay_ms`, then spawn the sidecar from the supervisor's plan and
    /// report the result. `attempt` is 0 for the first launch and counts the
    /// restarts after it.
    Launch { delay_ms: u64, attempt: u32 },
    /// Tell the host that the sidecar runs as process `pid`.
    ReportRunning { pid: u32 },
    /// Ask process `pid` politely to terminate, and report when `grace_ms`
    /// have passed.
    Terminate { pid: u32, grace_ms: u64 },
    /// Kill process `pid`.
    Kill { pid: u32 },
    /// Tell the host that the supervisor gave up, and why.
    ReportFatal(FatalReason),
}

/// What the application reports to the supervisor.
#[derive(Clone, Debug, PartialEq, Eq)]
pub enum Event {
    /// The host asks for the sidecar; the probe tells what lies at the
    /// executable's path.
    Start(FileProbe),
    /// The host asks for the sidecar to be stopped.
    Stop,
    /// The spawn gave process `pid` at time `now_ms`, and its output and its
    /// termination are being watched.
    Launched { pid: u32, now_ms: u64 },
    /// The operating system refused the spawn, for the given reason.
    LaunchFailed(String),
    /// The process terminated with `status`, seen at time `now_ms`.
    Exited { status: ExitStatus, now_ms: u64 },
    /// The output streams have ended and the drain has let go of them.
    DrainClosed,
    /// Reading the output failed and the drain has let go of the streams.
    DrainFailed,
    /// The grace period of a polite termination has passed.
    GraceElapsed,
}

/// The supervisor as a mathematical value.
pub struct SupervisorModel {
    pub spec: SidecarSpecView,
    pub layout: InstallLayoutView,
    pub policy: RestartPolicy,
    pub grace_ms: u64,
    pub state: SupervisorState,
    pub stop_requested: bool,
    pub plan: Option<LaunchPlanView>,
    pub handle: Option<SidecarHandle>,
    pub restarts: nat,
    pub crash_times: Seq<u64>,
}

impl SupervisorModel {
    /// A supervisor that has done nothing yet.
    pub open spec fn initial(
        spec: SidecarSpecView,
        layout: InstallLayoutView,
        policy: RestartPolicy,
        grace_ms: u64,
    ) -> SupervisorModel {
        SupervisorModel {
            spec,
            layout,
            policy,
            grace_ms,
            state: SupervisorState::Idle,
            stop_requested: false,
            plan: None,
            handle: None,
            restarts: 0,
            crash_times: Seq::empty(),
        }
    }

    /// What holds of every supervisor that was made by `Supervisor::new` and
    /// driven by events.
    pub open spec fn wf(self) -> bool {
        // A handle is held exactly while running or stopping.
        &&& self.handle is Some <==> self.holds_process()
        // The stop flag follows the state.
        &&& self.state == SupervisorState::Idle || self.state == SupervisorState::Running
            ==> !self.stop_requested
        &&& self.state == SupervisorState::Stopping || self.state == SupervisorState::Stopped
            ==> self.stop_requested
        // A handle whose process has terminated and whose output has ended
        // is let go at once.
        &&& self.handle matches Some(h) ==> h.exit is None || !h.drain_closed
        // While running, no termination counts as requested.
        &&& self.state == SupervisorState::Running ==> (self.handle matches Some(h) ==> (
        h.exit matches Some(record) ==> record.outcome.is_unexpected()))
        // The plan is made by the start and kept.
        &&& self.state == SupervisorState::Starting || self.holds_process() ==> self.plan
            == Some(planned(self.spec, self.layout))
        &&& self.state == SupervisorState::Idle ==> self.plan is None && self.restarts == 0
            && self.crash_times.len() == 0
        // The restart budget is never overdrawn.
        &&& self.restarts <= self.policy.max_restarts
    }

    /// The state is one in which a process is held.
    pub open spec fn holds_process(self) -> bool {
        self.state == SupervisorState::Running || self.state == SupervisorState::Stopping
    }

    /// The state is one that is never left.
    pub open spec fn is_final(self) -> bool {
        self.state == SupervisorState::Stopped || self.state == SupervisorState::Failed
    }

    /// A handle is held whose termination or output is still awaited.
    pub open spec fn watching(self) -> bool {
        self.handle is Some && self.holds_process()
    }

    /// The host asks for the sidecar. Only an idle supervisor reacts: it
    /// plans the launch and asks for it, or fails for good when the
    /// executable is missing or may not be executed.
    pub open spec fn start(self, probe: FileProbe) -> (SupervisorModel, Action) {
        if self.state == SupervisorState::Idle {
            match launch_refusal(self.spec, probe) {
                Some(error) => (
                    SupervisorModel { state: SupervisorState::Failed, ..self },
                    Action::ReportFatal(FatalReason::Launch(error)),
                ),
                None => (
                    SupervisorModel {
                        state: SupervisorState::Starting,
                        plan: Some(planned(self.spec, self.layout)),
                        ..self
                    },
                    Action::Launch { delay_ms: 0, attempt: 0 },
                ),
            }
        } else {
            (self, Action::Wait)
        }
    }

    /// The host asks for the sidecar to be stopped. The request is noted
    /// before anything is sent to the process. A running process is asked to
    /// terminate; a launch in flight is left to complete; an idle supervisor
    /// is stopped at once.
    pub open spec fn stop(self) -> (SupervisorModel, Action) {
        match self.state {
            SupervisorState::Idle => (
                SupervisorModel { state: SupervisorState::Stopped, stop_requested: true, ..self },
                Action::Wait,
            ),
            SupervisorState::Starting => (
                SupervisorModel { stop_requested: true, ..self },
                Action::Wait,
            ),
            SupervisorState::Running => match self.handle {
                Some(h) => (
                    SupervisorModel {
                        state: SupervisorState::Stopping,
                        stop_requested: true,
                        ..self
                    },
                    if h.alive() {
                        Action::Terminate { pid: h.pid, grace_ms: self.grace_ms }
                    } else {
                        Action::Wait
                    },
                ),
                None => (
                    SupervisorModel {
                        state: SupervisorState::Stopped,
                        stop_requested: true,
                        ..self
                    },
                    Action::Wait,
                ),
            },
            _ => (self, Action::Wait),
        }
    }

    /// The launch in flight gave a process. It is taken as running, unless a
    /// stop was requested meanwhile: then it is told to terminate right away
    /// and is never reported as running.
    pub open spec fn launched(self, pid: u32, now_ms: u64) -> (SupervisorModel, Action) {
        if self.state == SupervisorState::Starting {
            let handle = Some(SidecarHandle::fresh(pid, now_ms));
            if self.stop_requested {
                (
                    SupervisorModel { state: SupervisorState::Stopping, handle, ..self },
                    Action::Terminate { pid, grace_ms: self.grace_ms },
                )
            } else {
                (
                    SupervisorModel { state: SupervisorState::Running, handle, ..self },
                    Action::ReportRunning { pid },
                )
            }
        } else {
            (self, Action::Wait)
        }
    }

    /// The launch in flight was refused. This is final.
    pub open spec fn launch_failed(self, cause: String) -> (SupervisorModel, Action) {
        if self.state == SupervisorState::Starting {
            (
                SupervisorModel { state: SupervisorState::Failed, ..self },
                Action::ReportFatal(FatalReason::Launch(LaunchError::SpawnFailed(cause))),
            )
        } else {
            (self, Action::Wait)
        }
    }

    /// The process terminated. The termination is classified with the stop
    /// flag as it stands and recorded; the handle is let go once the output
    /// streams have ended too.
    pub open spec fn exited(self, status: ExitStatus, now_ms: u64) -> (SupervisorModel, Action) {
        match self.handle {
            Some(h) => if self.watching() && h.exit is None {
                let record = ExitRecord {
                    outcome: classify_spec(self.stop_requested, status),
                    at_ms: now_ms,
                };
                if h.drain_closed {
                    self.settle(record)
                } else {
                    (
                        SupervisorModel {
                            handle: Some(SidecarHandle { exit: Some(record), ..h }),
                            ..self
                        },
                        Action::Wait,
                    )
                }
            } else {
                (self, Action::Wait)
            },
            None => (self, Action::Wait),
        }
    }

    /// The output streams have ended, or reading them failed. The process is
    /// left alone; the handle is let go once the process has terminated too.
    pub open spec fn drain_closed(self) -> (SupervisorModel, Action) {
        match self.handle {
            Some(h) => if self.watching() && !h.drain_closed {
                match h.exit {
                    Some(record) => self.settle(record),
                    None => (
                        SupervisorModel {
                            handle: Some(SidecarHandle { drain_closed: true, ..h }),
                            ..self
                        },
                        Action::Wait,
                    ),
                }
            } else {
                (self, Action::Wait)
            },
            None => (self, Action::Wait),
        }
    }

    /// Both the termination and the end of the output were seen: the handle
    /// is let go. After a stop request the supervisor is stopped; otherwise
    /// the exit was unexpected and the policy decides.
    pub open spec fn settle(self, record: ExitRecord) -> (SupervisorModel, Action) {
        let released = SupervisorModel { handle: None, ..self };
        if self.state == SupervisorState::Stopping || !record.outcome.is_unexpected() {
            (SupervisorModel { state: SupervisorState::Stopped, ..released }, Action::Wait)
        } else {
            released.after_unexpected_exit(record)
        }
    }

    /// The policy's answer to an unexpected exit. A crash is added to the
    /// crash history; if it completes a crash loop the supervisor fails,
    /// whatever is left of the restart budget. Otherwise the supervisor
    /// fails when the budget is spent, and else asks for a restart after the
    /// delay that the schedule gives for this attempt.
    pub open spec fn after_unexpected_exit(self, record: ExitRecord) -> (SupervisorModel, Action) {
        let crash = record.outcome.is_crash();
        let crash_times = if crash {
            self.policy.with_crash(self.crash_times, record.at_ms)
        } else {
            self.crash_times
        };
        if crash && self.policy.breaches(self.crash_times, record.at_ms) {
            (
                SupervisorModel { state: SupervisorState::Failed, crash_times, ..self },
                Action::ReportFatal(FatalReason::CrashLoop),
            )
        } else if !self.policy.allows_restart(self.restarts) {
            (
                SupervisorModel { state: SupervisorState::Failed, crash_times, ..self },
                Action::ReportFatal(FatalReason::RestartsExhausted),
            )
        } else {
            (
                SupervisorModel {
                    state: SupervisorState::Starting,
                    crash_times,
                    restarts: self.restarts + 1,
                    ..self
                },
                Action::Launch {
                    delay_ms: self.policy.delay(self.restarts + 1) as u64,
                    attempt: (self.restarts + 1) as u32,
                },
            )
        }
    }

    /// The grace period has passed. A process that was told to stop and is
    /// still there is killed.
    pub open spec fn grace_elapsed(self) -> (SupervisorModel, Action) {
        match self.handle {
            Some(h) => if self.state == SupervisorState::Stopping && h.alive() {
                (self, Action::Kill { pid: h.pid })
            } else {
                (self, Action::Wait)
            },
            None => (self, Action::Wait),
        }
    }

    /// The supervisor after an event, and the action it asks for.
    pub open spec fn step(self, event: Event) -> (SupervisorModel, Action) {
        match event {
            Event::Start(probe) => self.start(probe),
            Event::Stop => self.stop(),
            Event::Launched { pid, now_ms } => self.launched(pid, now_ms),
            Event::LaunchFailed(cause) => self.launch_failed(cause),
            Event::Exited { status, now_ms } => self.exited(status, now_ms),
            Event::DrainClosed => self.drain_closed(),
            Event::DrainFailed => self.drain_closed(),
            Event::GraceElapsed => self.grace_elapsed(),
        }
    }
}

/// Supervises one sidecar for one application lifetime.
pub struct Supervisor {
    spec: SidecarSpec,
    layout: InstallLayout,
    policy: RestartPolicy,
    grace_ms: u64,
    state: SupervisorState,
    stop_requested: bool,
    plan: Option<LaunchPlan>,
    handle: Option<SidecarHandle>,
    restarts: u32,
    crash_times: Vec<u64>,
}

impl View for Supervisor {
    type V = SupervisorModel;

    closed spec fn view(&self) -> SupervisorModel {
        SupervisorModel {
            spec: self.spec@,
            layout: self.layout@,
            policy: self.policy,
            grace_ms: self.grace_ms,
            state: self.state,
            stop_requested: self.stop_requested,
            plan: match self.plan {
                Some(plan) => Some(plan@),
                None => None,
            },
            handle: self.handle,
            restarts: self.restarts as nat,
            crash_times: self.crash_times@,
        }
    }
}

impl Supervisor {
    /// A supervisor for `spec` in the installation `layout`. It is idle: it
    /// holds no handle and has asked for nothing. `grace_ms` is how long a
    /// process gets to terminate before it is killed.
    pub fn new(spec: SidecarSpec, layout: InstallLayout, policy: RestartPolicy, grace_ms: u64) -> (s:
        Supervisor)
        ensures
            s@ == SupervisorModel::initial(spec@, layout@, policy, grace_ms),
            s@.wf(),
    {
        Supervisor {
            spec,
            layout,
            policy,
            grace_ms,
            state: SupervisorState::Idle,
            stop_requested: false,
            plan: None,
            handle: None,
            restarts: 0,
            crash_times: Vec::new(),
        }
    }

    /// The current state.
    pub fn state(&self) -> (state: SupervisorState)
        ensures
            state == self@.state,
    {
        self.state
    }

    /// Whether the state is one that is never left.
    pub fn is_final(&self) -> (done: bool)
        ensures
            done == self@.is_final(),
    {
        match self.state {
            SupervisorState::Stopped => true,
            SupervisorState::Failed => true,
            _ => false,
        }
    }

    /// Whether the host has asked for a stop.
    pub fn stop_requested(&self) -> (requested: bool)
        ensures
            requested == self@.stop_requested,
    {
        self.stop_requested
    }

    /// The handle that is held, if any.
    pub fn handle(&self) -> (handle: Option<SidecarHandle>)
        ensures
            handle == self@.handle,
    {
        self.handle
    }

    /// How many restarts were asked for so far.
    pub fn restarts(&self) -> (n: u32)
        ensures
            n == self@.restarts,
    {
        self.restarts
    }

    /// The restart policy.
    pub fn policy(&self) -> (policy: RestartPolicy)
        ensures
            policy == self@.policy,
    {
        self.policy
    }

    /// How long a process gets to terminate before it is killed.
    pub fn grace_ms(&self) -> (grace_ms: u64)
        ensures
            grace_ms == self@.grace_ms,
    {
        self.grace_ms
    }

    /// The description of the sidecar.
    pub fn spec(&self) -> (spec: &SidecarSpec)
        ensures
            spec@ == self@.spec,
    {
        &self.spec
    }

    /// The plan that every launch is made from, once `start` has made it.
    pub fn plan(&self) -> (plan: Option<&LaunchPlan>)
        ensures
            plan is Some <==> self@.plan is Some,
            plan matches Some(p) ==> Some(p@) == self@.plan,
    {
        self.plan.as_ref()
    }

    /// The times of the crashes that the crash-loop window still holds.
    pub fn crash_times(&self) -> (times: &Vec<u64>)
        ensures
            times@ == self@.crash_times,
    {
        &self.crash_times
    }

    /// The path at which the executable is expected. The application probes
    /// it and hands what it found to `start`.
    pub fn executable_path(&self) -> (path: String)
        ensures
            path@ == resolved_path(self@.spec, self@.layout),
    {
        resolve(&self.spec, &self.layout)
    }

    /// The host asks for the sidecar.
    pub fn start(&mut self, probe: FileProbe) -> (action: Action)
        ensures
            (final(self)@, action) == old(self)@.start(probe),
            old(self)@.wf() ==> final(self)@.wf(),
    {
        match self.state {
            SupervisorState::Idle => match prepare(&self.spec, &self.layout, probe) {
                Ok(plan) => {
                    self.plan = Some(plan);
                    self.state = SupervisorState::Starting;
                    Action::Launch { delay_ms: 0, attempt: 0 }
                },
                Err(error) => {
                    self.state = SupervisorState::Failed;
                    Action::ReportFatal(FatalReason::Launch(error))
                },
            },
            _ => Action::Wait,
        }
    }

    /// The host asks for the sidecar to be stopped.
    pub fn stop(&mut self) -> (action: Action)
        ensures
            (final(self)@, action) == old(self)@.stop(),
            old(self)@.wf() ==> final(self)@.wf(),
    {
        match self.state {
            SupervisorState::Idle => {
                self.stop_requested = true;
                self.state = SupervisorState::Stopped;
                Action::Wait
            },
            SupervisorState::Starting => {
                self.stop_requested = true;
                Action::Wait
            },
            SupervisorState::Running => {
                self.stop_requested = true;
                match self.handle {
                    Some(h) => {
                        self.state = SupervisorState::Stopping;
                        if h.is_alive() {
                            Action::Terminate { pid: h.pid, grace_ms: self.grace_ms }
                        } else {
                            Action::Wait
                        }
                    },
                    None => {
                        self.state = SupervisorState::Stopped;
                        Action::Wait
                    },
                }
            },
            _ => Action::Wait,
        }
    }

    /// The launch in flight gave process `pid` at time `now_ms`.
    pub fn on_launched(&mut self, pid: u32, now_ms: u64) -> (action: Action)
        ensures
            (final(self)@, action) == old(self)@.launched(pid, now_ms),
            old(self)@.wf() ==> final(self)@.wf(),
    {
        match self.state {
            SupervisorState::Starting => {
                self.handle = Some(SidecarHandle::new(pid, now_ms));
                if self.stop_requested {
                    self.state = SupervisorState::Stopping;
                    Action::Terminate { pid, grace_ms: self.grace_ms }
                } else {
                    self.state = SupervisorState::Running;
                    Action::ReportRunning { pid }
                }
            },
            _ => Action::Wait,
        }
    }

    /// The launch in flight was refused by the operating system.
    pub fn on_launch_failed(&mut self, cause: String) -> (action: Action)
        ensures
            (final(self)@, action) == old(self)@.launch_failed(cause),
            old(self)@.wf() ==> final(self)@.wf(),
    {
        match self.state {
            SupervisorState::Starting => {
                self.state = SupervisorState::Failed;
                Action::ReportFatal(FatalReason::Launch(LaunchError::SpawnFailed(cause)))
            },
            _ => Action::Wait,
        }
    }

    /// The process terminated with `status`, seen at time `now_ms`.
    pub fn on_exit(&mut self, status: ExitStatus, now_ms: u64) -> (action: Action)
        ensures
            (final(self)@, action) == old(self)@.exited(status, now_ms),
            old(self)@.wf() ==> final(self)@.wf(),
    {
        if !self.is_watching() {
            return Action::Wait;
        }
        match self.handle {
            Some(h) => {
                if h.exit.is_some() {
                    return Action::Wait;
                }
                let record = ExitRecord {
                    outcome: classify(self.stop_requested, status),
                    at_ms: now_ms,
                };
                if h.drain_closed {
                    self.settle(record)
                } else {
                    self.handle = Some(
                        SidecarHandle {
                            pid: h.pid,
                            started_at_ms: h.started_at_ms,
                            exit: Some(record),
                            drain_closed: h.drain_closed,
                        },
                    );
                    Action::Wait
                }
            },
            None => Action::Wait,
        }
    }

    /// The output streams have ended.
    pub fn on_drain_closed(&mut self) -> (action: Action)
        ensures
            (final(self)@, action) == old(self)@.drain_closed(),
            old(self)@.wf() ==> final(self)@.wf(),
    {
        if !self.is_watching() {
            return Action::Wait;
        }
        match self.handle {
            Some(h) => {
                if h.drain_closed {
                    return Action::Wait;
                }
                match h.exit {
                    Some(record) => self.settle(record),
                    None => {
                        self.handle = Some(
                            SidecarHandle {
                                pid: h.pid,
                                started_at_ms: h.started_at_ms,
                                exit: h.exit,
                                drain_closed: true,
                            },
                        );
                        Action::Wait
                    },
                }
            },
            None => Action::Wait,
        }
    }

    /// Reading the output failed. The drain is gone, the process is left
    /// alone: nothing is sent to it on this account.
    pub fn on_drain_error(&mut self) -> (action: Action)
        ensures
            (final(self)@, action) == old(self)@.drain_closed(),
            old(self)@.wf() ==> final(self)@.wf(),
    {
        self.on_drain_closed()
    }

    /// The grace period of a polite termination has passed.
    pub fn on_grace_elapsed(&mut self) -> (action: Action)
        ensures
            (final(self)@, action) == old(self)@.grace_elapsed(),
            old(self)@.wf() ==> final(self)@.wf(),
    {
        match self.state {
            SupervisorState::Stopping => match self.handle {
                Some(h) => {
                    if h.is_alive() {
                        Action::Kill { pid: h.pid }
                    } else {
                        Action::Wait
                    }
                },
                None => Action::Wait,
            },
            _ => Action::Wait,
        }
    }

    /// Takes one event and answers with the action to perform.
    pub fn step(&mut self, event: Event) -> (action: Action)
        ensures
            (final(self)@, action) == old(self)@.step(event),
            old(self)@.wf() ==> final(self)@.wf(),
    {
        match event {
            Event::Start(probe) => self.start(probe),
            Event::Stop => self.stop(),
            Event::Launched { pid, now_ms } => self.on_launched(pid, now_ms),
            Event::LaunchFailed(cause) => self.on_launch_failed(cause),
            Event::Exited { status, now_ms } => self.on_exit(status, now_ms),
            Event::DrainClosed => self.on_drain_closed(),
            Event::DrainFailed => self.on_drain_error(),
            Event::GraceElapsed => self.on_grace_elapsed(),
        }
    }

    /// Whether a handle is held whose termination or output is awaited.
    fn is_watching(&self) -> (watching: bool)
        ensures
            watching == self@.watching(),
    {
        self.handle.is_some() && match self.state {
            SupervisorState::Running => true,
            SupervisorState::Stopping => true,
            _ => false,
        }
    }

    /// Lets go of the handle and decides what follows its termination.
    fn settle(&mut self, record: ExitRecord) -> (action: Action)
        ensures
            (final(self)@, action) == old(self)@.settle(record),
    {
        self.handle = None;
        let stopping: bool = match self.state {
            SupervisorState::Stopping => true,
            _ => false,
        };
        let killed: bool = match record.outcome {
            ExitOutcome::KilledByRequest => true,
            _ => false,
        };
        if stopping || killed {
            self.state = SupervisorState::Stopped;
            Action::Wait
        } else {
            self.after_unexpected_exit(record)
        }
    }

    /// Applies the restart policy to an unexpected exit.
    fn after_unexpected_exit(&mut self, record: ExitRecord) -> (action: Action)
        ensures
            (final(self)@, action) == old(self)@.after_unexpected_exit(record),
    {
        let crash: bool = match record.outcome {
            ExitOutcome::CrashExit(_) => true,
            _ => false,
        };
        let breach: bool = if crash {
            self.policy.record_crash(&mut self.crash_times, record.at_ms)
        } else {
            false
        };
        if breach {
            self.state = SupervisorState::Failed;
            Action::ReportFatal(FatalReason::CrashLoop)
        } else if self.restarts >= self.policy.max_restarts {
            self.state = SupervisorState::Failed;
            Action::ReportFatal(FatalReason::RestartsExhausted)
        } else {
            self.restarts = self.restarts + 1;
            self.state = SupervisorState::Starting;
            Action::Launch { delay_ms: self.policy.delay_ms(self.restarts), attempt: self.restarts }
        }
    }
}

} // verus!
