//! Preparing and recording a launch of the sidecar.
//!
//! Preparing a launch starts nothing: it resolves where the executable lies
//! in the installation and checks what the application has found out about
//! that file. The spawn itself is the application's business; what it reports
//! back becomes a handle or a launch error here.

use crate::monitor::ExitOutcome;
use vstd::prelude::*;
use vstd::string::StringExecFns;

verus! {

/// What to run: fixed when the application starts.
#[derive(Clone, Debug, PartialEq, Eq)]
pub struct SidecarSpec {
    /// The name of the executable within the installation.
    pub executable: String,
    /// The arguments, in order.
    pub args: Vec<String>,
    /// Variables laid over the inherited environment, as name and value.
    pub env: Vec<(String, String)>,
    /// The working directory, or `None` to inherit it.
    pub working_dir: Option<String>,
}

/// A sidecar description as a mathematical value.
pub struct SidecarSpecView {
    pub executable: Seq<char>,
    pub args: Seq<Seq<char>>,
    pub env: Seq<(Seq<char>, Seq<char>)>,
    pub working_dir: Option<Seq<char>>,
}

impl View for SidecarSpec {
    type V = SidecarSpecView;

    open spec fn view(&self) -> SidecarSpecView {
        SidecarSpecView {
            executable: self.executable@,
            args: self.args.deep_view(),
            env: self.env.deep_view(),
            working_dir: self.working_dir.deep_view(),
        }
    }
}

/// Where the application is installed.
#[derive(Clone, Debug, PartialEq, Eq)]
pub struct InstallLayout {
    /// The directory that holds the application's executables.
    pub bin_dir: String,
    /// What the platform appends to an executable's name, such as `.exe`.
    pub exe_suffix: String,
}

/// An installation layout as a mathematical value.
pub struct InstallLayoutView {
    pub bin_dir: Seq<char>,
    pub exe_suffix: Seq<char>,
}

impl View for InstallLayout {
    type V = InstallLayoutView;

    open spec fn view(&self) -> InstallLayoutView {
        InstallLayoutView { bin_dir: self.bin_dir@, exe_suffix: self.exe_suffix@ }
    }
}

/// What the application found at the resolved path.
#[derive(Clone, Copy, Debug, PartialEq, Eq)]
pub struct FileProbe {
    /// A file is there.
    pub exists: bool,
    /// The file may be executed.
    pub executable: bool,
}

/// Everything a spawn needs. Making one starts nothing.
#[derive(Clone, Debug, PartialEq, Eq)]
pub struct LaunchPlan {
    /// The resolved path of the executable.
    pub program: String,
    /// The arguments, in order.
    pub args: Vec<String>,
    /// Variables laid over the inherited environment, as name and value.
    pub env: Vec<(String, String)>,
    /// The working directory, or `None` to inherit it.
    pub working_dir: Option<String>,
}

/// A launch plan as a mathematical value.
pub struct LaunchPlanView {
    pub program: Seq<char>,
    pub args: Seq<Seq<char>>,
    pub env: Seq<(Seq<char>, Seq<char>)>,
    pub working_dir: Option<Seq<char>>,
}

impl View for LaunchPlan {
    type V = LaunchPlanView;

    open spec fn view(&self) -> LaunchPlanView {
        LaunchPlanView {
            program: self.program@,
            args: self.args.deep_view(),
            env: self.env.deep_view(),
            working_dir: self.working_dir.deep_view(),
        }
    }
}

/// Why a launch did not happen. None of these is retried.
#[derive(Clone, Debug, PartialEq, Eq)]
pub enum LaunchError {
    /// No file lies at the resolved path.
    ExecutableNotFound,
    /// The file may not be executed.
    PermissionDenied,
    /// The operating system refused the spawn; the text is its reason.
    SpawnFailed(String),
}

/// The termination of a child as the supervisor recorded it.
#[derive(Clone, Copy, Debug, PartialEq, Eq)]
pub struct ExitRecord {
    /// What the termination means.
    pub outcome: ExitOutcome,
    /// When it was observed, in milliseconds.
    pub at_ms: u64,
}

/// One running attempt of the sidecar.
#[derive(Clone, Copy, Debug, PartialEq, Eq)]
pub struct SidecarHandle {
    /// The process identifier.
    pub pid: u32,
    /// When the process was started, in milliseconds.
    pub started_at_ms: u64,
    /// The termination, once it was observed.
    pub exit: Option<ExitRecord>,
    /// Whether the output streams have ended.
    pub drain_closed: bool,
}

impl SidecarHandle {
    /// The handle of a process that was just started.
    pub open spec fn fresh(pid: u32, now_ms: u64) -> SidecarHandle {
        SidecarHandle { pid, started_at_ms: now_ms, exit: None, drain_closed: false }
    }

    /// The process has not been seen to terminate.
    pub open spec fn alive(self) -> bool {
        self.exit is None
    }

    /// The handle of a process that was just started.
    pub fn new(pid: u32, now_ms: u64) -> (handle: SidecarHandle)
        ensures
            handle == SidecarHandle::fresh(pid, now_ms),
    {
        SidecarHandle { pid, started_at_ms: now_ms, exit: None, drain_closed: false }
    }

    /// Tells whether the process has not been seen to terminate.
    pub fn is_alive(&self) -> (alive: bool)
        ensures
            alive == self.alive(),
    {
        self.exit.is_none()
    }
}

/// The character between the directory and the executable's name.
pub open spec fn separator() -> Seq<char> {
    seq!['/']
}

/// The path of the executable: the directory of executables, a slash, the
/// executable's name and the platform's suffix.
pub open spec fn resolved_path(spec: SidecarSpecView, layout: InstallLayoutView) -> Seq<char> {
    layout.bin_dir + separator() + spec.executable + layout.exe_suffix
}

/// Why a launch of `spec` must be refused given what was found at its path,
/// or `None` when it may go ahead. A description without an executable's
/// name resolves to no file.
pub open spec fn launch_refusal(spec: SidecarSpecView, probe: FileProbe) -> Option<LaunchError> {
    if spec.executable.len() == 0 || !probe.exists {
        Some(LaunchError::ExecutableNotFound)
    } else if !probe.executable {
        Some(LaunchError::PermissionDenied)
    } else {
        None
    }
}

/// The plan for launching `spec` in the installation `layout`.
pub open spec fn planned(spec: SidecarSpecView, layout: InstallLayoutView) -> LaunchPlanView {
    LaunchPlanView {
        program: resolved_path(spec, layout),
        args: spec.args,
        env: spec.env,
        working_dir: spec.working_dir,
    }
}

/// A copy of a list of strings.
fn copy_strings(items: &Vec<String>) -> (copy: Vec<String>)
    ensures
        copy.deep_view() == items.deep_view(),
{
    let mut copy: Vec<String> = Vec::new();
    let mut i: usize = 0;
    while i < items.len()
        invariant
            i <= items.len(),
            copy.len() == i,
            forall|k: int| 0 <= k < i ==> copy@[k]@ == items@[k]@,
        decreases items.len() - i,
    {
        copy.push(items[i].clone());
        i = i + 1;
    }
    proof {
        assert(copy.deep_view() =~= items.deep_view());
    }
    copy
}

/// A copy of a list of pairs of strings.
fn copy_pairs(items: &Vec<(String, String)>) -> (copy: Vec<(String, String)>)
    ensures
        copy.deep_view() == items.deep_view(),
{
    let mut copy: Vec<(String, String)> = Vec::new();
    let mut i: usize = 0;
    while i < items.len()
        invariant
            i <= items.len(),
            copy.len() == i,
            forall|k: int|
                0 <= k < i ==> copy@[k].0@ == items@[k].0@ && copy@[k].1@ == items@[k].1@,
        decreases items.len() - i,
    {
        let name: String = items[i].0.clone();
        let value: String = items[i].1.clone();
        copy.push((name, value));
        i = i + 1;
    }
    proof {
        assert(copy.deep_view() =~= items.deep_view());
    }
    copy
}

/// A copy of an optional string.
fn copy_optional(item: &Option<String>) -> (copy: Option<String>)
    ensures
        copy.deep_view() == item.deep_view(),
{
    match item {
        Some(text) => Some(text.clone()),
        None => None,
    }
}

/// The path at which the executable of `spec` is expected. The application
/// probes this path before it asks for a launch plan.
pub fn resolve(spec: &SidecarSpec, layout: &InstallLayout) -> (path: String)
    ensures
        path@ == resolved_path(spec@, layout@),
{
    let mut path: String = layout.bin_dir.clone();
    proof {
        reveal_strlit("/");
        assert("/"@ =~= separator());
    }
    path.append("/");
    path.append(spec.executable.as_str());
    path.append(layout.exe_suffix.as_str());
    path
}

/// Makes the plan for launching `spec`, or says why it cannot be launched:
/// `ExecutableNotFound` when the description names no executable or no file
/// lies at the resolved path, `PermissionDenied` when the file is there but
/// may not be executed. Nothing is started.
pub fn prepare(spec: &SidecarSpec, layout: &InstallLayout, probe: FileProbe) -> (result: Result<
    LaunchPlan,
    LaunchError,
>)
    ensures
        result is Err <==> launch_refusal(spec@, probe) is Some,
        result matches Err(e) ==> Some(e) == launch_refusal(spec@, probe),
        result matches Ok(plan) ==> plan@ == planned(spec@, layout@),
{
    if spec.executable.as_str().is_empty() || !probe.exists {
        return Err(LaunchError::ExecutableNotFound);
    }
    if !probe.executable {
        return Err(LaunchError::PermissionDenied);
    }
    Ok(
        LaunchPlan {
            program: resolve(spec, layout),
            args: copy_strings(&spec.args),
            env: copy_pairs(&spec.env),
            working_dir: copy_optional(&spec.working_dir),
        },
    )
}

/// Turns what the spawn reported into a handle or a launch error: a process
/// identifier gives the handle of a process started at `now_ms`, a refusal of
/// the operating system gives `SpawnFailed` with its reason.
pub fn complete_launch(spawned: Result<u32, String>, now_ms: u64) -> (result: Result<
    SidecarHandle,
    LaunchError,
>)
    ensures
        spawned matches Ok(pid) ==> result == Ok::<SidecarHandle, LaunchError>(
            SidecarHandle::fresh(pid, now_ms),
        ),
        spawned matches Err(cause) ==> result == Err::<SidecarHandle, LaunchError>(
            LaunchError::SpawnFailed(cause),
        ),
{
    match spawned {
        Ok(pid) => Ok(SidecarHandle::new(pid, now_ms)),
        Err(cause) => Err(LaunchError::SpawnFailed(cause)),
    }
}

} // verus!
