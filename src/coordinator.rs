use vstd::prelude::*;

use crate::console::COMPLETE;
use crate::plugins::PluginGap;

verus! {

/// Where a benchmark job stands.
#[derive(Clone, Copy, Debug, PartialEq, Eq, Structural)]
pub enum Stage {
    Idle,
    Installing,
    InstallingPlugins,
    Running,
    Finished,
}

/// What moves a job from one stage to the next.
#[derive(Clone, Copy, Debug, PartialEq, Eq, Structural)]
pub enum StageEvent {
    /// The user asked for a run.
    RunRequested,
    /// Every provisioning step succeeded.
    ProvisioningDone,
    /// Reconciliation found this many plugins still to install.
    GapsChecked(usize),
    /// The benchmark reported completion.
    BenchmarkComplete,
}

/// The stage an event leads to, or `None` when the event does not apply
/// in the stage. Stages only move forward; leaving plugin installation
/// takes a reconciliation that found nothing left to install.
pub open spec fn next_stage_of(s: Stage, e: StageEvent) -> Option<Stage> {
    match (s, e) {
        (Stage::Idle, StageEvent::RunRequested) => Some(Stage::Installing),
        (Stage::Installing, StageEvent::ProvisioningDone) => Some(Stage::InstallingPlugins),
        (Stage::InstallingPlugins, StageEvent::GapsChecked(n)) => if n == 0 {
            Some(Stage::Running)
        } else {
            Some(Stage::InstallingPlugins)
        },
        (Stage::Running, StageEvent::BenchmarkComplete) => Some(Stage::Finished),
        _ => None,
    }
}

/// Moves a job to the stage an event leads to.
pub fn next_stage(s: Stage, e: StageEvent) -> (r: Option<Stage>)
    ensures
        r == next_stage_of(s, e),
{
    match (s, e) {
        (Stage::Idle, StageEvent::RunRequested) => Some(Stage::Installing),
        (Stage::Installing, StageEvent::ProvisioningDone) => Some(Stage::InstallingPlugins),
        (Stage::InstallingPlugins, StageEvent::GapsChecked(n)) => if n == 0 {
            Some(Stage::Running)
        } else {
            Some(Stage::InstallingPlugins)
        },
        (Stage::Running, StageEvent::BenchmarkComplete) => Some(Stage::Finished),
        _ => None,
    }
}

/// The stage that follows reconciliation: the benchmark runs when no
/// plugin is left to install; otherwise plugin installation goes on.
pub fn after_reconciliation(gaps: &Vec<PluginGap>) -> (r: Stage)
    ensures
        Some(r) == next_stage_of(Stage::InstallingPlugins, StageEvent::GapsChecked(gaps@.len() as usize)),
        r == Stage::Running <==> gaps@.len() == 0,
{
    let n = gaps.len();
    match next_stage(Stage::InstallingPlugins, StageEvent::GapsChecked(n)) {
        Some(s) => s,
        None => Stage::InstallingPlugins,
    }
}

/// One provisioning run, as the user configured it.
#[derive(Clone, Debug, PartialEq, Eq)]
pub struct InstallationJob {
    pub server_version: String,
    pub loader_version: String,
    pub runtime: String,
    pub memory_gb: u32,
    /// One flag per optional plugin of the catalog.
    pub optional_toggles: Vec<bool>,
}

/// What is already in place before a run: each check reads the disk.
#[derive(Clone, Copy, Debug, PartialEq, Eq, Structural)]
pub struct Provisioned {
    /// The directory of the server version exists.
    pub server: bool,
    /// The directory of the runtime distribution exists.
    pub runtime: bool,
    /// The server version's license file exists.
    pub license: bool,
}

/// The announcements made while provisioning.
#[derive(Clone, Copy, Debug, PartialEq, Eq, Structural)]
pub enum Notice {
    InstallingServer,
    InstallingRuntime,
    InstallingLibraries,
}

/// One thing the provisioning worker does, in order.
#[derive(Clone, Copy, Debug, PartialEq, Eq, Structural)]
pub enum Task {
    /// Announce what is being installed.
    Notify(Notice),
    /// Report progress, in thousandths of a percent.
    Progress(u64),
    /// Download the server artifact into a new version directory.
    DownloadServer,
    /// Download and unpack the configured runtime distribution with this
    /// index.
    InstallRuntime(usize),
    /// Run the server once so that it writes its license file.
    WarmLaunch,
    /// Mark the license accepted in that file.
    AcceptLicense,
    /// Report a new stage.
    Status(Stage),
}

/// Progress once the server artifact is in place.
pub const SERVER_DONE: u64 = 25_000;

/// Progress once the runtime is in place.
pub const RUNTIME_DONE: u64 = 65_000;

/// Progress once runtime `k` of `n` is in place: the band between the
/// server and the runtimes being done, split evenly between the runtimes.
pub open spec fn runtime_progress(k: int, n: int) -> int {
    SERVER_DONE + (RUNTIME_DONE - SERVER_DONE) * (k + 1) / n
}

/// The steps for the first `m` runtimes: each one missing is announced
/// and installed, and progress is reported after each.
pub open spec fn runtime_steps(installed: Seq<bool>, m: int) -> Seq<Task>
    decreases m,
{
    if m <= 0 {
        Seq::empty()
    } else {
        runtime_steps(installed, m - 1) + (if installed[m - 1] {
            Seq::empty()
        } else {
            seq![Task::Notify(Notice::InstallingRuntime), Task::InstallRuntime((m - 1) as usize)]
        }) + seq![Task::Progress(runtime_progress(m - 1, installed.len() as int) as u64)]
    }
}

/// The provisioning steps, in order: the server artifact if missing, then
/// each configured runtime that is missing, then the warm-up launch and
/// license acceptance if the license file is missing. Progress is reported
/// after the server, after each runtime (the band up to `RUNTIME_DONE`
/// split evenly, or `RUNTIME_DONE` at once with no runtime configured) and
/// at the end, where plugin installation is announced.
pub open spec fn install_plan_with(server: bool, runtimes: Seq<bool>, license: bool) -> Seq<Task> {
    (if server {
        Seq::empty()
    } else {
        seq![Task::Notify(Notice::InstallingServer), Task::DownloadServer]
    }) + seq![Task::Progress(SERVER_DONE)] + (if runtimes.len() == 0 {
        seq![Task::Progress(RUNTIME_DONE)]
    } else {
        runtime_steps(runtimes, runtimes.len() as int)
    }) + (if license {
        Seq::empty()
    } else {
        seq![Task::Notify(Notice::InstallingLibraries), Task::WarmLaunch, Task::AcceptLicense]
    }) + seq![Task::Progress(COMPLETE), Task::Status(Stage::InstallingPlugins)]
}

/// The provisioning steps for a job with one runtime.
pub open spec fn install_plan(p: Provisioned) -> Seq<Task> {
    install_plan_with(p.server, seq![p.runtime], p.license)
}

/// A step that reaches the network or starts a process.
pub open spec fn is_external(t: Task) -> bool {
    match t {
        Task::DownloadServer | Task::InstallRuntime(_) | Task::WarmLaunch => true,
        _ => false,
    }
}

/// Plans the provisioning of a server with any number of runtimes:
/// `runtimes[k]` says whether the `k`-th configured runtime is in place.
pub fn install_with_runtimes(server: bool, runtimes: &Vec<bool>, license: bool) -> (r: Vec<Task>)
    ensures
        r@ == install_plan_with(server, runtimes@, license),
{
    let mut r: Vec<Task> = Vec::new();
    if !server {
        r.push(Task::Notify(Notice::InstallingServer));
        r.push(Task::DownloadServer);
    }
    r.push(Task::Progress(SERVER_DONE));
    let ghost head = r@;
    let n = runtimes.len();
    if n == 0 {
        r.push(Task::Progress(RUNTIME_DONE));
    } else {
        let mut k: usize = 0;
        assert(runtime_steps(runtimes@, 0) =~= Seq::<Task>::empty());
        assert(r@ =~= head + runtime_steps(runtimes@, 0));
        while k < n
            invariant
                n == runtimes@.len(),
                n > 0,
                k <= n,
                r@ == head + runtime_steps(runtimes@, k as int),
            decreases n - k,
        {
            let ghost before = r@;
            if !runtimes[k] {
                r.push(Task::Notify(Notice::InstallingRuntime));
                r.push(Task::InstallRuntime(k));
            }
            let step: u128 = ((RUNTIME_DONE - SERVER_DONE) as u128) * ((k + 1) as u128);
            let share: u128 = step / (n as u128);
            proof {
                assert(share <= (RUNTIME_DONE - SERVER_DONE) as u128) by (nonlinear_arith)
                    requires
                        step as int == 40000 * (k + 1),
                        share as int == step as int / n as int,
                        k + 1 <= n,
                        n > 0,
                ;
            }
            let progress: u64 = SERVER_DONE + share as u64;
            assert(progress as int == runtime_progress(k as int, n as int));
            r.push(Task::Progress(progress));
            proof {
                assert(r@ =~= head + runtime_steps(runtimes@, k + 1));
            }
            k = k + 1;
        }
    }
    let ghost mid = r@;
    if !license {
        r.push(Task::Notify(Notice::InstallingLibraries));
        r.push(Task::WarmLaunch);
        r.push(Task::AcceptLicense);
    }
    r.push(Task::Progress(COMPLETE));
    r.push(Task::Status(Stage::InstallingPlugins));
    assert(r@ =~= install_plan_with(server, runtimes@, license));
    r
}

/// Plans the provisioning of a server with one runtime: what to install,
/// in which order, and what to report along the way, given what is already
/// in place.
pub fn install_fabric_server(p: Provisioned) -> (r: Vec<Task>)
    ensures
        r@ == install_plan(p),
{
    let runtimes = vec![p.runtime];
    assert(runtimes@ =~= seq![p.runtime]);
    install_with_runtimes(p.server, &runtimes, p.license)
}

/// A message from the provisioning worker to whoever watches it.
#[derive(Clone, Debug, PartialEq, Eq)]
pub enum InstallerMsg {
    /// Fraction done, in thousandths of a percent.
    Progress(u64),
    Status(Stage),
    InstallingMsg(String),
    Error(String),
}

/// The address of the server artifact for a game version and a loader
/// version.
pub open spec fn server_jar_url_of(server: Seq<char>, loader: Seq<char>) -> Seq<char> {
    "https://meta.fabricmc.net/v2/versions/loader/"@ + server + "/"@ + loader
        + "/1.1.0/server/jar"@
}

/// Builds the address of the server artifact.
pub fn server_jar_url(server_version: &str, loader_version: &str) -> (r: String)
    ensures
        r@ == server_jar_url_of(server_version@, loader_version@),
{
    let mut r = String::from_str("https://meta.fabricmc.net/v2/versions/loader/");
    r.append(server_version);
    r.append("/");
    r.append(loader_version);
    r.append("/1.1.0/server/jar");
    r
}

/// The text of an announcement.
pub open spec fn notice_text_of(n: Notice, server: Seq<char>, runtime: Seq<char>) -> Seq<char> {
    match n {
        Notice::InstallingServer => "Installing Minecraft "@ + server,
        Notice::InstallingRuntime => "Installing "@ + runtime + " JVM"@,
        Notice::InstallingLibraries => "Installing Minecraft Libraries"@,
    }
}

/// The text of an announcement for a job.
pub fn notice_text(n: Notice, job: &InstallationJob) -> (r: String)
    ensures
        r@ == notice_text_of(n, job.server_version@, job.runtime@),
{
    match n {
        Notice::InstallingServer => {
            let mut r = String::from_str("Installing Minecraft ");
            r.append(job.server_version.as_str());
            r
        },
        Notice::InstallingRuntime => {
            let mut r = String::from_str("Installing ");
            r.append(job.runtime.as_str());
            r.append(" JVM");
            r
        },
        Notice::InstallingLibraries => String::from_str("Installing Minecraft Libraries"),
    }
}

/// The message a step sends, if it is a report rather than work.
pub fn message_for(t: Task, job: &InstallationJob) -> (r: Option<InstallerMsg>)
    ensures
        t matches Task::Notify(n) ==> (r matches Some(InstallerMsg::InstallingMsg(s)) && s@
            == notice_text_of(n, job.server_version@, job.runtime@)),
        t matches Task::Progress(p) ==> r == Some(InstallerMsg::Progress(p)),
        t matches Task::Status(s) ==> r == Some(InstallerMsg::Status(s)),
        (t is DownloadServer || t is InstallRuntime || t is WarmLaunch || t is AcceptLicense)
            ==> r is None,
{
    match t {
        Task::Notify(n) => Some(InstallerMsg::InstallingMsg(notice_text(n, job))),
        Task::Progress(p) => Some(InstallerMsg::Progress(p)),
        Task::Status(s) => Some(InstallerMsg::Status(s)),
        _ => None,
    }
}

/// A job whose server, runtime and license are already in place makes no
/// network call and starts no process while provisioning: it only reports
/// progress and moves to plugin installation. If reconciliation then finds
/// every plugin installed, the job goes straight to the benchmark, so the
/// benchmark launch is the only process it starts; the stages run
/// Installing, InstallingPlugins, Running.
pub proof fn law_satisfied_job_goes_straight_to_benchmark(p: Provisioned)
    requires
        p.server,
        p.runtime,
        p.license,
    ensures
        forall|i: int| 0 <= i < install_plan(p).len() ==> !is_external(#[trigger] install_plan(p)[i]),
        install_plan(p) == seq![
            Task::Progress(SERVER_DONE),
            Task::Progress(RUNTIME_DONE),
            Task::Progress(COMPLETE),
            Task::Status(Stage::InstallingPlugins),
        ],
        next_stage_of(Stage::Idle, StageEvent::RunRequested) == Some(Stage::Installing),
        next_stage_of(Stage::Installing, StageEvent::ProvisioningDone) == Some(
            Stage::InstallingPlugins,
        ),
        next_stage_of(Stage::InstallingPlugins, StageEvent::GapsChecked(0)) == Some(Stage::Running),
{
    reveal_with_fuel(runtime_steps, 2);
    assert(runtime_progress(0, 1) == RUNTIME_DONE);
    assert(install_plan(p) =~= seq![
        Task::Progress(SERVER_DONE),
        Task::Progress(RUNTIME_DONE),
        Task::Progress(COMPLETE),
        Task::Status(Stage::InstallingPlugins),
    ]);
}

} // verus!
