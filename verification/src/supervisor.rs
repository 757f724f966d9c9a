//! The decisions taken while an engine's chain is brought up and taken down.
//!
//! Bringing a chain up alternates work on the machine (looking for an
//! executable, writing a config file, starting a process, watching a port)
//! with decisions. The work is the caller's; the `Supervisor` here keeps the
//! record of what runs and decides, from each outcome, what comes next. A
//! step that never opens its port tears the whole chain down rather than
//! leaving half of it running, because a half-started chain is
//! indistinguishable from a working one from the outside.

use vstd::prelude::*;
use crate::config::{args_for, env_for, global_config, global_config_text, step_args, step_env, tun_config, tunnel_config};
use crate::engine::{
    label_of, plan_socks, plan_steps, step_timeout_secs, stem_of, timeout_secs, Engine, Step, AETHER_PORT,
    GLOBAL_PORT, TUN_API_PORT,
};
use crate::paths::{
    binary_file_name, bundled_binary, bundled_tunnel, config_file, config_file_in, exe_name,
    global_store, global_store_dir, host_is_windows, is_path_separator, joined_path, log_file,
    log_path, tunnel_dir, tunnel_dir_in, tunnel_log, tunnel_log_path,
};
use crate::region::{normalise_region, normalised_region};

verus! {

broadcast use vstd::string::group_string_axioms;

/// How long the tunnel may take to bring its adapter up, in seconds.
pub const TUNNEL_TIMEOUT_SECS: u64 = 20;

/// A process that the supervisor has running, in the order they started.
#[derive(Debug, Clone, Copy, PartialEq, Eq, Structural)]
pub enum Proc {
    /// One step of an engine's chain.
    Core(Engine),
    /// The whole-system tunnel.
    Tunnel,
}

/// Where a start stands. The number is the position of the step in hand in
/// the engine's plan.
#[derive(Debug, Clone, Copy, PartialEq, Eq, Structural)]
pub enum Stage {
    /// No start is under way.
    Idle,
    /// Waiting to hear whether the step's executable exists.
    CheckCore(usize),
    /// Waiting to hear whether the Global engine's config was written.
    WriteCore(usize),
    /// Waiting to hear whether the step's process started.
    SpawnCore(usize),
    /// Watching for the step's port to open.
    WaitCore(usize),
    /// Waiting to hear whether the tunnel's executable exists.
    CheckTunnel,
    /// Waiting to hear whether the tunnel's config was written.
    WriteTunnel,
    /// Waiting to hear whether the tunnel's process started.
    SpawnTunnel,
    /// Watching for the tunnel's control port to open.
    WaitTunnel,
}

/// Why a start failed.
#[derive(Debug, Clone, Copy, PartialEq, Eq, Structural)]
pub enum StartErrorKind {
    /// An executable is not where it should be.
    NotFound,
    /// A core exited before it opened its port.
    ConnectionRefused,
    /// A process started but its port never opened in time.
    TimedOut,
    /// The tunnel exited while setting up, as it does without admin rights.
    PermissionDenied,
    /// The machine refused a file write or a process start; that refusal is
    /// the error to report.
    Io,
}

/// A failed start: why, and what to tell the user (empty for `Io`).
pub struct StartError {
    pub kind: StartErrorKind,
    pub message: String,
}

/// What the caller is to do next, or what the start came to.
pub enum StartAction {
    /// Find out whether a file exists, and report it to `on_exists`.
    CheckExists { path: String },
    /// Create the directory, write the text to the file, and report whether
    /// both worked to `on_written`.
    WriteFile { dir: String, path: String, text: String },
    /// Start a core with these arguments and environment, its output going
    /// to the log file and its working directory `cwd` (when that can be
    /// created), and report whether it started to `on_spawned`.
    Spawn {
        program: String,
        args: Vec<String>,
        env: Vec<(String, String)>,
        log: String,
        cwd: String,
    },
    /// Start the tunnel as `program run -c <config> -D <dir>` (see
    /// `tunnel_args`) in `dir`, its output going to the log file, and report
    /// whether it started to `on_spawned`.
    SpawnTunnel { program: String, config: String, dir: String, log: String },
    /// Start a deadline this many seconds away and probe: whether the
    /// deadline is still ahead, whether the port is open, whether the
    /// process just started has exited; report them to `on_probe`.
    Watch { port: u16, secs: u64 },
    /// Wait a moment (200 ms) and probe again, against the same deadline.
    Pause,
    /// The chain is up and serves on this port.
    Ready { socks: u16 },
    /// The start failed. The processes in `stop` are to be stopped, in that
    /// order: every one that was running, last started first. With
    /// `kill_tunnel`, the tunnel process just started (and not yet counted as
    /// running) is to be killed too.
    Fail { stop: Vec<Proc>, kill_tunnel: bool, error: StartError },
}

pub ghost enum StartActionView {
    CheckExists { path: Seq<char> },
    WriteFile { dir: Seq<char>, path: Seq<char>, text: Seq<char> },
    Spawn {
        program: Seq<char>,
        args: Seq<Seq<char>>,
        env: Seq<(Seq<char>, Seq<char>)>,
        log: Seq<char>,
        cwd: Seq<char>,
    },
    SpawnTunnel { program: Seq<char>, config: Seq<char>, dir: Seq<char>, log: Seq<char> },
    Watch { port: u16, secs: u64 },
    Pause,
    Ready { socks: u16 },
    Fail { stop: Seq<Proc>, kill_tunnel: bool, kind: StartErrorKind, message: Seq<char> },
}

impl View for StartAction {
    type V = StartActionView;

    open spec fn view(&self) -> StartActionView {
        match self {
            StartAction::CheckExists { path } => StartActionView::CheckExists { path: path@ },
            StartAction::WriteFile { dir, path, text } => StartActionView::WriteFile {
                dir: dir@,
                path: path@,
                text: text@,
            },
            StartAction::Spawn { program, args, env, log, cwd } => StartActionView::Spawn {
                program: program@,
                args: args.deep_view(),
                env: env.deep_view(),
                log: log@,
                cwd: cwd@,
            },
            StartAction::SpawnTunnel { program, config, dir, log } => StartActionView::SpawnTunnel {
                program: program@,
                config: config@,
                dir: dir@,
                log: log@,
            },
            StartAction::Watch { port, secs } => StartActionView::Watch { port: *port, secs: *secs },
            StartAction::Pause => StartActionView::Pause,
            StartAction::Ready { socks } => StartActionView::Ready { socks: *socks },
            StartAction::Fail { stop, kill_tunnel, error } => StartActionView::Fail {
                stop: stop@,
                kill_tunnel: *kill_tunnel,
                kind: error.kind,
                message: error.message@,
            },
        }
    }
}

/// The supervisor's record: where the executables and the data live, whether
/// the whole-system tunnel is wanted, which engine serves on which port, what
/// runs, and the start under way.
pub struct Supervisor {
    resources: String,
    data: String,
    windows: bool,
    tunnel: bool,
    current: Option<Engine>,
    socks: Option<u16>,
    region: String,
    children: Vec<Proc>,
    stage: Stage,
    target: Engine,
    with_tunnel: bool,
    wanted: String,
    step: Step,
    bin: String,
    log: String,
    dir: String,
    config: String,
}

pub ghost struct SupervisorView {
    pub resources: Seq<char>,
    pub data: Seq<char>,
    /// Whether executables carry the Windows suffix on this machine.
    pub windows: bool,
    pub tunnel: bool,
    pub current: Option<Engine>,
    pub socks: Option<u16>,
    pub region: Seq<char>,
    pub children: Seq<Proc>,
    pub stage: Stage,
    /// The engine being brought up.
    pub target: Engine,
    /// Whether the tunnel is brought up after it (as wanted when the start began).
    pub with_tunnel: bool,
    /// The exit country it is being brought up with, normalised.
    pub wanted: Seq<char>,
    /// The step in hand.
    pub step: Step,
    /// The executable, log file, config directory and config file in hand.
    pub bin: Seq<char>,
    pub log: Seq<char>,
    pub dir: Seq<char>,
    pub config: Seq<char>,
}

impl View for Supervisor {
    type V = SupervisorView;

    closed spec fn view(&self) -> SupervisorView {
        SupervisorView {
            resources: self.resources@,
            data: self.data@,
            windows: self.windows,
            tunnel: self.tunnel,
            current: self.current,
            socks: self.socks,
            region: self.region@,
            children: self.children@,
            stage: self.stage,
            target: self.target,
            with_tunnel: self.with_tunnel,
            wanted: self.wanted@,
            step: self.step,
            bin: self.bin@,
            log: self.log@,
            dir: self.dir@,
            config: self.config@,
        }
    }
}

/// The processes that the given steps run, in order.
pub open spec fn cores(steps: Seq<Step>) -> Seq<Proc> {
    steps.map_values(|st: Step| Proc::Core(st.engine))
}

impl SupervisorView {
    /// The record is consistent: during a start, the step in hand is the
    /// plan's step at its position, and exactly the steps before it (and it
    /// too, once it has started) are running, in order; while the tunnel is
    /// brought up, the whole chain is running.
    pub open spec fn wf(self) -> bool {
        let steps = plan_steps(self.target);
        &&& !(self.stage is Idle) ==> self.current is None && self.socks is None
            && self.region.len() == 0
        &&& (self.stage is CheckCore || self.stage is WriteCore || self.stage is SpawnCore
            || self.stage is WaitCore) ==> self.bin == joined_path(
            self.resources,
            exe_name(stem_of(self.step.engine), self.windows),
        )
        &&& self.stage is WriteCore ==> {
            &&& self.step.engine is Global
            &&& self.dir == global_store(self.data)
            &&& self.config == config_file(self.dir)
        }
        &&& match self.stage {
            Stage::Idle => true,
            Stage::CheckCore(i) | Stage::WriteCore(i) | Stage::SpawnCore(i) => {
                &&& i < steps.len()
                &&& self.step == steps[i as int]
                &&& self.children == cores(steps.take(i as int))
            },
            Stage::WaitCore(i) => {
                &&& i < steps.len()
                &&& self.step == steps[i as int]
                &&& self.children == cores(steps.take(i + 1))
            },
            _ => self.with_tunnel && self.children == cores(steps),
        }
    }

    /// Nothing runs and nothing is current.
    pub open spec fn stopped(self) -> SupervisorView {
        SupervisorView {
            children: Seq::<Proc>::empty(),
            current: None,
            socks: None,
            region: Seq::<char>::empty(),
            stage: Stage::Idle,
            ..self
        }
    }

    /// The order in which what runs is stopped: last started, first stopped.
    pub open spec fn stop_order(self) -> Seq<Proc> {
        self.children.reverse()
    }

    /// The record with everything stopped, reporting a failure and handing
    /// over what is to be stopped.
    pub open spec fn fail_stopped(self, kind: StartErrorKind, message: Seq<char>, kill_tunnel: bool) -> (
        SupervisorView,
        StartActionView,
    ) {
        (
            self.stopped(),
            StartActionView::Fail { stop: self.stop_order(), kill_tunnel, kind, message },
        )
    }

    /// Where an engine's executable is on this machine.
    pub open spec fn core_binary(self, e: Engine) -> Seq<char> {
        joined_path(self.resources, exe_name(stem_of(e), self.windows))
    }

    /// Where the tunnel's executable is on this machine.
    pub open spec fn tunnel_binary(self) -> Seq<char> {
        joined_path(self.resources, exe_name("sing-box"@, self.windows))
    }

    /// Taking up the plan's step at position `i`: look for its executable.
    pub open spec fn check_core(self, i: int) -> (SupervisorView, StartActionView) {
        let step = plan_steps(self.target)[i];
        let bin = self.core_binary(step.engine);
        (
            SupervisorView { stage: Stage::CheckCore(i as usize), step, bin, ..self },
            StartActionView::CheckExists { path: bin },
        )
    }

    /// Starting the step in hand, with its config file if it has one.
    pub open spec fn spawn_core(self, i: usize, config: Option<Seq<char>>) -> (SupervisorView, StartActionView) {
        let log = log_file(self.data, self.step.engine);
        (
            SupervisorView { stage: Stage::SpawnCore(i), log, ..self },
            StartActionView::Spawn {
                program: self.bin,
                args: step_args(self.step, config),
                env: step_env(self.step, self.data),
                log,
                cwd: self.data,
            },
        )
    }

    /// The chain is up: it becomes current.
    pub open spec fn ready(self) -> (SupervisorView, StartActionView) {
        (
            SupervisorView {
                current: Some(self.target),
                socks: Some(plan_socks(self.target)),
                region: if self.target is Global {
                    self.wanted
                } else {
                    Seq::<char>::empty()
                },
                stage: Stage::Idle,
                ..self
            },
            StartActionView::Ready { socks: plan_socks(self.target) },
        )
    }

    /// The step at position `i` is up: take up the next one, or the tunnel,
    /// or finish.
    pub open spec fn after_core_up(self, i: usize) -> (SupervisorView, StartActionView) {
        if i + 1 < plan_steps(self.target).len() {
            self.check_core(i + 1)
        } else if self.with_tunnel {
            let bin = self.tunnel_binary();
            (
                SupervisorView { stage: Stage::CheckTunnel, bin, ..self },
                StartActionView::CheckExists { path: bin },
            )
        } else {
            self.ready()
        }
    }
}

/// A start of `engine` with the exit country `region`: whatever ran is
/// stopped first, then the first step's executable is looked for.
pub open spec fn after_start(s: SupervisorView, engine: Engine, region: Seq<char>) -> (
    SupervisorView,
    StartActionView,
) {
    SupervisorView {
        target: engine,
        with_tunnel: s.tunnel,
        wanted: normalised_region(region),
        ..s.stopped()
    }.check_core(0)
}

/// The step taken on hearing whether an executable exists.
pub open spec fn after_exists(s: SupervisorView, found: bool) -> (SupervisorView, StartActionView) {
    match s.stage {
        Stage::CheckCore(i) => if !found {
            s.fail_stopped(
                StartErrorKind::NotFound,
                label_of(s.step.engine) + " core was not found at "@ + s.bin,
                false,
            )
        } else if s.step.engine is Global {
            let dir = global_store(s.data);
            let config = config_file(dir);
            (
                SupervisorView { stage: Stage::WriteCore(i), dir, config, ..s },
                StartActionView::WriteFile {
                    dir,
                    path: config,
                    text: global_config(dir, s.step.port, s.step.upstream, s.wanted),
                },
            )
        } else {
            s.spawn_core(i, None)
        },
        _ => if !found {
            s.fail_stopped(StartErrorKind::NotFound, "the tunnel core was not found at "@ + s.bin, false)
        } else {
            let dir = tunnel_dir(s.data);
            let config = config_file(dir);
            (
                SupervisorView { stage: Stage::WriteTunnel, dir, config, ..s },
                StartActionView::WriteFile { dir, path: config, text: tunnel_config(plan_socks(s.target)) },
            )
        },
    }
}

/// The step taken on hearing whether a config file was written. A failed
/// write, like every other failure, stops every process of the chain.
pub open spec fn after_written(s: SupervisorView, ok: bool) -> (SupervisorView, StartActionView) {
    match s.stage {
        Stage::WriteCore(i) => if !ok {
            s.fail_stopped(StartErrorKind::Io, Seq::<char>::empty(), false)
        } else {
            s.spawn_core(i, Some(s.config))
        },
        _ => if !ok {
            s.fail_stopped(StartErrorKind::Io, Seq::<char>::empty(), false)
        } else {
            let log = tunnel_log(s.data);
            (
                SupervisorView { stage: Stage::SpawnTunnel, log, ..s },
                StartActionView::SpawnTunnel { program: s.bin, config: s.config, dir: s.dir, log },
            )
        },
    }
}

/// The step taken on hearing whether a process started. A core that started
/// counts as running at once; the tunnel only once its port opens.
pub open spec fn after_spawned(s: SupervisorView, ok: bool) -> (SupervisorView, StartActionView) {
    if !ok {
        s.fail_stopped(StartErrorKind::Io, Seq::<char>::empty(), false)
    } else {
        match s.stage {
            Stage::SpawnCore(i) => (
                SupervisorView {
                    stage: Stage::WaitCore(i),
                    children: s.children.push(Proc::Core(s.step.engine)),
                    ..s
                },
                StartActionView::Watch { port: s.step.port, secs: timeout_secs(s.step.engine) },
            ),
            _ => (
                SupervisorView { stage: Stage::WaitTunnel, ..s },
                StartActionView::Watch { port: TUN_API_PORT, secs: TUNNEL_TIMEOUT_SECS },
            ),
        }
    }
}

/// The step taken on a probe. For a core, the port is looked at before the
/// process: a port that opened wins even if the process has since exited.
/// For the tunnel, an exit is reported at once with the log rather than
/// waited out.
pub open spec fn after_probe(s: SupervisorView, in_time: bool, port_open: bool, exited: bool) -> (
    SupervisorView,
    StartActionView,
) {
    match s.stage {
        Stage::WaitCore(i) => if !in_time {
            s.fail_stopped(
                StartErrorKind::TimedOut,
                label_of(s.step.engine) + " started but never accepted connections; see "@ + s.log,
                false,
            )
        } else if port_open {
            s.after_core_up(i)
        } else if exited {
            s.fail_stopped(
                StartErrorKind::ConnectionRefused,
                label_of(s.step.engine) + " exited before it could connect; see "@ + s.log,
                false,
            )
        } else {
            (s, StartActionView::Pause)
        },
        _ => if !in_time {
            s.fail_stopped(StartErrorKind::TimedOut, "the tunnel did not come up; see "@ + s.log, true)
        } else if exited {
            s.fail_stopped(
                StartErrorKind::PermissionDenied,
                "the tunnel could not start; see "@ + s.log,
                false,
            )
        } else if port_open {
            SupervisorView { children: s.children.push(Proc::Tunnel), ..s }.ready()
        } else {
            (s, StartActionView::Pause)
        },
    }
}

/// What the caller reports back during a start.
pub ghost enum StartEvent {
    Exists(bool),
    Written(bool),
    Spawned(bool),
    Probe { in_time: bool, port_open: bool, exited: bool },
}

/// Whether the start is waiting for this kind of report.
pub open spec fn awaits(s: SupervisorView, ev: StartEvent) -> bool {
    match ev {
        StartEvent::Exists(_) => s.stage is CheckCore || s.stage is CheckTunnel,
        StartEvent::Written(_) => s.stage is WriteCore || s.stage is WriteTunnel,
        StartEvent::Spawned(_) => s.stage is SpawnCore || s.stage is SpawnTunnel,
        StartEvent::Probe { .. } => s.stage is WaitCore || s.stage is WaitTunnel,
    }
}

/// The step taken on a report.
pub open spec fn after_event(s: SupervisorView, ev: StartEvent) -> (SupervisorView, StartActionView) {
    match ev {
        StartEvent::Exists(found) => after_exists(s, found),
        StartEvent::Written(ok) => after_written(s, ok),
        StartEvent::Spawned(ok) => after_spawned(s, ok),
        StartEvent::Probe { in_time, port_open, exited } => after_probe(s, in_time, port_open, exited),
    }
}

proof fn lemma_cores_grow(steps: Seq<Step>, i: int)
    requires
        0 <= i < steps.len(),
    ensures
        cores(steps.take(i + 1)) == cores(steps.take(i)).push(Proc::Core(steps[i].engine)),
{
    assert(cores(steps.take(i + 1)) =~= cores(steps.take(i)).push(Proc::Core(steps[i].engine)));
}

/// Every start, and every step of one, keeps the record consistent.
pub proof fn lemma_start_keeps_record_consistent(s: SupervisorView, engine: Engine, region: Seq<char>, ev: StartEvent)
    ensures
        after_start(s, engine, region).0.wf(),
        s.wf() && awaits(s, ev) ==> after_event(s, ev).0.wf(),
{
    assert(cores(plan_steps(engine).take(0)) =~= Seq::<Proc>::empty());
    if s.wf() && awaits(s, ev) {
        let steps = plan_steps(s.target);
        match s.stage {
            Stage::SpawnCore(i) => {
                lemma_cores_grow(steps, i as int);
            },
            Stage::WaitCore(i) => {
                if i + 1 < steps.len() {
                } else {
                    assert(steps.take(i + 1) =~= steps);
                }
            },
            _ => {},
        }
    }
}

/// A start first stops whatever ran: nothing runs and nothing is current
/// while the new chain comes up, and the first thing done is to look for the
/// executable of the plan's first step.
pub proof fn lemma_start_stops_first(s: SupervisorView, engine: Engine, region: Seq<char>)
    ensures
        ({
            let (n, a) = after_start(s, engine, region);
            &&& n.children.len() == 0
            &&& n.current is None
            &&& n.socks is None
            &&& n.stage == Stage::CheckCore(0)
            &&& a == StartActionView::CheckExists { path: s.core_binary(plan_steps(engine)[0].engine) }
        }),
{
}

/// On the platform the library was built for, the executables a start looks
/// for and then starts are the bundled ones that `binary_path` and
/// `tun_binary` name.
pub proof fn lemma_starts_the_bundled_binaries(s: SupervisorView, e: Engine)
    requires
        s.windows == is_path_separator('\\'),
    ensures
        s.core_binary(e) == bundled_binary(s.resources, e),
        s.tunnel_binary() == bundled_tunnel(s.resources),
{
}

/// A start that fails, whatever the failure, leaves nothing running and
/// nothing current: every process that was running is handed over to be
/// stopped, last started first, so a half-started chain is never left behind.
pub proof fn lemma_failed_start_leaves_nothing_running(s: SupervisorView, ev: StartEvent)
    requires
        awaits(s, ev),
    ensures
        after_event(s, ev).1 is Fail ==> {
            let n = after_event(s, ev).0;
            &&& n.stage is Idle
            &&& n.current is None
            &&& n.children.len() == 0
            &&& n.socks is None
            &&& n.region.len() == 0
        },
        after_event(s, ev).1 matches StartActionView::Fail { stop, .. } ==> stop == s.children.reverse(),
{
}

/// Every process a start asks for is the step in hand's own engine, run from
/// its bundled executable: the program of each core spawn is that engine's
/// executable under the resources directory, the step is the plan's step at
/// the position the start stands at, and the executable is the very path
/// that was looked for just before.
pub proof fn lemma_each_step_runs_its_own_executable(s: SupervisorView, ev: StartEvent)
    requires
        s.wf(),
        awaits(s, ev),
    ensures
        after_event(s, ev).1 matches StartActionView::Spawn { program, .. } ==> {
            &&& program == joined_path(s.resources, exe_name(stem_of(s.step.engine), s.windows))
            &&& program == s.bin
            &&& (s.stage is CheckCore || s.stage is WriteCore)
            &&& (s.stage matches Stage::CheckCore(i) ==> s.step == plan_steps(s.target)[i as int])
            &&& (s.stage matches Stage::WriteCore(i) ==> s.step == plan_steps(s.target)[i as int])
        },
        after_event(s, ev).1 matches StartActionView::CheckExists { path } ==> (after_event(s, ev).0.stage
            is CheckCore ==> {
            let n = after_event(s, ev).0;
            &&& path == joined_path(s.resources, exe_name(stem_of(n.step.engine), s.windows))
            &&& n.stage matches Stage::CheckCore(j) && n.step == plan_steps(s.target)[j as int]
        }),
{
}

/// The Global engine runs on the config written for it. Once its executable
/// is found, the config naming its store, its port, the Aether hop it dials
/// out through and the exit country asked for (normalised) is written to the
/// config file in its store; and the Global step is started only on hearing
/// that this write succeeded, with that file as its `-config`.
pub proof fn lemma_global_runs_on_its_written_config(s: SupervisorView, ev: StartEvent)
    requires
        s.wf(),
        awaits(s, ev),
    ensures
        s.stage is CheckCore && s.step.engine is Global && ev == StartEvent::Exists(true) ==> after_event(
            s,
            ev,
        ).1 == (StartActionView::WriteFile {
            dir: global_store(s.data),
            path: config_file(global_store(s.data)),
            text: global_config(global_store(s.data), GLOBAL_PORT, Some(AETHER_PORT), s.wanted),
        }),
        after_event(s, ev).1 matches StartActionView::Spawn { args, .. } ==> (s.step.engine is Global ==> {
            &&& ev == StartEvent::Written(true)
            &&& s.stage is WriteCore
            &&& args == seq!["-config"@, config_file(global_store(s.data))]
        }),
{
    if s.step.engine is Global && (s.stage is CheckCore || s.stage is WriteCore) {
        let i: int = match s.stage {
            Stage::CheckCore(i) => i as int,
            Stage::WriteCore(i) => i as int,
            _ => 0,
        };
        assert(plan_steps(s.target)[i].engine is Global);
        assert(s.target is Global);
        assert(i == 1);
    }
}

/// The exit country asked for reaches nothing but the Global engine's
/// config. A start asks for the same first action whatever the country, and
/// keeps the country (normalised) for the whole start; every later action is
/// the same whatever the country, but for the text of the Global config; and
/// the record moves on alike, but for the country in force once ready.
pub proof fn lemma_exit_country_only_reaches_the_global_config(
    s: SupervisorView,
    engine: Engine,
    r1: Seq<char>,
    r2: Seq<char>,
    w: Seq<char>,
    ev: StartEvent,
)
    ensures
        after_start(s, engine, r1).1 == after_start(s, engine, r2).1,
        after_start(s, engine, r1).0.wanted == normalised_region(r1),
        after_event(s, ev).0.wanted == s.wanted,
        !(s.stage is CheckCore && s.step.engine is Global) ==> after_event(SupervisorView { wanted: w, ..s }, ev).1
            == after_event(s, ev).1,
        after_event(SupervisorView { wanted: w, ..s }, ev).0 == (SupervisorView {
            wanted: w,
            region: after_event(SupervisorView { wanted: w, ..s }, ev).0.region,
            ..after_event(s, ev).0
        }),
{
}

/// A start that comes up runs the engine's whole chain, in plan order, then
/// the tunnel when it is wanted; the engine becomes current, on its plan's
/// port, with the exit country asked for in force when the engine is Global
/// (the only one that honours it) and automatic otherwise.
pub proof fn lemma_ready_runs_the_whole_chain(s: SupervisorView, ev: StartEvent)
    requires
        s.wf(),
        awaits(s, ev),
    ensures
        after_event(s, ev).1 matches StartActionView::Ready { socks } ==> {
            let n = after_event(s, ev).0;
            &&& ev matches StartEvent::Probe { in_time, port_open, .. } && in_time && port_open
            &&& socks == plan_socks(s.target)
            &&& n.current == Some(s.target)
            &&& n.socks == Some(socks)
            &&& n.region == if s.target is Global {
                s.wanted
            } else {
                Seq::<char>::empty()
            }
            &&& n.stage is Idle
            &&& n.children == if s.with_tunnel {
                cores(plan_steps(s.target)).push(Proc::Tunnel)
            } else {
                cores(plan_steps(s.target))
            }
        },
{
    let steps = plan_steps(s.target);
    match s.stage {
        Stage::WaitCore(i) => {
            if i + 1 >= steps.len() {
                assert(steps.take(i + 1) =~= steps);
            }
        },
        _ => {},
    }
}

/// Whether every one of the processes is alive, and there is at least one.
pub open spec fn all_alive(alive: Seq<bool>) -> bool {
    alive.len() > 0 && forall|i: int| 0 <= i < alive.len() ==> #[trigger] alive[i]
}

/// Whether a chain whose processes are alive or not as given counts as
/// running: there is at least one process and none has exited.
pub fn chain_is_running(alive: &[bool]) -> (r: bool)
    ensures
        r == all_alive(alive@),
        r ==> alive@.len() > 0,
        r ==> forall|i: int| 0 <= i < alive@.len() ==> alive@[i],
        (exists|i: int| 0 <= i < alive@.len() && !alive@[i]) ==> !r,
        alive@.len() > 0 && (forall|i: int| 0 <= i < alive@.len() ==> alive@[i]) ==> r,
{
    if alive.len() == 0 {
        return false;
    }
    let mut i: usize = 0;
    while i < alive.len()
        invariant
            i <= alive@.len(),
            forall|k: int| 0 <= k < i ==> alive@[k],
        decreases alive.len() - i,
    {
        if !alive[i] {
            return false;
        }
        i = i + 1;
    }
    true
}

/// A chain runs only while every one of its processes does: one that has
/// exited, wherever it stands in the chain, stops the chain counting as
/// running; an empty chain never runs; and two chains put one after the
/// other run together exactly when each runs on its own.
pub proof fn lemma_one_dead_process_stops_the_chain(alive: Seq<bool>, i: int, more: Seq<bool>)
    ensures
        0 <= i < alive.len() && !alive[i] ==> !all_alive(alive),
        all_alive(alive) && 0 <= i < alive.len() ==> alive[i],
        !all_alive(Seq::<bool>::empty()),
        alive.len() > 0 && more.len() > 0 ==> (all_alive(alive + more) <==> all_alive(alive) && all_alive(
            more,
        )),
{
    if alive.len() > 0 && more.len() > 0 {
        let both = alive + more;
        if all_alive(both) {
            assert forall|k: int| 0 <= k < alive.len() implies alive[k] by {
                assert(both[k] == alive[k]);
            }
            assert forall|k: int| 0 <= k < more.len() implies more[k] by {
                assert(both[alive.len() + k] == more[k]);
            }
        }
        if all_alive(alive) && all_alive(more) {
            assert forall|k: int| 0 <= k < both.len() implies both[k] by {
                if k < alive.len() {
                    assert(both[k] == alive[k]);
                } else {
                    assert(both[k] == more[k - alive.len()]);
                }
            }
        }
    }
}

/// What to do while waiting for a port to open.
#[derive(Debug, Clone, Copy, PartialEq, Eq, Structural)]
pub enum PortWait {
    /// The port is open.
    Up,
    /// The deadline has passed without the port opening.
    GiveUp,
    /// Wait a moment (200 ms) and look again.
    Sleep,
}

/// The decision taken on each look at a port that is being waited for: the
/// deadline is looked at first, then the port.
pub fn port_wait_step(in_time: bool, open: bool) -> (r: PortWait)
    ensures
        r == (if !in_time {
            PortWait::GiveUp
        } else if open {
            PortWait::Up
        } else {
            PortWait::Sleep
        }),
{
    if !in_time {
        PortWait::GiveUp
    } else if open {
        PortWait::Up
    } else {
        PortWait::Sleep
    }
}

/// The arguments the tunnel is started with.
pub open spec fn tunnel_arguments(config: Seq<char>, dir: Seq<char>) -> Seq<Seq<char>> {
    seq!["run"@, "-c"@, config, "-D"@, dir]
}

/// The tunnel's command line, for its config file and its state directory.
pub fn tunnel_args(config: &str, dir: &str) -> (r: Vec<String>)
    ensures
        r.deep_view() == tunnel_arguments(config@, dir@),
{
    let r = vec![
        "run".to_string(),
        "-c".to_string(),
        config.to_string(),
        "-D".to_string(),
        dir.to_string(),
    ];
    assert(r.deep_view() =~= tunnel_arguments(config@, dir@));
    r
}

fn text_of(s: &str) -> (r: String)
    ensures
        r@ == s@,
{
    s.to_string()
}

fn concat2(a: &str, b: &str) -> (r: String)
    ensures
        r@ == a@ + b@,
{
    let mut s = a.to_string();
    s.append(b);
    s
}

fn concat(a: &str, b: &str, c: &str) -> (r: String)
    ensures
        r@ == a@ + b@ + c@,
{
    let mut s = a.to_string();
    s.append(b);
    s.append(c);
    s
}

impl Supervisor {
    /// A supervisor with nothing running, for executables under `resources`
    /// and engine state under `data`. The tunnel is off until asked for.
    pub fn new(resources: &str, data: &str) -> (r: Supervisor)
        ensures
            r@.resources == resources@,
            r@.data == data@,
            r@.windows == is_path_separator('\\'),
            !r@.tunnel,
            r@.current is None,
            r@.socks is None,
            r@.region.len() == 0,
            r@.children.len() == 0,
            r@.stage is Idle,
            r@.wf(),
    {
        Supervisor {
            resources: text_of(resources),
            data: text_of(data),
            windows: host_is_windows(),
            tunnel: false,
            current: None,
            socks: None,
            region: String::new(),
            children: Vec::new(),
            stage: Stage::Idle,
            target: Engine::Aether,
            with_tunnel: false,
            wanted: String::new(),
            step: Step { engine: Engine::Aether, port: crate::engine::AETHER_PORT, upstream: None },
            bin: String::new(),
            log: String::new(),
            dir: String::new(),
            config: String::new(),
        }
    }

    /// Whole-system mode: after the engine is up, the tunnel routes every app
    /// through it. Off by default so the engine logic can be tested without a
    /// TUN adapter; the app turns it on.
    pub fn set_tunnel(&mut self, on: bool)
        ensures
            final(self)@ == (SupervisorView { tunnel: on, ..old(self)@ }),
    {
        self.tunnel = on;
    }

    pub fn current(&self) -> (r: Option<Engine>)
        ensures
            r == self@.current,
    {
        self.current
    }

    pub fn socks_port(&self) -> (r: Option<u16>)
        ensures
            r == self@.socks,
    {
        self.socks
    }

    /// The exit country currently in force, or empty for automatic.
    pub fn region(&self) -> (r: &str)
        ensures
            r@ == self@.region,
    {
        self.region.as_str()
    }

    /// The processes recorded as running, in the order they started.
    pub fn running(&self) -> (r: &Vec<Proc>)
        ensures
            r@ == self@.children,
    {
        &self.children
    }

    /// Where the start under way stands.
    pub fn stage(&self) -> (r: Stage)
        ensures
            r == self@.stage,
    {
        self.stage
    }

    /// Everything running is to be stopped, in the order returned: last
    /// started, first stopped, so that an outer hop does not lose its route
    /// out from under it while it is still shutting down. Nothing runs and
    /// nothing is current afterwards, and any start under way is abandoned.
    pub fn stop(&mut self) -> (order: Vec<Proc>)
        ensures
            final(self)@ == old(self)@.stopped(),
            order@ == old(self)@.stop_order(),
    {
        let mut order: Vec<Proc> = Vec::new();
        let mut k: usize = self.children.len();
        while k > 0
            invariant
                k <= self.children@.len(),
                order@ == self.children@.subrange(k as int, self.children@.len() as int).reverse(),
            decreases k,
        {
            k = k - 1;
            order.push(self.children[k]);
            assert(order@ =~= self.children@.subrange(k as int, self.children@.len() as int).reverse());
        }
        assert(self.children@.subrange(0, self.children@.len() as int) =~= self.children@);
        self.children = Vec::new();
        self.current = None;
        self.socks = None;
        self.region = String::new();
        self.stage = Stage::Idle;
        order
    }

    /// Takes up the plan's step at position `i` of the engine in hand.
    fn take_up(&mut self, i: usize) -> (r: StartAction)
        requires
            i < plan_steps(old(self)@.target).len(),
        ensures
            (final(self)@, r@) == old(self)@.check_core(i as int),
    {
        let plan = self.target.plan();
        let step = plan.steps[i];
        let name = binary_file_name(step.engine, self.windows);
        let bin = crate::paths::join_path(self.resources.as_str(), name.as_str());
        self.stage = Stage::CheckCore(i);
        self.step = step;
        self.bin = text_of(bin.as_str());
        StartAction::CheckExists { path: bin }
    }

    /// Starts bringing up `engine` with the exit country `region` (an ISO
    /// country code, or empty for automatic; only the Global engine honours
    /// it). Whatever ran is stopped first: the processes returned first are
    /// to be stopped, in that order (last started, first stopped), before
    /// the action returned second is taken.
    pub fn start_in(&mut self, engine: Engine, region: &str) -> (r: (Vec<Proc>, StartAction))
        ensures
            r.0@ == old(self)@.stop_order(),
            (final(self)@, r.1@) == after_start(old(self)@, engine, region@),
    {
        let order = self.stop();
        self.target = engine;
        self.with_tunnel = self.tunnel;
        self.wanted = normalise_region(region);
        (order, self.take_up(0))
    }

    /// Starts bringing up `engine` with the exit chosen automatically; what
    /// ran is stopped first, as by `start_in`.
    pub fn start(&mut self, engine: Engine) -> (r: (Vec<Proc>, StartAction))
        ensures
            r.0@ == old(self)@.stop_order(),
            (final(self)@, r.1@) == after_start(old(self)@, engine, ""@),
    {
        self.start_in(engine, "")
    }

    fn fail_stopping(&mut self, kind: StartErrorKind, message: String, kill_tunnel: bool) -> (r: StartAction)
        ensures
            (final(self)@, r@) == old(self)@.fail_stopped(kind, message@, kill_tunnel),
    {
        let stop = self.stop();
        StartAction::Fail { stop, kill_tunnel, error: StartError { kind, message } }
    }

    fn spawn_step(&mut self, i: usize, config: Option<&str>) -> (r: StartAction)
        ensures
            (final(self)@, r@) == old(self)@.spawn_core(i, crate::config::opt_view(config)),
    {
        let log = log_path(self.data.as_str(), self.step.engine);
        self.stage = Stage::SpawnCore(i);
        self.log = text_of(log.as_str());
        StartAction::Spawn {
            program: text_of(self.bin.as_str()),
            args: args_for(self.step, config),
            env: env_for(self.step, self.data.as_str()),
            log,
            cwd: text_of(self.data.as_str()),
        }
    }

    fn finish(&mut self) -> (r: StartAction)
        ensures
            (final(self)@, r@) == old(self)@.ready(),
    {
        let socks: u16 = self.target.plan().socks;
        self.current = Some(self.target);
        self.socks = Some(socks);
        // Only the Global engine honours an exit country; for the others the
        // exit is automatic.
        self.region = if self.target == Engine::Global {
            text_of(self.wanted.as_str())
        } else {
            String::new()
        };
        self.stage = Stage::Idle;
        StartAction::Ready { socks }
    }

    /// Hears whether the executable asked about exists.
    pub fn on_exists(&mut self, found: bool) -> (r: StartAction)
        requires
            old(self)@.stage is CheckCore || old(self)@.stage is CheckTunnel,
        ensures
            (final(self)@, r@) == after_exists(old(self)@, found),
    {
        match self.stage {
            Stage::CheckCore(i) => {
                if !found {
                    let label = self.step.engine.label();
                    let message = concat(label, " core was not found at ", self.bin.as_str());
                    self.fail_stopping(StartErrorKind::NotFound, message, false)
                } else if self.step.engine == Engine::Global {
                    let dir = global_store_dir(self.data.as_str());
                    let config = config_file_in(dir.as_str());
                    let text = global_config_text(
                        dir.as_str(),
                        self.step.port,
                        self.step.upstream,
                        self.wanted.as_str(),
                    );
                    self.stage = Stage::WriteCore(i);
                    self.dir = text_of(dir.as_str());
                    self.config = text_of(config.as_str());
                    StartAction::WriteFile { dir, path: config, text }
                } else {
                    self.spawn_step(i, None)
                }
            },
            _ => {
                if !found {
                    let message = concat2("the tunnel core was not found at ", self.bin.as_str());
                    self.fail_stopping(StartErrorKind::NotFound, message, false)
                } else {
                    let dir = tunnel_dir_in(self.data.as_str());
                    let config = config_file_in(dir.as_str());
                    let text = tun_config(self.target.plan().socks);
                    self.stage = Stage::WriteTunnel;
                    self.dir = text_of(dir.as_str());
                    self.config = text_of(config.as_str());
                    StartAction::WriteFile { dir, path: config, text }
                }
            },
        }
    }

    /// Hears whether the config file asked for was written.
    pub fn on_written(&mut self, ok: bool) -> (r: StartAction)
        requires
            old(self)@.stage is WriteCore || old(self)@.stage is WriteTunnel,
        ensures
            (final(self)@, r@) == after_written(old(self)@, ok),
    {
        match self.stage {
            Stage::WriteCore(i) => {
                if !ok {
                    self.fail_stopping(StartErrorKind::Io, String::new(), false)
                } else {
                    let config = text_of(self.config.as_str());
                    self.spawn_step(i, Some(config.as_str()))
                }
            },
            _ => {
                if !ok {
                    self.fail_stopping(StartErrorKind::Io, String::new(), false)
                } else {
                    let log = tunnel_log_path(self.data.as_str());
                    self.stage = Stage::SpawnTunnel;
                    self.log = text_of(log.as_str());
                    StartAction::SpawnTunnel {
                        program: text_of(self.bin.as_str()),
                        config: text_of(self.config.as_str()),
                        dir: text_of(self.dir.as_str()),
                        log,
                    }
                }
            },
        }
    }

    /// Hears whether the process asked for started.
    pub fn on_spawned(&mut self, ok: bool) -> (r: StartAction)
        requires
            old(self)@.stage is SpawnCore || old(self)@.stage is SpawnTunnel,
        ensures
            (final(self)@, r@) == after_spawned(old(self)@, ok),
    {
        if !ok {
            return self.fail_stopping(StartErrorKind::Io, String::new(), false);
        }
        match self.stage {
            Stage::SpawnCore(i) => {
                self.children.push(Proc::Core(self.step.engine));
                self.stage = Stage::WaitCore(i);
                StartAction::Watch { port: self.step.port, secs: step_timeout_secs(self.step.engine) }
            },
            _ => {
                self.stage = Stage::WaitTunnel;
                StartAction::Watch { port: TUN_API_PORT, secs: TUNNEL_TIMEOUT_SECS }
            },
        }
    }

    /// Hears a probe of the process being watched: whether its deadline is
    /// still ahead, whether its port is open, whether it has exited.
    pub fn on_probe(&mut self, in_time: bool, port_open: bool, exited: bool) -> (r: StartAction)
        requires
            old(self)@.stage is WaitCore || old(self)@.stage is WaitTunnel,
        ensures
            (final(self)@, r@) == after_probe(old(self)@, in_time, port_open, exited),
    {
        match self.stage {
            Stage::WaitCore(i) => {
                if !in_time {
                    let message = concat(
                        self.step.engine.label(),
                        " started but never accepted connections; see ",
                        self.log.as_str(),
                    );
                    self.fail_stopping(StartErrorKind::TimedOut, message, false)
                } else if port_open {
                    let steps: usize = self.target.plan().steps.len();
                    if i < steps - 1 {
                        self.take_up(i + 1)
                    } else if self.with_tunnel {
                        let name = crate::paths::exe_file("sing-box", self.windows);
                        let bin = crate::paths::join_path(self.resources.as_str(), name.as_str());
                        self.stage = Stage::CheckTunnel;
                        self.bin = text_of(bin.as_str());
                        StartAction::CheckExists { path: bin }
                    } else {
                        self.finish()
                    }
                } else if exited {
                    let message = concat(
                        self.step.engine.label(),
                        " exited before it could connect; see ",
                        self.log.as_str(),
                    );
                    self.fail_stopping(StartErrorKind::ConnectionRefused, message, false)
                } else {
                    StartAction::Pause
                }
            },
            _ => {
                if !in_time {
                    let message = concat2("the tunnel did not come up; see ", self.log.as_str());
                    self.fail_stopping(StartErrorKind::TimedOut, message, true)
                } else if exited {
                    let message = concat2("the tunnel could not start; see ", self.log.as_str());
                    self.fail_stopping(StartErrorKind::PermissionDenied, message, false)
                } else if port_open {
                    self.children.push(Proc::Tunnel);
                    self.finish()
                } else {
                    StartAction::Pause
                }
            },
        }
    }
}

} // verus!
