//! One supervised process: how it is described, started, and brought down.

use crate::service::{
    self, name_of, reset_of, BreakerView, CircuitBreaker, ServiceKind, ServiceState,
    ServiceStateView,
};
use crate::text;
use vstd::prelude::*;

verus! {

/// How to bring a service down cleanly.
///
/// Default is fine for stateless services (mailpit, nginx, redis). DB engines
/// that hold open WAL/InnoDB state need a longer grace window — SIGKILLing a
/// mid-flush mysqld shreds `ib_logfile`. Postgres prefers `pg_ctl stop -m fast`
/// for a coordinated checkpoint before any signal is sent.
#[derive(Debug, Clone)]
pub enum ShutdownStrategy {
    /// SIGTERM to the process group, 5s grace, then SIGKILL.
    Default,
    /// SIGTERM, `grace_ms` wait, then SIGKILL. For mysqld (~20s).
    LongGrace { grace_ms: u64 },
    /// `pg_ctl stop -m fast -D <datadir>` first; falls back to SIGTERM + 20s
    /// grace + SIGKILL if pg_ctl fails or isn't on disk.
    Postgres { datadir: String, pg_ctl_binary: String },
}

pub enum StrategyView {
    Default,
    LongGrace { grace_ms: u64 },
    Postgres { datadir: Seq<char>, pg_ctl_binary: Seq<char> },
}

impl View for ShutdownStrategy {
    type V = StrategyView;

    open spec fn view(&self) -> StrategyView {
        match self {
            ShutdownStrategy::Default => StrategyView::Default,
            ShutdownStrategy::LongGrace { grace_ms } => StrategyView::LongGrace {
                grace_ms: *grace_ms,
            },
            ShutdownStrategy::Postgres { datadir, pg_ctl_binary } => StrategyView::Postgres {
                datadir: datadir@,
                pg_ctl_binary: pg_ctl_binary@,
            },
        }
    }
}

/// How long a service is given to exit before it is killed, in milliseconds.
pub open spec fn grace_of(s: StrategyView) -> u64 {
    match s {
        StrategyView::Default => 5000,
        StrategyView::LongGrace { grace_ms } => grace_ms,
        StrategyView::Postgres { datadir, pg_ctl_binary } => 20000,
    }
}

impl ShutdownStrategy {
    /// How long a service is given to exit before it is killed, in
    /// milliseconds.
    pub fn grace(&self) -> (r: u64)
        ensures
            r == grace_of(self@),
    {
        match self {
            ShutdownStrategy::Default => 5000,
            ShutdownStrategy::LongGrace { grace_ms } => *grace_ms,
            ShutdownStrategy::Postgres { datadir: _, pg_ctl_binary: _ } => 20000,
        }
    }

    /// Whether the grace window is over, so many milliseconds after it opened.
    pub fn grace_over(&self, elapsed_ms: u64) -> (r: bool)
        ensures
            r == (elapsed_ms >= grace_of(self@)),
    {
        elapsed_ms >= self.grace()
    }

    /// The coordinated shutdown of Postgres, `pg_ctl stop -m fast`, which does a
    /// clean shutdown with a checkpoint: its command and arguments. No other
    /// strategy has one.
    pub fn coordinated(&self) -> (r: Option<(String, Vec<String>)>)
        ensures
            match self@ {
                StrategyView::Postgres { datadir, pg_ctl_binary } => match r {
                    Some(c) => c.0@ == pg_ctl_binary && text::texts(c.1@) == pg_ctl_args(datadir),
                    None => false,
                },
                _ => r is None,
            },
    {
        match self {
            ShutdownStrategy::Postgres { datadir, pg_ctl_binary } => {
                let mut args: Vec<String> = Vec::new();
                args.push("stop".to_owned());
                args.push("-m".to_owned());
                args.push("fast".to_owned());
                args.push("-w".to_owned());
                args.push("-D".to_owned());
                args.push(datadir.clone());
                proof {
                    assert(text::texts(args@) =~= pg_ctl_args(datadir@));
                }
                Some((pg_ctl_binary.clone(), args))
            },
            _ => None,
        }
    }
}

/// The arguments of the coordinated shutdown.
pub open spec fn pg_ctl_args(datadir: Seq<char>) -> Seq<Seq<char>> {
    seq!["stop"@, "-m"@, "fast"@, "-w"@, "-D"@, datadir]
}

#[derive(Debug, Clone, PartialEq, Eq)]
pub enum FpmLaunchConf {
    HearthOwned { conf: String, conf_sha256: String, probe_sha256: String, listen: String },
    UserManaged { conf: String },
}

pub enum LaunchConfView {
    HearthOwned {
        conf: Seq<char>,
        conf_sha256: Seq<char>,
        probe_sha256: Seq<char>,
        listen: Seq<char>,
    },
    UserManaged { conf: Seq<char> },
}

impl View for FpmLaunchConf {
    type V = LaunchConfView;

    open spec fn view(&self) -> LaunchConfView {
        match self {
            FpmLaunchConf::HearthOwned { conf, conf_sha256, probe_sha256, listen } =>
                LaunchConfView::HearthOwned {
                    conf: conf@,
                    conf_sha256: conf_sha256@,
                    probe_sha256: probe_sha256@,
                    listen: listen@,
                },
            FpmLaunchConf::UserManaged { conf } => LaunchConfView::UserManaged { conf: conf@ },
        }
    }
}

impl FpmLaunchConf {
    /// An owned copy.
    pub fn dup(&self) -> (r: Self)
        ensures
            r@ == self@,
    {
        match self {
            FpmLaunchConf::HearthOwned { conf, conf_sha256, probe_sha256, listen } =>
                FpmLaunchConf::HearthOwned {
                    conf: conf.clone(),
                    conf_sha256: conf_sha256.clone(),
                    probe_sha256: probe_sha256.clone(),
                    listen: listen.clone(),
                },
            FpmLaunchConf::UserManaged { conf } => FpmLaunchConf::UserManaged {
                conf: conf.clone(),
            },
        }
    }
}

/// The launch that a start belongs to; only a supervisor mints one.
#[derive(Debug)]
pub struct LaunchStamp {
    pub(crate) generation: u64,
}

impl LaunchStamp {
    pub closed spec fn number(&self) -> u64 {
        self.generation
    }

    /// The number of the launch.
    pub fn generation(&self) -> (r: u64)
        ensures
            r == self.number(),
    {
        self.generation
    }

    pub(crate) fn of(generation: u64) -> (r: Self)
        ensures
            r.number() == generation,
    {
        LaunchStamp { generation }
    }
}

/// Manages a single supervised service process.
///
/// Each service runs in its own process group. Shutdown is driven by
/// [`ShutdownStrategy`]; see that enum for engine-specific tuning.
#[derive(Debug)]
pub struct ManagedService {
    kind: ServiceKind,
    state: ServiceState,
    /// The process group of the child, if there is one.
    child: Option<u32>,
    circuit_breaker: CircuitBreaker,
    shutdown_strategy: ShutdownStrategy,
    command: String,
    args: Vec<String>,
    /// Working directory for the spawned process. None = inherit daemon cwd.
    /// Required for supervised Laravel workers (Horizon, Reverb) which must run
    /// inside the site root so `artisan` finds the app bootstrap.
    cwd: Option<String>,
    /// Optional site name; surfaces in `display_name()` as `horizon[shopfront]`.
    site_name: Option<String>,
    /// Extra environment variables for the spawned child. Empty = inherit only.
    env: Vec<(String, String)>,
    fpm_launch: Option<FpmLaunchConf>,
    launch_generation: Option<u64>,
    /// Trustworthy Hearth-owned start metadata, in Unix milliseconds: recorded
    /// at the moment THIS supervisor spawned the child, cleared only once
    /// termination is positively confirmed.
    started_at: Option<u64>,
}

/// What a managed service holds.
#[verifier::ext_equal]
pub struct ManagedView {
    pub kind: ServiceKind,
    pub state: ServiceStateView,
    pub child: Option<u32>,
    pub breaker: BreakerView,
    pub strategy: StrategyView,
    pub command: Seq<char>,
    pub args: Seq<Seq<char>>,
    pub cwd: Option<Seq<char>>,
    pub site_name: Option<Seq<char>>,
    pub env: Seq<(Seq<char>, Seq<char>)>,
    pub fpm_launch: Option<LaunchConfView>,
    pub launch_generation: Option<u64>,
    pub started_at: Option<u64>,
}

pub open spec fn opt_launch(o: Option<FpmLaunchConf>) -> Option<LaunchConfView> {
    match o {
        Some(c) => Some(c@),
        None => None,
    }
}

impl View for ManagedService {
    type V = ManagedView;

    closed spec fn view(&self) -> ManagedView {
        ManagedView {
            kind: self.kind,
            state: self.state@,
            child: self.child,
            breaker: self.circuit_breaker@,
            strategy: self.shutdown_strategy@,
            command: self.command@,
            args: text::texts(self.args@),
            cwd: text::opt_text(self.cwd),
            site_name: text::opt_text(self.site_name),
            env: text::text_pairs(self.env@),
            fpm_launch: opt_launch(self.fpm_launch),
            launch_generation: self.launch_generation,
            started_at: self.started_at,
        }
    }
}

/// A service as it is before its first start.
pub open spec fn fresh(kind: ServiceKind, command: Seq<char>, args: Seq<Seq<char>>) -> ManagedView {
    ManagedView {
        kind,
        state: ServiceStateView::Stopped,
        child: None,
        breaker: BreakerView { max_failures: 3, window_ms: 60000, failures: Seq::empty() },
        strategy: StrategyView::Default,
        command,
        args,
        cwd: None,
        site_name: None,
        env: Seq::empty(),
        fpm_launch: None,
        launch_generation: None,
        started_at: None,
    }
}

/// A service whose child is confirmed gone.
pub open spec fn stopped(v: ManagedView) -> ManagedView {
    ManagedView {
        child: None,
        state: ServiceStateView::Stopped,
        started_at: None,
        launch_generation: None,
        ..v
    }
}

/// A service whose child was just spawned.
pub open spec fn started(v: ManagedView, pid: u32, generation: u64, now: u64) -> ManagedView {
    ManagedView {
        child: Some(pid),
        state: ServiceStateView::Running { pid },
        started_at: Some(now),
        launch_generation: Some(generation),
        ..v
    }
}

/// A service that could not be started.
pub open spec fn failed(v: ManagedView, reason: Seq<char>) -> ManagedView {
    ManagedView { state: ServiceStateView::Failed { reason }, ..v }
}

pub open spec fn label_of(v: ManagedView) -> Seq<char> {
    match v.site_name {
        Some(site) => name_of(v.kind) + "["@ + site + "]"@,
        None => name_of(v.kind),
    }
}

// ---- stopping ----
/// What waiting for a child came to.
#[derive(Debug)]
pub enum Waited {
    Exited,
    Running,
    Error(String),
}

pub enum WaitedView {
    Exited,
    Running,
    Error(Seq<char>),
}

impl View for Waited {
    type V = WaitedView;

    open spec fn view(&self) -> WaitedView {
        match self {
            Waited::Exited => WaitedView::Exited,
            Waited::Running => WaitedView::Running,
            Waited::Error(e) => WaitedView::Error(e@),
        }
    }
}

/// What signalling a process group came to.
#[derive(Debug)]
pub enum Signalled {
    Sent,
    /// There is no such process group.
    Gone,
    Error(String),
}

pub enum SignalledView {
    Sent,
    Gone,
    Error(Seq<char>),
}

impl View for Signalled {
    type V = SignalledView;

    open spec fn view(&self) -> SignalledView {
        match self {
            Signalled::Sent => SignalledView::Sent,
            Signalled::Gone => SignalledView::Gone,
            Signalled::Error(e) => SignalledView::Error(e@),
        }
    }
}

/// The result of what a stop asked for.
#[derive(Debug)]
pub enum StopReply {
    /// What waiting for the child, without blocking, came to.
    Wait(Waited),
    /// The same, with how long the grace window has been open, in
    /// milliseconds.
    Polled { waited: Waited, elapsed_ms: u64 },
    /// Whether `pg_ctl` succeeded.
    PgCtl(bool),
    /// What signalling the group came to.
    Signal(Signalled),
    /// Whether killing or reaping went through.
    Did(Result<(), String>),
}

pub enum StopReplyView {
    Wait(WaitedView),
    Polled { waited: WaitedView, elapsed_ms: u64 },
    PgCtl(bool),
    Signal(SignalledView),
    Did(Result<(), Seq<char>>),
}

impl View for StopReply {
    type V = StopReplyView;

    open spec fn view(&self) -> StopReplyView {
        match self {
            StopReply::Wait(w) => StopReplyView::Wait(w@),
            StopReply::Polled { waited, elapsed_ms } => StopReplyView::Polled {
                waited: waited@,
                elapsed_ms: *elapsed_ms,
            },
            StopReply::PgCtl(b) => StopReplyView::PgCtl(*b),
            StopReply::Signal(s) => StopReplyView::Signal(s@),
            StopReply::Did(r) => StopReplyView::Did(
                match r {
                    Ok(_) => Ok(()),
                    Err(e) => Err(e@),
                },
            ),
        }
    }
}

/// What a stop waits for.
#[derive(Debug)]
pub enum StopStage {
    /// Whether the child has already exited.
    ProbeBefore,
    /// The coordinated shutdown of Postgres.
    PgCtl,
    /// SIGTERM to the process group.
    Terminate,
    /// Whether the child exited although SIGTERM failed with this error.
    ProbeAfterTerm { error: String },
    /// Whether the child has exited, within the grace window.
    Poll,
    /// SIGKILL to the process group.
    Kill,
    /// Whether the child exited although SIGKILL failed with this error.
    ProbeAfterKill { error: String },
    /// The exit of the killed child.
    Reap,
    Done { result: Result<(), String> },
}

pub enum StopStageView {
    ProbeBefore,
    PgCtl,
    Terminate,
    ProbeAfterTerm { error: Seq<char> },
    Poll,
    Kill,
    ProbeAfterKill { error: Seq<char> },
    Reap,
    Done { result: Result<(), Seq<char>> },
}

impl View for StopStage {
    type V = StopStageView;

    open spec fn view(&self) -> StopStageView {
        match self {
            StopStage::ProbeBefore => StopStageView::ProbeBefore,
            StopStage::PgCtl => StopStageView::PgCtl,
            StopStage::Terminate => StopStageView::Terminate,
            StopStage::ProbeAfterTerm { error } => StopStageView::ProbeAfterTerm { error: error@ },
            StopStage::Poll => StopStageView::Poll,
            StopStage::Kill => StopStageView::Kill,
            StopStage::ProbeAfterKill { error } => StopStageView::ProbeAfterKill { error: error@ },
            StopStage::Reap => StopStageView::Reap,
            StopStage::Done { result } => StopStageView::Done {
                result: match result {
                    Ok(_) => Ok(()),
                    Err(e) => Err(e@),
                },
            },
        }
    }
}

pub const RETRY: &'static str = " — child remains supervised for retry";

/// The stop is over, and the child is confirmed gone.
pub open spec fn gone(v: ManagedView) -> (ManagedView, StopStageView) {
    (stopped(v), StopStageView::Done { result: Ok(()) })
}

/// The stop is over without a confirmation: everything is kept.
pub open spec fn kept(v: ManagedView, error: Seq<char>) -> (ManagedView, StopStageView) {
    (v, StopStageView::Done { result: Err(error) })
}

/// How a stop starts.
pub open spec fn stop_begin(v: ManagedView) -> (ManagedView, StopStageView) {
    if v.child is None {
        gone(v)
    } else {
        (v, StopStageView::ProbeBefore)
    }
}

/// The process group that is stopped.
pub open spec fn group_of(v: ManagedView) -> u32 {
    match v.child {
        Some(pid) => pid,
        None => 0,
    }
}

/// One step of a stop. A reply that the stage does not wait for changes
/// nothing.
pub open spec fn stop_next(v: ManagedView, stage: StopStageView, reply: StopReplyView) -> (
    ManagedView,
    StopStageView,
) {
    let name = name_of(v.kind);
    match (stage, reply) {
        (StopStageView::ProbeBefore, StopReplyView::Wait(w)) => match w {
            WaitedView::Exited => gone(v),
            WaitedView::Running => if v.strategy is Postgres {
                (v, StopStageView::PgCtl)
            } else {
                (v, StopStageView::Terminate)
            },
            WaitedView::Error(e) => kept(
                v,
                "could not verify "@ + name + " liveness before stop (try_wait: "@ + e + ")"@
                    + RETRY@,
            ),
        },
        (StopStageView::PgCtl, StopReplyView::PgCtl(done)) => if done {
            (v, StopStageView::Poll)
        } else {
            (v, StopStageView::Terminate)
        },
        (StopStageView::Terminate, StopReplyView::Signal(s)) => match s {
            SignalledView::Error(error) => (v, StopStageView::ProbeAfterTerm { error }),
            _ => (v, StopStageView::Poll),
        },
        (StopStageView::ProbeAfterTerm { error }, StopReplyView::Wait(w)) => match w {
            WaitedView::Exited => gone(v),
            _ => kept(
                v,
                "SIGTERM to "@ + name + " process group "@ + text::decimal(group_of(v) as nat)
                    + " failed ("@ + error + ") with the child still live/unresolved"@ + RETRY@,
            ),
        },
        (StopStageView::Poll, StopReplyView::Polled { waited, elapsed_ms }) => match waited {
            WaitedView::Exited => gone(v),
            WaitedView::Running => if elapsed_ms >= grace_of(v.strategy) {
                (v, StopStageView::Kill)
            } else {
                (v, StopStageView::Poll)
            },
            WaitedView::Error(e) => kept(
                v,
                "could not verify "@ + name + " termination (try_wait: "@ + e + ")"@ + RETRY@,
            ),
        },
        (StopStageView::Kill, StopReplyView::Did(Ok(_))) => (v, StopStageView::Reap),
        (StopStageView::Kill, StopReplyView::Did(Err(error))) => (
            v,
            StopStageView::ProbeAfterKill { error },
        ),
        (StopStageView::ProbeAfterKill { error }, StopReplyView::Wait(w)) => match w {
            WaitedView::Exited => gone(v),
            _ => kept(
                v,
                "SIGKILL to "@ + name + " process group failed ("@ + error + ")"@ + RETRY@,
            ),
        },
        (StopStageView::Reap, StopReplyView::Did(Ok(_))) => gone(v),
        (StopStageView::Reap, StopReplyView::Did(Err(e))) => kept(
            v,
            "could not reap "@ + name + " after SIGKILL ("@ + e + ")"@ + RETRY@,
        ),
        _ => (v, stage),
    }
}

impl ManagedService {
    pub fn new(kind: ServiceKind, command: String, args: Vec<String>) -> (r: Self)
        ensures
            r@ == fresh(kind, command@, text::texts(args@)),
    {
        let env: Vec<(String, String)> = Vec::new();
        proof {
            assert(text::text_pairs(env@) =~= Seq::empty());
        }
        ManagedService {
            kind,
            state: ServiceState::Stopped,
            child: None,
            circuit_breaker: CircuitBreaker::new(3, 60000),
            shutdown_strategy: ShutdownStrategy::Default,
            command,
            args,
            cwd: None,
            site_name: None,
            env,
            fpm_launch: None,
            launch_generation: None,
            started_at: None,
        }
    }

    /// Create a managed service that runs in a specific working directory.
    ///
    /// Used by supervised Laravel workers (Horizon, Reverb) which must run inside
    /// the site root so `php artisan` finds the application bootstrap.
    pub fn with_cwd(kind: ServiceKind, command: String, args: Vec<String>, cwd: String) -> (r: Self)
        ensures
            r@ == (ManagedView {
                cwd: Some(cwd@),
                ..fresh(kind, command@, text::texts(args@))
            }),
    {
        let base = ManagedService::new(kind, command, args);
        ManagedService { cwd: Some(cwd), ..base }
    }

    /// Like `with_cwd` but also records a site name for display purposes.
    pub fn with_cwd_and_site(
        kind: ServiceKind,
        command: String,
        args: Vec<String>,
        cwd: String,
        site_name: &str,
    ) -> (r: Self)
        ensures
            r@ == (ManagedView {
                cwd: Some(cwd@),
                site_name: Some(site_name@),
                ..fresh(kind, command@, text::texts(args@))
            }),
    {
        let base = ManagedService::new(kind, command, args);
        ManagedService { cwd: Some(cwd), site_name: Some(site_name.to_owned()), ..base }
    }

    /// Builder: set the shutdown strategy for this service.
    pub fn with_shutdown_strategy(self, strategy: ShutdownStrategy) -> (r: Self)
        ensures
            r@ == (ManagedView { strategy: strategy@, ..self@ }),
    {
        ManagedService { shutdown_strategy: strategy, ..self }
    }

    /// Builder: extra environment variables for the spawned child. Process
    /// group/supervision behavior is unchanged — env only affects the spawn.
    pub fn with_env(self, env: Vec<(String, String)>) -> (r: Self)
        ensures
            r@ == (ManagedView { env: text::text_pairs(env@), ..self@ }),
    {
        ManagedService { env, ..self }
    }

    pub fn with_fpm_launch_conf(self, conf: FpmLaunchConf) -> (r: Self)
        ensures
            r@ == (ManagedView { fpm_launch: Some(conf@), ..self@ }),
    {
        ManagedService { fpm_launch: Some(conf), ..self }
    }

    pub fn kind(&self) -> (r: ServiceKind)
        ensures
            r == self@.kind,
    {
        self.kind
    }

    pub fn state(&self) -> (r: &ServiceState)
        ensures
            r@ == self@.state,
    {
        &self.state
    }

    /// The process group of the child, if there is one.
    pub fn child(&self) -> (r: Option<u32>)
        ensures
            r == self@.child,
    {
        self.child
    }

    pub fn circuit_breaker(&self) -> (r: &CircuitBreaker)
        ensures
            r@ == self@.breaker,
    {
        &self.circuit_breaker
    }

    pub fn shutdown_strategy(&self) -> (r: &ShutdownStrategy)
        ensures
            r@ == self@.strategy,
    {
        &self.shutdown_strategy
    }

    pub fn fpm_launch_conf(&self) -> (r: Option<&FpmLaunchConf>)
        ensures
            match r {
                Some(c) => self@.fpm_launch == Some(c@),
                None => self@.fpm_launch is None,
            },
    {
        self.fpm_launch.as_ref()
    }

    /// Working directory the service will be spawned in, if any.
    pub fn cwd(&self) -> (r: Option<&String>)
        ensures
            match r {
                Some(c) => self@.cwd == Some(c@),
                None => self@.cwd is None,
            },
    {
        self.cwd.as_ref()
    }

    /// Optional site name carried by per-site Laravel workers (Horizon, Reverb).
    pub fn site_name(&self) -> (r: Option<&String>)
        ensures
            match r {
                Some(c) => self@.site_name == Some(c@),
                None => self@.site_name is None,
            },
    {
        self.site_name.as_ref()
    }

    /// Extra environment variables applied to the spawned child.
    pub fn env(&self) -> (r: &Vec<(String, String)>)
        ensures
            text::text_pairs(r@) == self@.env,
    {
        &self.env
    }

    /// The arguments this service is spawned with.
    pub fn args(&self) -> (r: &Vec<String>)
        ensures
            text::texts(r@) == self@.args,
    {
        &self.args
    }

    /// When THIS supervisor spawned the current child (`None` when stopped).
    pub fn started_at(&self) -> (r: Option<u64>)
        ensures
            r == self@.started_at,
    {
        self.started_at
    }

    /// The launch that the current child belongs to.
    pub fn launch_generation(&self) -> (r: Option<u64>)
        ensures
            r == self@.launch_generation,
    {
        self.launch_generation
    }

    /// The command this service spawns.
    pub fn command(&self) -> (r: &str)
        ensures
            r@ == self@.command,
    {
        self.command.as_str()
    }

    /// User-facing label. Adds the site name in brackets when present so two
    /// Laravel sites with Horizon render as `horizon[shopfront]` /
    /// `horizon[chatapp]` rather than two indistinguishable `horizon` rows.
    pub fn display_name(&self) -> (r: String)
        ensures
            r@ == label_of(self@),
    {
        match &self.site_name {
            Some(site) => text::cat4(self.kind.name(), "[", site.as_str(), "]"),
            None => self.kind.name().to_owned(),
        }
    }

    /// Records what spawning the service in a new process group came to.
    pub fn start(&mut self, stamp: LaunchStamp, spawned: Result<u32, String>, now: u64) -> (r: Result<
        (),
        String,
    >)
        ensures
            match spawned {
                Ok(pid) => r is Ok && final(self)@ == started(old(self)@, pid, stamp.number(), now),
                Err(e) => r == Err::<(), String>(e) && final(self)@ == old(self)@,
            },
    {
        match spawned {
            Ok(pid) => {
                self.child = Some(pid);
                self.state = ServiceState::Running { pid };
                self.started_at = Some(now);
                self.launch_generation = Some(stamp.generation);
                Ok(())
            },
            Err(e) => Err(e),
        }
    }

    fn finalize(&mut self)
        ensures
            final(self)@ == stopped(old(self)@),
    {
        self.child = None;
        self.state = ServiceState::Stopped;
        self.started_at = None;
        self.launch_generation = None;
    }

    /// Records that the service could not be started.
    pub(crate) fn mark_failed(&mut self, reason: String)
        ensures
            final(self)@ == failed(old(self)@, reason@),
    {
        self.state = ServiceState::Failed { reason };
    }

    /// Records that the child was found gone, without a confirmed stop.
    pub(crate) fn mark_gone(&mut self)
        ensures
            final(self)@ == (ManagedView {
                state: ServiceStateView::Stopped,
                started_at: None,
                launch_generation: None,
                ..old(self)@
            }),
    {
        self.state = ServiceState::Stopped;
        self.started_at = None;
        self.launch_generation = None;
    }

    pub(crate) fn reset_breaker(&mut self)
        ensures
            final(self)@ == (ManagedView { breaker: reset_of(old(self)@.breaker), ..old(self)@ }),
    {
        self.circuit_breaker.reset();
    }

    pub(crate) fn record_failure_at(&mut self, now: u128) -> (r: bool)
        ensures
            final(self)@ == (ManagedView {
                breaker: service::failed_at(old(self)@.breaker, now),
                ..old(self)@
            }),
            r == service::tripped(final(self)@.breaker),
    {
        self.circuit_breaker.record_failure_at(now)
    }

    pub(crate) fn configure(&mut self, command: String, args: Vec<String>, env: Vec<(String, String)>)
        ensures
            final(self)@ == (ManagedView {
                command: command@,
                args: text::texts(args@),
                env: text::text_pairs(env@),
                breaker: reset_of(old(self)@.breaker),
                ..old(self)@
            }),
    {
        self.command = command;
        self.args = args;
        self.env = env;
        self.circuit_breaker.reset();
    }

    /// Starts to stop the service. Without a child there is nothing to do.
    pub fn stop(&mut self) -> (r: StopStage)
        ensures
            (final(self)@, r@) == stop_begin(old(self)@),
    {
        if self.child.is_none() {
            self.finalize();
            return StopStage::Done { result: Ok(()) };
        }
        StopStage::ProbeBefore
    }

    fn unresolved(&self, a: &str, b: &str, e: &str, c: &str) -> (r: StopStage)
        ensures
            r@ == (StopStageView::Done {
                result: Err(a@ + name_of(self@.kind) + b@ + e@ + c@ + RETRY@),
            }),
    {
        let mut out: String = text::cat5(a, self.kind.name(), b, e, c);
        out.append(RETRY);
        StopStage::Done { result: Err(out) }
    }

    /// One step of a stop. Strategy:
    /// - `Postgres` → `pg_ctl stop -m fast` first, then signals on fallback.
    /// - All others → SIGTERM to the process group, poll until grace expires,
    ///   then SIGKILL.
    ///
    /// Stopping is a TRANSACTIONAL state transition. The child and
    /// `started_at` stay recorded until termination is positively confirmed;
    /// every unresolved failure — SIGTERM, waiting, final SIGKILL, final
    /// reaping — comes back as an error WITH child, timestamp, and truthful
    /// state retained so the caller can retry.
    pub fn stop_step(&mut self, stage: StopStage, reply: StopReply) -> (r: StopStage)
        ensures
            (final(self)@, r@) == stop_next(old(self)@, stage@, reply@),
    {
        match (stage, reply) {
            (StopStage::ProbeBefore, StopReply::Wait(w)) => match w {
                Waited::Exited => {
                    self.finalize();
                    StopStage::Done { result: Ok(()) }
                },
                Waited::Running => match &self.shutdown_strategy {
                    ShutdownStrategy::Postgres { datadir: _, pg_ctl_binary: _ } => StopStage::PgCtl,
                    _ => StopStage::Terminate,
                },
                Waited::Error(e) => self.unresolved(
                    "could not verify ",
                    " liveness before stop (try_wait: ",
                    e.as_str(),
                    ")",
                ),
            },
            (StopStage::PgCtl, StopReply::PgCtl(done)) => {
                if done {
                    StopStage::Poll
                } else {
                    StopStage::Terminate
                }
            },
            (StopStage::Terminate, StopReply::Signal(s)) => match s {
                Signalled::Error(error) => StopStage::ProbeAfterTerm { error },
                _ => StopStage::Poll,
            },
            (StopStage::ProbeAfterTerm { error }, StopReply::Wait(w)) => match w {
                Waited::Exited => {
                    self.finalize();
                    StopStage::Done { result: Ok(()) }
                },
                _ => {
                    let pid: u32 = match self.child {
                        Some(p) => p,
                        None => 0,
                    };
                    let group: String = text::decimal_string(pid as u64);
                    let mut out: String = text::cat5(
                        "SIGTERM to ",
                        self.kind.name(),
                        " process group ",
                        group.as_str(),
                        " failed (",
                    );
                    out.append(error.as_str());
                    out.append(") with the child still live/unresolved");
                    out.append(RETRY);
                    StopStage::Done { result: Err(out) }
                },
            },
            (StopStage::Poll, StopReply::Polled { waited, elapsed_ms }) => match waited {
                Waited::Exited => {
                    self.finalize();
                    StopStage::Done { result: Ok(()) }
                },
                Waited::Running => {
                    if self.shutdown_strategy.grace_over(elapsed_ms) {
                        StopStage::Kill
                    } else {
                        StopStage::Poll
                    }
                },
                Waited::Error(e) => self.unresolved(
                    "could not verify ",
                    " termination (try_wait: ",
                    e.as_str(),
                    ")",
                ),
            },
            (StopStage::Kill, StopReply::Did(done)) => match done {
                Ok(_) => StopStage::Reap,
                Err(error) => StopStage::ProbeAfterKill { error },
            },
            (StopStage::ProbeAfterKill { error }, StopReply::Wait(w)) => match w {
                Waited::Exited => {
                    self.finalize();
                    StopStage::Done { result: Ok(()) }
                },
                _ => self.unresolved(
                    "SIGKILL to ",
                    " process group failed (",
                    error.as_str(),
                    ")",
                ),
            },
            (StopStage::Reap, StopReply::Did(done)) => match done {
                Ok(_) => {
                    self.finalize();
                    StopStage::Done { result: Ok(()) }
                },
                Err(e) => self.unresolved("could not reap ", " after SIGKILL (", e.as_str(), ")"),
            },
            (stage, _) => stage,
        }
    }

    /// Records what waiting for the child, without blocking, came to; says
    /// whether it is still running.
    pub fn is_alive(&mut self, waited: &Waited) -> (r: bool)
        ensures
            r == (old(self)@.child is Some && waited@ is Running),
            final(self)@ == if old(self)@.child is Some && waited@ is Exited {
                ManagedView { child: None, ..old(self)@ }
            } else {
                old(self)@
            },
    {
        if self.child.is_none() {
            return false;
        }
        match waited {
            Waited::Exited => {
                self.child = None;
                false
            },
            Waited::Running => true,
            Waited::Error(_) => false,
        }
    }
}

// ---- laws ----
/// A stop after some replies.
pub open spec fn stop_after(v: ManagedView, replies: Seq<StopReplyView>) -> (
    ManagedView,
    StopStageView,
)
    decreases replies.len(),
{
    if replies.len() == 0 {
        stop_begin(v)
    } else {
        let (w, stage) = stop_after(v, replies.drop_last());
        stop_next(w, stage, replies.last())
    }
}

/// Stopping is transactional: until the child is confirmed gone nothing of
/// the service changes, and an error leaves it exactly as it was.
pub proof fn stop_is_transactional(v: ManagedView, replies: Seq<StopReplyView>)
    ensures
        ({
            let (w, stage) = stop_after(v, replies);
            match stage {
                StopStageView::Done { result } => match result {
                    Ok(_) => w == stopped(v),
                    Err(_) => w == v && v.child is Some,
                },
                _ => w == v && v.child is Some,
            }
        }),
    decreases replies.len(),
{
    if replies.len() > 0 {
        stop_is_transactional(v, replies.drop_last());
    }
}

/// A reply that confirms the exit of the child.
pub open spec fn confirms_exit(reply: StopReplyView) -> bool {
    match reply {
        StopReplyView::Wait(w) => w is Exited,
        StopReplyView::Polled { waited, elapsed_ms } => waited is Exited,
        StopReplyView::Did(r) => r is Ok,
        _ => false,
    }
}

/// A service with a child counts as stopped only on a reply that confirms the
/// exit: a child found exited, or reaped after SIGKILL.
pub proof fn stopped_only_on_confirmation(
    v: ManagedView,
    stage: StopStageView,
    reply: StopReplyView,
)
    requires
        v.child is Some,
        stop_next(v, stage, reply).0.child is None,
    ensures
        confirms_exit(reply),
        reply is Did ==> stage is Reap,
{
}

/// A child that is still running is killed exactly when its grace window is
/// over, and until then it is only waited for.
pub proof fn killed_only_after_the_grace(v: ManagedView, elapsed_ms: u64)
    ensures
        stop_next(
            v,
            StopStageView::Poll,
            StopReplyView::Polled { waited: WaitedView::Running, elapsed_ms },
        ) == (
            v,
            if elapsed_ms < grace_of(v.strategy) {
                StopStageView::Poll
            } else {
                StopStageView::Kill
            },
        ),
        forall|stage: StopStageView, reply: StopReplyView|
            !(stage is Kill) && (#[trigger] stop_next(v, stage, reply)).1 is Kill ==> reply
                is Polled && reply->elapsed_ms >= grace_of(v.strategy),
{
}

} // verus!
