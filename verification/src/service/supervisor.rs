//! The supervisor: which services are registered, and what starting, stopping,
//! replacing and health-checking them does to each.
//!
//! Spawning, signalling and waiting happen outside: an operation that needs
//! them says what it waits for, and is stepped with what came of it.

pub use crate::service::managed::{
    FpmLaunchConf, LaunchStamp, ManagedService, ShutdownStrategy, Signalled, StopReply, StopStage,
    Waited,
};
use crate::service::managed::{
    failed, label_of, started, stop_begin, stop_next, LaunchConfView, ManagedView, StopReplyView,
    StopStageView, WaitedView,
};
use crate::service::{
    failed_at, name_of, reset_of, tripped, ServiceKind, ServiceState, ServiceStateView,
};
use crate::text;
use vstd::prelude::*;

verus! {

// ---- ownership ----
/// Current external (Herd) ownership of PHP-FPM. Boolean evidence is banned: a
/// failed probe is `Unknown`, and every activation policy treats `Unknown`
/// fail-CLOSED (never start/register/reconfigure FPM), reporting "ownership
/// unknown" instead of pretending Herd absent.
#[derive(Debug, Clone, PartialEq, Eq)]
pub enum FpmOwnership {
    Owned,
    Unowned,
    /// The probe could not produce evidence; carries a non-sensitive
    /// diagnostic (exit status / IO error class — never environment contents).
    Unknown(String),
}

pub enum OwnershipView {
    Owned,
    Unowned,
    Unknown(Seq<char>),
}

impl View for FpmOwnership {
    type V = OwnershipView;

    open spec fn view(&self) -> OwnershipView {
        match self {
            FpmOwnership::Owned => OwnershipView::Owned,
            FpmOwnership::Unowned => OwnershipView::Unowned,
            FpmOwnership::Unknown(d) => OwnershipView::Unknown(d@),
        }
    }
}

impl FpmOwnership {
    /// An owned copy.
    pub fn dup(&self) -> (r: Self)
        ensures
            r@ == self@,
    {
        match self {
            FpmOwnership::Owned => FpmOwnership::Owned,
            FpmOwnership::Unowned => FpmOwnership::Unowned,
            FpmOwnership::Unknown(d) => FpmOwnership::Unknown(d.clone()),
        }
    }
}

pub const NOT_CONFIGURED: &'static str = "FPM ownership probe is not configured";

pub const TOO_MANY: &'static str = "Too many restarts (3 failures in 60s)";

/// Why Hearth may not activate its own FPM, if it may not. `Unknown` fails
/// CLOSED.
pub open spec fn blocked(o: OwnershipView) -> Option<Seq<char>> {
    match o {
        OwnershipView::Unowned => None,
        OwnershipView::Owned => Some("php-fpm is owned by Herd"@),
        OwnershipView::Unknown(diag) => Some(
            "php-fpm ownership is unknown ("@ + diag + "); FPM activation skipped fail-closed"@,
        ),
    }
}

// ---- the supervisor ----
/// The ServiceSupervisor owns all managed services.
///
/// ```text
/// ServiceSupervisor
///  ├── nginx          (process group)
///  ├── php-fpm-84     (process group)
///  ├── dnsmasq        (process group)
///  ├── mailpit        (process group)
///  └── dump-server    (process group)
///
/// On shutdown: SIGTERM → 5s wait → SIGKILL for each group
/// ```
#[derive(Debug)]
pub struct ServiceSupervisor {
    /// One entry per kind, in the order of registration.
    services: Vec<ManagedService>,
    health_interval_ms: u64,
    launch_generation_counter: u64,
    /// The ownership evidence for PHP-FPM — ONE coherent policy enforced
    /// INSIDE the supervisor so that every mutation path obeys it.
    /// Construction leaves it fail-CLOSED: missing evidence is never treated
    /// as proven Unowned.
    fpm_ownership: FpmOwnership,
}

pub open spec fn managed(v: Seq<ManagedService>) -> Seq<ManagedView> {
    v.map_values(|s: ManagedService| s@)
}

/// What a supervisor holds.
#[verifier::ext_equal]
pub struct SupView {
    pub services: Seq<ManagedView>,
    pub counter: u64,
    pub ownership: OwnershipView,
    pub health_interval_ms: u64,
}

impl View for ServiceSupervisor {
    type V = SupView;

    closed spec fn view(&self) -> SupView {
        SupView {
            services: managed(self.services@),
            counter: self.launch_generation_counter,
            ownership: self.fpm_ownership@,
            health_interval_ms: self.health_interval_ms,
        }
    }
}

/// No kind is registered twice.
pub open spec fn distinct_kinds(services: Seq<ManagedView>) -> bool {
    forall|i: int, j: int|
        0 <= i < services.len() && 0 <= j < services.len() && (#[trigger] services[i]).kind == (
        #[trigger] services[j]).kind ==> i == j
}

pub open spec fn is_place(services: Seq<ManagedView>, kind: ServiceKind, i: int) -> bool {
    &&& 0 <= i < services.len()
    &&& services[i].kind == kind
    &&& forall|j: int| 0 <= j < i ==> (#[trigger] services[j]).kind != kind
}

/// Where the service of a kind is registered.
pub open spec fn place(services: Seq<ManagedView>, kind: ServiceKind) -> Option<int> {
    if exists|i: int| is_place(services, kind, i) {
        Some(choose|i: int| is_place(services, kind, i))
    } else {
        None
    }
}

pub proof fn place_is(services: Seq<ManagedView>, kind: ServiceKind, i: int)
    requires
        is_place(services, kind, i),
    ensures
        place(services, kind) == Some(i),
{
    let k = choose|k: int| is_place(services, kind, k);
    if k < i {
        assert(services[k].kind != kind);
    }
    if i < k {
        assert(services[i].kind != kind);
    }
}

proof fn place_none(services: Seq<ManagedView>, kind: ServiceKind)
    requires
        forall|j: int| 0 <= j < services.len() ==> (#[trigger] services[j]).kind != kind,
    ensures
        place(services, kind) is None,
{
    if place(services, kind) is Some {
        let k = choose|k: int| is_place(services, kind, k);
        assert(services[k].kind == kind);
    }
}

/// A supervisor whose service `i` is `v`.
pub open spec fn with_service(s: SupView, i: int, v: ManagedView) -> SupView {
    SupView { services: s.services.update(i, v), ..s }
}

/// A supervisor in which `v` is the registration of its kind.
pub open spec fn inserted(s: SupView, v: ManagedView) -> SupView {
    match place(s.services, v.kind) {
        Some(i) => with_service(s, i, v),
        None => SupView { services: s.services.push(v), ..s },
    }
}

/// A supervisor without the registration of a kind.
pub open spec fn removed(s: SupView, kind: ServiceKind) -> SupView {
    match place(s.services, kind) {
        Some(i) => SupView { services: s.services.remove(i), ..s },
        None => s,
    }
}

/// A supervisor that has minted one more launch.
pub open spec fn minted(s: SupView) -> SupView {
    SupView { counter: (s.counter + 1) as u64, ..s }
}

/// A supervisor that has minted a launch for service `i`, with a fresh
/// failure count.
pub open spec fn relaunching(s: SupView, i: int) -> SupView {
    minted(
        with_service(
            s,
            i,
            ManagedView { breaker: reset_of(s.services[i].breaker), ..s.services[i] },
        ),
    )
}

/// What a spawn makes of a service: running, or failed for the reason given.
pub open spec fn launched(
    v: ManagedView,
    generation: u64,
    result: Result<u32, Seq<char>>,
    now: u64,
) -> ManagedView {
    match result {
        Ok(pid) => started(v, pid, generation, now),
        Err(e) => failed(v, e),
    }
}

pub open spec fn not_registered(kind: ServiceKind) -> Seq<char> {
    "service "@ + name_of(kind) + " is not registered"@
}

/// What an operation was told.
#[derive(Debug)]
pub enum SupReply {
    /// A step of a stop.
    Stop(StopReply),
    /// What spawning came to, at this time (Unix milliseconds).
    Spawned { result: Result<u32, String>, now: u64 },
    /// What waiting for the child, without blocking, came to, at this time
    /// (nanoseconds on a clock that never goes back).
    Probed { waited: Waited, now: u128 },
    /// The replacement that was prepared.
    Built(Result<ManagedService, String>),
}

pub enum SupReplyView {
    Stop(StopReplyView),
    Spawned { result: Result<u32, Seq<char>>, now: u64 },
    Probed { waited: WaitedView, now: u128 },
    Built(Result<ManagedView, Seq<char>>),
}

pub open spec fn spawn_view(r: Result<u32, String>) -> Result<u32, Seq<char>> {
    match r {
        Ok(pid) => Ok(pid),
        Err(e) => Err(e@),
    }
}

impl View for SupReply {
    type V = SupReplyView;

    open spec fn view(&self) -> SupReplyView {
        match self {
            SupReply::Stop(r) => SupReplyView::Stop(r@),
            SupReply::Spawned { result, now } => SupReplyView::Spawned {
                result: spawn_view(*result),
                now: *now,
            },
            SupReply::Probed { waited, now } => SupReplyView::Probed { waited: waited@, now: *now },
            SupReply::Built(r) => SupReplyView::Built(
                match r {
                    Ok(s) => Ok(s@),
                    Err(e) => Err(e@),
                },
            ),
        }
    }
}

// ---- the atomic restart of FPM ----
/// Outcome of the atomic in-place FPM restart transaction. Skips and refusals
/// happen BEFORE any mutation; failures report the exact retained/partial
/// state.
#[derive(Debug, Clone, PartialEq, Eq)]
pub enum FpmRestartTxOutcome {
    /// Old child stopped and started again — one coherent transaction.
    Restarted,
    /// Ownership snapshot said Herd owns FPM — zero mutation.
    SkippedOwned,
    /// Ownership snapshot was Unknown — zero mutation, fail-closed.
    SkippedOwnershipUnknown(String),
    /// No FPM registration exists — nothing to restart, zero mutation.
    NotRegistered,
    /// The old child could not be confirmed stopped — it remains fully
    /// supervised; no start was attempted.
    StopFailed { error: String },
    /// The stop succeeded but the restart's start failed — the registration
    /// stays supervised in truthful `Failed` state; no child is running and no
    /// orphan exists.
    StartFailed { error: String },
}

pub enum RestartOutcomeView {
    Restarted,
    SkippedOwned,
    SkippedOwnershipUnknown(Seq<char>),
    NotRegistered,
    StopFailed { error: Seq<char> },
    StartFailed { error: Seq<char> },
}

impl View for FpmRestartTxOutcome {
    type V = RestartOutcomeView;

    open spec fn view(&self) -> RestartOutcomeView {
        match self {
            FpmRestartTxOutcome::Restarted => RestartOutcomeView::Restarted,
            FpmRestartTxOutcome::SkippedOwned => RestartOutcomeView::SkippedOwned,
            FpmRestartTxOutcome::SkippedOwnershipUnknown(d) =>
                RestartOutcomeView::SkippedOwnershipUnknown(d@),
            FpmRestartTxOutcome::NotRegistered => RestartOutcomeView::NotRegistered,
            FpmRestartTxOutcome::StopFailed { error } => RestartOutcomeView::StopFailed {
                error: error@,
            },
            FpmRestartTxOutcome::StartFailed { error } => RestartOutcomeView::StartFailed {
                error: error@,
            },
        }
    }
}

/// What an FPM restart waits for.
#[derive(Debug)]
pub enum RestartStage {
    Stopping { stop: StopStage },
    Spawning { generation: u64 },
    Done { outcome: FpmRestartTxOutcome },
}

pub enum RestartStageView {
    Stopping { stop: StopStageView },
    Spawning { generation: u64 },
    Done { outcome: RestartOutcomeView },
}

impl View for RestartStage {
    type V = RestartStageView;

    open spec fn view(&self) -> RestartStageView {
        match self {
            RestartStage::Stopping { stop } => RestartStageView::Stopping { stop: stop@ },
            RestartStage::Spawning { generation } => RestartStageView::Spawning {
                generation: *generation,
            },
            RestartStage::Done { outcome } => RestartStageView::Done { outcome: outcome@ },
        }
    }
}

pub open spec fn restart_done(s: SupView, outcome: RestartOutcomeView) -> (
    SupView,
    RestartStageView,
) {
    (s, RestartStageView::Done { outcome })
}

/// Where a restart of service `i` is once its stop has come to `stop`.
pub open spec fn restart_stopping(s: SupView, i: int, stop: StopStageView) -> (
    SupView,
    RestartStageView,
) {
    match stop {
        StopStageView::Done { result: Ok(_) } => (
            relaunching(s, i),
            RestartStageView::Spawning { generation: minted(s).counter },
        ),
        StopStageView::Done { result: Err(error) } => restart_done(
            s,
            RestartOutcomeView::StopFailed { error },
        ),
        _ => (s, RestartStageView::Stopping { stop }),
    }
}

/// How an FPM restart starts: under ONE ownership snapshot taken before any
/// mutation.
pub open spec fn restart_begin(s: SupView) -> (SupView, RestartStageView) {
    match s.ownership {
        OwnershipView::Owned => restart_done(s, RestartOutcomeView::SkippedOwned),
        OwnershipView::Unknown(diag) => restart_done(
            s,
            RestartOutcomeView::SkippedOwnershipUnknown(diag),
        ),
        OwnershipView::Unowned => match place(s.services, ServiceKind::PhpFpm) {
            None => restart_done(s, RestartOutcomeView::NotRegistered),
            Some(i) => {
                let (v, stop) = stop_begin(s.services[i]);
                restart_stopping(with_service(s, i, v), i, stop)
            },
        },
    }
}

/// One step of an FPM restart. A reply that the stage does not wait for
/// changes nothing.
pub open spec fn restart_next(s: SupView, stage: RestartStageView, reply: SupReplyView) -> (
    SupView,
    RestartStageView,
) {
    match place(s.services, ServiceKind::PhpFpm) {
        None => (s, stage),
        Some(i) => match (stage, reply) {
            (RestartStageView::Stopping { stop }, SupReplyView::Stop(r)) => {
                let (v, after) = stop_next(s.services[i], stop, r);
                restart_stopping(with_service(s, i, v), i, after)
            },
            (RestartStageView::Spawning { generation }, SupReplyView::Spawned { result, now }) =>
                restart_done(
                    with_service(s, i, launched(s.services[i], generation, result, now)),
                    match result {
                        Ok(_) => RestartOutcomeView::Restarted,
                        Err(error) => RestartOutcomeView::StartFailed { error },
                    },
                ),
            _ => (s, stage),
        },
    }
}

// ---- the atomic replacement of FPM ----
/// Outcome of the atomic FPM replacement transaction.
#[derive(Debug)]
pub enum FpmReplaceOutcome {
    /// Old FPM stopped (if any), replacement registered and started.
    Replaced,
    /// Ownership snapshot said Herd owns FPM — zero mutation.
    SkippedOwned,
    /// Ownership snapshot was Unknown — zero mutation, fail-closed.
    SkippedOwnershipUnknown(String),
    /// Preparing the replacement failed BEFORE any child was touched. A
    /// running old child is left untouched; a stale non-running registration
    /// is removed (`removed_stale`).
    BuildFailed { reason: String, removed_stale: bool },
    /// The old child could not be confirmed stopped — it remains fully
    /// supervised; no replacement happened.
    StopFailed { error: String },
    /// Old child stopped and the replacement registered, but its start failed
    /// — the replacement stays supervised in `Failed` state.
    StartFailed { error: String },
}

pub enum ReplaceOutcomeView {
    Replaced,
    SkippedOwned,
    SkippedOwnershipUnknown(Seq<char>),
    BuildFailed { reason: Seq<char>, removed_stale: bool },
    StopFailed { error: Seq<char> },
    StartFailed { error: Seq<char> },
}

impl View for FpmReplaceOutcome {
    type V = ReplaceOutcomeView;

    open spec fn view(&self) -> ReplaceOutcomeView {
        match self {
            FpmReplaceOutcome::Replaced => ReplaceOutcomeView::Replaced,
            FpmReplaceOutcome::SkippedOwned => ReplaceOutcomeView::SkippedOwned,
            FpmReplaceOutcome::SkippedOwnershipUnknown(d) =>
                ReplaceOutcomeView::SkippedOwnershipUnknown(d@),
            FpmReplaceOutcome::BuildFailed { reason, removed_stale } =>
                ReplaceOutcomeView::BuildFailed { reason: reason@, removed_stale: *removed_stale },
            FpmReplaceOutcome::StopFailed { error } => ReplaceOutcomeView::StopFailed {
                error: error@,
            },
            FpmReplaceOutcome::StartFailed { error } => ReplaceOutcomeView::StartFailed {
                error: error@,
            },
        }
    }
}

/// What an FPM replacement waits for.
#[derive(Debug)]
pub enum ReplaceStage {
    /// The replacement.
    Building,
    Stopping { stop: StopStage, replacement: ManagedService },
    Spawning { generation: u64 },
    Done { outcome: FpmReplaceOutcome },
}

pub enum ReplaceStageView {
    Building,
    Stopping { stop: StopStageView, replacement: ManagedView },
    Spawning { generation: u64 },
    Done { outcome: ReplaceOutcomeView },
}

impl View for ReplaceStage {
    type V = ReplaceStageView;

    open spec fn view(&self) -> ReplaceStageView {
        match self {
            ReplaceStage::Building => ReplaceStageView::Building,
            ReplaceStage::Stopping { stop, replacement } => ReplaceStageView::Stopping {
                stop: stop@,
                replacement: replacement@,
            },
            ReplaceStage::Spawning { generation } => ReplaceStageView::Spawning {
                generation: *generation,
            },
            ReplaceStage::Done { outcome } => ReplaceStageView::Done { outcome: outcome@ },
        }
    }
}

impl ReplaceStage {
    /// Whether a replacement at hand is one for FPM.
    pub open spec fn wf(&self) -> bool {
        match self {
            ReplaceStage::Stopping { stop, replacement } => replacement@.kind
                == ServiceKind::PhpFpm,
            _ => true,
        }
    }
}

pub open spec fn replace_done(s: SupView, outcome: ReplaceOutcomeView) -> (
    SupView,
    ReplaceStageView,
) {
    (s, ReplaceStageView::Done { outcome })
}

/// Replace the registration and start it, under the same snapshot.
pub open spec fn replaced(s: SupView, replacement: ManagedView) -> (SupView, ReplaceStageView) {
    (
        minted(
            inserted(s, ManagedView { breaker: reset_of(replacement.breaker), ..replacement }),
        ),
        ReplaceStageView::Spawning { generation: minted(s).counter },
    )
}

/// Where a replacement is once the stop of the old child has come to `stop`.
pub open spec fn replace_stopping(s: SupView, stop: StopStageView, replacement: ManagedView) -> (
    SupView,
    ReplaceStageView,
) {
    match stop {
        StopStageView::Done { result: Ok(_) } => replaced(s, replacement),
        StopStageView::Done { result: Err(error) } => replace_done(
            s,
            ReplaceOutcomeView::StopFailed { error },
        ),
        _ => (s, ReplaceStageView::Stopping { stop, replacement }),
    }
}

/// How an FPM replacement starts: under ONE ownership snapshot taken before
/// any mutation.
pub open spec fn replace_begin(s: SupView) -> ReplaceStageView {
    match s.ownership {
        OwnershipView::Owned => ReplaceStageView::Done {
            outcome: ReplaceOutcomeView::SkippedOwned,
        },
        OwnershipView::Unknown(diag) => ReplaceStageView::Done {
            outcome: ReplaceOutcomeView::SkippedOwnershipUnknown(diag),
        },
        OwnershipView::Unowned => ReplaceStageView::Building,
    }
}

/// One step of an FPM replacement. A reply that the stage does not wait for
/// changes nothing.
pub open spec fn replace_next(s: SupView, stage: ReplaceStageView, reply: SupReplyView) -> (
    SupView,
    ReplaceStageView,
) {
    let at = place(s.services, ServiceKind::PhpFpm);
    match (stage, reply) {
        (ReplaceStageView::Building, SupReplyView::Built(Err(reason))) => match at {
            Some(i) if s.services[i].child is Some => replace_done(
                s,
                ReplaceOutcomeView::BuildFailed { reason, removed_stale: false },
            ),
            _ => replace_done(
                removed(s, ServiceKind::PhpFpm),
                ReplaceOutcomeView::BuildFailed { reason, removed_stale: at is Some },
            ),
        },
        (ReplaceStageView::Building, SupReplyView::Built(Ok(replacement))) => match at {
            None => replaced(s, replacement),
            Some(i) => {
                let (v, stop) = stop_begin(s.services[i]);
                replace_stopping(with_service(s, i, v), stop, replacement)
            },
        },
        (ReplaceStageView::Stopping { stop, replacement }, SupReplyView::Stop(r)) => match at {
            None => (s, stage),
            Some(i) => {
                let (v, after) = stop_next(s.services[i], stop, r);
                replace_stopping(with_service(s, i, v), after, replacement)
            },
        },
        (ReplaceStageView::Spawning { generation }, SupReplyView::Spawned { result, now }) =>
            match at {
                None => (s, stage),
                Some(i) => replace_done(
                    with_service(s, i, launched(s.services[i], generation, result, now)),
                    match result {
                        Ok(_) => ReplaceOutcomeView::Replaced,
                        Err(error) => ReplaceOutcomeView::StartFailed { error },
                    },
                ),
            },
        _ => (s, stage),
    }
}

// ---- operations ----
#[derive(Debug, Clone, PartialEq, Eq)]
pub struct FpmLaunchSnapshot {
    pub generation: u64,
    pub group_id: Option<u32>,
    pub conf: FpmLaunchConf,
    /// Unix milliseconds.
    pub started_at: u64,
    pub running: bool,
}

pub struct LaunchSnapshotView {
    pub generation: u64,
    pub group_id: Option<u32>,
    pub conf: LaunchConfView,
    pub started_at: u64,
    pub running: bool,
}

impl View for FpmLaunchSnapshot {
    type V = LaunchSnapshotView;

    open spec fn view(&self) -> LaunchSnapshotView {
        LaunchSnapshotView {
            generation: self.generation,
            group_id: self.group_id,
            conf: self.conf@,
            started_at: self.started_at,
            running: self.running,
        }
    }
}

impl FpmLaunchSnapshot {
    /// An owned copy.
    pub fn dup(&self) -> (r: Self)
        ensures
            r@ == self@,
    {
        FpmLaunchSnapshot {
            generation: self.generation,
            group_id: self.group_id,
            conf: self.conf.dup(),
            started_at: self.started_at,
            running: self.running,
        }
    }
}

/// What is known of the FPM launch: nothing unless it is wholly known.
pub open spec fn launch_of(s: SupView) -> Option<LaunchSnapshotView> {
    match place(s.services, ServiceKind::PhpFpm) {
        None => None,
        Some(i) => {
            let v = s.services[i];
            match (v.launch_generation, v.fpm_launch, v.started_at) {
                (Some(generation), Some(conf), Some(started_at)) => Some(
                    LaunchSnapshotView {
                        generation,
                        group_id: v.child,
                        conf,
                        started_at,
                        running: v.state is Running,
                    },
                ),
                _ => None,
            }
        },
    }
}

#[derive(Debug, Clone)]
pub struct ServiceDetail {
    pub display_name: String,
    pub state: ServiceState,
}

pub open spec fn state_rows(v: Seq<(ServiceKind, ServiceState)>) -> Seq<
    (ServiceKind, ServiceStateView),
> {
    v.map_values(|r: (ServiceKind, ServiceState)| (r.0, r.1@))
}

pub open spec fn detail_rows(v: Seq<ServiceDetail>) -> Seq<(Seq<char>, ServiceStateView)> {
    v.map_values(|d: ServiceDetail| (d.display_name@, d.state@))
}

impl Default for ServiceSupervisor {
    fn default() -> (r: Self)
        ensures
            r@ == unconfigured(),
            r.wf(),
    {
        ServiceSupervisor::new()
    }
}

/// A supervisor before anything is registered: it refuses every FPM
/// activation until evidence is given.
pub open spec fn unconfigured() -> SupView {
    SupView {
        services: Seq::empty(),
        counter: 0,
        ownership: OwnershipView::Unknown(NOT_CONFIGURED@),
        health_interval_ms: 5000,
    }
}

impl ServiceSupervisor {
    pub open spec fn wf(&self) -> bool {
        distinct_kinds(self@.services)
    }

    pub fn new() -> (r: Self)
        ensures
            r@ == unconfigured(),
            r.wf(),
    {
        let services: Vec<ManagedService> = Vec::new();
        proof {
            assert(managed(services@) =~= Seq::empty());
        }
        ServiceSupervisor {
            services,
            health_interval_ms: 5000,
            launch_generation_counter: 0,
            fpm_ownership: FpmOwnership::Unknown(NOT_CONFIGURED.to_owned()),
        }
    }

    /// Install the evidence on current Herd ownership of PHP-FPM. There is no
    /// way back to the unconfigured state, and no fail-open default exists.
    pub fn set_fpm_ownership_probe(&mut self, evidence: FpmOwnership)
        requires
            old(self).wf(),
        ensures
            final(self)@ == (SupView { ownership: evidence@, ..old(self)@ }),
            final(self).wf(),
    {
        self.fpm_ownership = evidence;
    }

    /// The evidence on PHP-FPM ownership, consulted on every FPM-mutating
    /// path.
    pub fn current_fpm_ownership(&self) -> (r: FpmOwnership)
        ensures
            r@ == self@.ownership,
    {
        self.fpm_ownership.dup()
    }

    /// How often the health of the services is to be checked, in
    /// milliseconds.
    pub fn health_interval_ms(&self) -> (r: u64)
        ensures
            r == self@.health_interval_ms,
    {
        self.health_interval_ms
    }

    /// How many launches were numbered so far.
    pub fn launches(&self) -> (r: u64)
        ensures
            r == self@.counter,
    {
        self.launch_generation_counter
    }

    /// How many services are registered.
    pub fn len(&self) -> (r: usize)
        ensures
            r == self@.services.len(),
    {
        self.services.len()
    }

    /// The service registered at a place.
    pub fn service_at(&self, i: usize) -> (r: &ManagedService)
        requires
            i < self@.services.len(),
        ensures
            r@ == self@.services[i as int],
    {
        &self.services[i]
    }

    fn find(&self, kind: ServiceKind) -> (r: Option<usize>)
        ensures
            match r {
                Some(i) => is_place(self@.services, kind, i as int) && place(
                    self@.services,
                    kind,
                ) == Some(i as int),
                None => place(self@.services, kind) is None && forall|j: int|
                    0 <= j < self@.services.len() ==> (#[trigger] self@.services[j]).kind != kind,
            },
    {
        let mut i: usize = 0;
        while i < self.services.len()
            invariant
                i <= self.services.len(),
                self@.services == managed(self.services@),
                forall|j: int| 0 <= j < i ==> (#[trigger] self@.services[j]).kind != kind,
            decreases self.services.len() - i,
        {
            if self.services[i].kind() == kind {
                proof {
                    place_is(self@.services, kind, i as int);
                }
                return Some(i);
            }
            assert(self@.services[i as int].kind != kind);
            i = i + 1;
        }
        proof {
            place_none(self@.services, kind);
        }
        None
    }

    pub(crate) fn mint_launch_stamp(&mut self) -> (r: LaunchStamp)
        requires
            old(self)@.counter < u64::MAX,
        ensures
            final(self)@ == minted(old(self)@),
            r.number() == final(self)@.counter,
    {
        self.launch_generation_counter = self.launch_generation_counter + 1;
        LaunchStamp::of(self.launch_generation_counter)
    }

    /// May Hearth activate (start/restart) its own FPM right now? `Unknown`
    /// fails CLOSED.
    pub fn fpm_activation_blocked(&self) -> (r: Option<String>)
        ensures
            text::opt_text(r) == blocked(self@.ownership),
    {
        match &self.fpm_ownership {
            FpmOwnership::Unowned => None,
            FpmOwnership::Owned => Some("php-fpm is owned by Herd".to_owned()),
            FpmOwnership::Unknown(diag) => Some(
                text::cat3(
                    "php-fpm ownership is unknown (",
                    diag.as_str(),
                    "); FPM activation skipped fail-closed",
                ),
            ),
        }
    }

    // Changes to one service, each stated over the whole supervisor.
    fn put(&mut self, i: usize, service: ManagedService)
        requires
            i < old(self)@.services.len(),
        ensures
            final(self)@ == with_service(old(self)@, i as int, service@),
    {
        self.services[i] = service;
        proof {
            assert(managed(self.services@) =~= managed(old(self).services@).update(
                i as int,
                service@,
            ));
        }
    }

    fn insert(&mut self, service: ManagedService)
        requires
            old(self).wf(),
        ensures
            final(self)@ == inserted(old(self)@, service@),
            final(self).wf(),
            place(final(self)@.services, service@.kind) is Some,
            forall|kind: ServiceKind|
                place(old(self)@.services, kind) is Some ==> #[trigger] place(
                    final(self)@.services,
                    kind,
                ) == place(old(self)@.services, kind),
    {
        match self.find(service.kind()) {
            Some(i) => {
                self.put(i, service);
                proof {
                    same_places(old(self)@.services, self@.services);
                }
            },
            None => {
                let ghost n = self.services@.len() as int;
                self.services.push(service);
                proof {
                    assert(managed(self.services@) =~= managed(old(self).services@).push(
                        service@,
                    ));
                    pushed_places(old(self)@.services, service@);
                }
            },
        }
    }

    /// Starts to stop the service at a place.
    pub(crate) fn stop_at(&mut self, i: usize) -> (r: StopStage)
        requires
            i < old(self)@.services.len(),
        ensures
            ({
                let (v, stop) = stop_begin(old(self)@.services[i as int]);
                r@ == stop && final(self)@ == with_service(old(self)@, i as int, v)
            }),
    {
        let r = self.services[i].stop();
        proof {
            assert(managed(self.services@) =~= managed(old(self).services@).update(
                i as int,
                stop_begin(old(self)@.services[i as int]).0,
            ));
        }
        r
    }

    /// One step of the stop of the service at a place.
    pub(crate) fn stop_step_at(&mut self, i: usize, stage: StopStage, reply: StopReply) -> (r:
        StopStage)
        requires
            i < old(self)@.services.len(),
        ensures
            ({
                let (v, stop) = stop_next(old(self)@.services[i as int], stage@, reply@);
                r@ == stop && final(self)@ == with_service(old(self)@, i as int, v)
            }),
    {
        let r = self.services[i].stop_step(stage, reply);
        proof {
            assert(managed(self.services@) =~= managed(old(self).services@).update(
                i as int,
                stop_next(old(self)@.services[i as int], stage@, reply@).0,
            ));
        }
        r
    }

    /// Records what a spawn came to; gives the error back.
    pub(crate) fn launched_at(
        &mut self,
        i: usize,
        generation: u64,
        result: Result<u32, String>,
        now: u64,
    ) -> (r: Option<String>)
        requires
            i < old(self)@.services.len(),
        ensures
            final(self)@ == with_service(
                old(self)@,
                i as int,
                launched(old(self)@.services[i as int], generation, spawn_view(result), now),
            ),
            match (r, result) {
                (None, Ok(_)) => true,
                (Some(a), Err(b)) => a@ == b@,
                _ => false,
            },
    {
        let error: Option<String> = match &result {
            Ok(_) => None,
            Err(e) => Some(e.clone()),
        };
        let r = self.services[i].start(LaunchStamp::of(generation), result, now);
        match r {
            Ok(_) => {},
            Err(e) => {
                self.services[i].mark_failed(e);
            },
        }
        proof {
            assert(managed(self.services@) =~= managed(old(self).services@).update(
                i as int,
                launched(old(self)@.services[i as int], generation, spawn_view(result), now),
            ));
        }
        error
    }

    /// Mints a launch for the service at a place, with a fresh failure count.
    pub(crate) fn relaunch_at(&mut self, i: usize) -> (r: u64)
        requires
            i < old(self)@.services.len(),
            old(self)@.counter < u64::MAX,
        ensures
            final(self)@ == relaunching(old(self)@, i as int),
            r == final(self)@.counter,
    {
        self.services[i].reset_breaker();
        let ghost v = old(self)@.services[i as int];
        proof {
            assert(managed(self.services@) =~= managed(old(self).services@).update(
                i as int,
                ManagedView { breaker: reset_of(v.breaker), ..v },
            ));
        }
        self.mint_launch_stamp().generation()
    }

    /// Records a failed probe of the service at a place; says whether its
    /// failures now exceed the limit.
    pub(crate) fn crashed_at(&mut self, i: usize, waited: &Waited, now: u128) -> (r: bool)
        requires
            i < old(self)@.services.len(),
        ensures
            final(self)@ == with_service(
                old(self)@,
                i as int,
                crashed_service(old(self)@.services[i as int], waited@, now),
            ),
            r == tripped(failed_at(old(self)@.services[i as int].breaker, now)),
    {
        self.services[i].is_alive(waited);
        let t = self.services[i].record_failure_at(now);
        if t {
            self.services[i].mark_failed(TOO_MANY.to_owned());
        }
        proof {
            assert(managed(self.services@) =~= managed(old(self).services@).update(
                i as int,
                crashed_service(old(self)@.services[i as int], waited@, now),
            ));
        }
        t
    }

    /// Records that the child at a place was lost while Herd owns FPM.
    pub(crate) fn lost_at(&mut self, i: usize)
        requires
            i < old(self)@.services.len(),
        ensures
            final(self)@ == with_service(
                old(self)@,
                i as int,
                lost_service(old(self)@.services[i as int]),
            ),
    {
        self.services[i].mark_gone();
        proof {
            assert(managed(self.services@) =~= managed(old(self).services@).update(
                i as int,
                lost_service(old(self)@.services[i as int]),
            ));
        }
    }
}

/// A service found dead: its child, if it exited, is let go, the failure is
/// counted, and past the limit the service has failed.
pub open spec fn crashed_service(v: ManagedView, waited: WaitedView, now: u128) -> ManagedView {
    let left = if v.child is Some && waited is Exited {
        ManagedView { child: None, ..v }
    } else {
        v
    };
    let counted = ManagedView { breaker: failed_at(left.breaker, now), ..left };
    if tripped(counted.breaker) {
        failed(counted, TOO_MANY@)
    } else {
        counted
    }
}

/// A service recorded as running that has no child while Herd owns FPM.
pub open spec fn lost_service(v: ManagedView) -> ManagedView {
    ManagedView {
        state: ServiceStateView::Stopped,
        started_at: None,
        launch_generation: None,
        ..v
    }
}

/// Changes that keep the kinds keep the places.
pub proof fn same_places(a: Seq<ManagedView>, b: Seq<ManagedView>)
    requires
        a.len() == b.len(),
        forall|i: int| 0 <= i < a.len() ==> (#[trigger] a[i]).kind == b[i].kind,
    ensures
        forall|kind: ServiceKind| #[trigger] place(b, kind) == place(a, kind),
        distinct_kinds(a) ==> distinct_kinds(b),
{
    assert forall|kind: ServiceKind| #[trigger] place(b, kind) == place(a, kind) by {
        if place(a, kind) is Some {
            let i = choose|i: int| is_place(a, kind, i);
            assert(a[i].kind == kind);
            assert forall|j: int| 0 <= j < i implies (#[trigger] b[j]).kind != kind by {
                assert(a[j].kind != kind);
            }
            place_is(b, kind, i);
        } else {
            assert forall|j: int| 0 <= j < b.len() implies (#[trigger] b[j]).kind != kind by {
                if a[j].kind == kind {
                    first_place(a, kind, j);
                }
                assert(a[j].kind == b[j].kind);
            }
            place_none(b, kind);
        }
    }
    if distinct_kinds(a) {
        assert forall|i: int, j: int|
            0 <= i < b.len() && 0 <= j < b.len() && (#[trigger] b[i]).kind == (
            #[trigger] b[j]).kind implies i == j by {
            assert(a[i].kind == a[j].kind);
        }
    }
}

/// A kind that is registered has a first place.
proof fn first_place(services: Seq<ManagedView>, kind: ServiceKind, j: int)
    requires
        0 <= j < services.len(),
        services[j].kind == kind,
    ensures
        place(services, kind) is Some,
    decreases j,
{
    if exists|k: int| 0 <= k < j && (#[trigger] services[k]).kind == kind {
        let k = choose|k: int| 0 <= k < j && (#[trigger] services[k]).kind == kind;
        first_place(services, kind, k);
    } else {
        assert(is_place(services, kind, j));
    }
}

proof fn pushed_places(a: Seq<ManagedView>, v: ManagedView)
    requires
        place(a, v.kind) is None,
        distinct_kinds(a),
    ensures
        distinct_kinds(a.push(v)),
        place(a.push(v), v.kind) == Some(a.len() as int),
        forall|kind: ServiceKind|
            place(a, kind) is Some ==> #[trigger] place(a.push(v), kind) == place(a, kind),
{
    let b = a.push(v);
    assert forall|j: int| 0 <= j < a.len() implies (#[trigger] a[j]).kind != v.kind by {
        if a[j].kind == v.kind {
            first_place(a, v.kind, j);
        }
    }
    assert(forall|j: int| 0 <= j < a.len() ==> b[j] == a[j]);
    assert forall|j: int| 0 <= j < a.len() implies (#[trigger] b[j]).kind != v.kind by {
        assert(a[j].kind != v.kind);
    }
    place_is(b, v.kind, a.len() as int);
    assert forall|kind: ServiceKind| place(a, kind) is Some implies #[trigger] place(b, kind)
        == place(a, kind) by {
        let i = choose|i: int| is_place(a, kind, i);
        assert forall|j: int| 0 <= j < i implies (#[trigger] b[j]).kind != kind by {
            assert(a[j].kind != kind);
        }
        place_is(b, kind, i);
    }
    assert forall|i: int, j: int|
        0 <= i < b.len() && 0 <= j < b.len() && (#[trigger] b[i]).kind == (
        #[trigger] b[j]).kind implies i == j by {
        if i < a.len() && j < a.len() {
            assert(a[i].kind == a[j].kind);
        }
    }
}

/// A supervisor after a service was given another command.
pub open spec fn reconfigured(
    s: SupView,
    kind: ServiceKind,
    command: Seq<char>,
    args: Seq<Seq<char>>,
    env: Seq<(Seq<char>, Seq<char>)>,
) -> SupView {
    match place(s.services, kind) {
        None => s,
        Some(i) => with_service(
            s,
            i,
            ManagedView {
                command,
                args,
                env,
                breaker: reset_of(s.services[i].breaker),
                ..s.services[i]
            },
        ),
    }
}

/// Whether a kind may not be activated, and why.
pub open spec fn barred(s: SupView, kind: ServiceKind) -> Option<Seq<char>> {
    if kind == ServiceKind::PhpFpm {
        blocked(s.ownership)
    } else {
        None
    }
}

/// How a start of one service begins: refused, or a launch minted for it.
pub open spec fn start_begin(s: SupView, kind: ServiceKind) -> (SupView, Result<u64, Seq<char>>) {
    match barred(s, kind) {
        Some(reason) => (s, Err(reason + " — Hearth will not start its own FPM"@)),
        None => match place(s.services, kind) {
            None => (minted(s), Err(not_registered(kind))),
            Some(i) => (relaunching(s, i), Ok(minted(s).counter)),
        },
    }
}

impl ServiceSupervisor {
    pub(crate) fn bar(&self, kind: ServiceKind) -> (r: Option<String>)
        ensures
            text::opt_text(r) == barred(self@, kind),
    {
        if kind == ServiceKind::PhpFpm {
            self.fpm_activation_blocked()
        } else {
            None
        }
    }

    /// Register a service to be supervised.
    ///
    /// FPM registration re-checks TYPED current ownership inside the
    /// supervisor boundary immediately before mutation. Owned/Unknown refuse
    /// with zero mutation; there is no raw insertion bypass.
    pub fn register(&mut self, service: ManagedService) -> (r: Result<(), String>)
        requires
            old(self).wf(),
        ensures
            final(self).wf(),
            match barred(old(self)@, service@.kind) {
                Some(reason) => (match r {
                    Ok(_) => false,
                    Err(e) => e@ == "php-fpm registration refused: "@ + reason,
                }) && final(self)@ == old(self)@,
                None => r is Ok && final(self)@ == inserted(old(self)@, service@),
            },
    {
        match self.bar(service.kind()) {
            Some(reason) => Err(text::cat2("php-fpm registration refused: ", reason.as_str())),
            None => {
                self.insert(service);
                Ok(())
            },
        }
    }

    /// Start a specific service: mints the launch to spawn it under. Returns an
    /// error if the service is not registered. Starting Hearth FPM while Herd
    /// currently owns it — or while ownership is unknown (fail-closed) — is
    /// refused with an actionable error.
    pub fn start_service(&mut self, kind: ServiceKind) -> (r: Result<LaunchStamp, String>)
        requires
            old(self).wf(),
            old(self)@.counter < u64::MAX,
        ensures
            final(self).wf(),
            final(self)@ == start_begin(old(self)@, kind).0,
            match (r, start_begin(old(self)@, kind).1) {
                (Ok(stamp), Ok(generation)) => stamp.number() == generation,
                (Err(a), Err(b)) => a@ == b,
                _ => false,
            },
    {
        match self.bar(kind) {
            Some(reason) => Err(
                text::cat2(reason.as_str(), " — Hearth will not start its own FPM"),
            ),
            None => match self.find(kind) {
                None => {
                    self.mint_launch_stamp();
                    Err(text::cat3("service ", kind.name(), " is not registered"))
                },
                Some(i) => {
                    let generation: u64 = self.relaunch_at(i);
                    proof {
                        same_places(old(self)@.services, self@.services);
                    }
                    Ok(LaunchStamp::of(generation))
                },
            },
        }
    }

    /// Records what spawning a service under a minted launch came to. A
    /// failure leaves the service as it was.
    pub fn finish_start(
        &mut self,
        kind: ServiceKind,
        stamp: LaunchStamp,
        spawned: Result<u32, String>,
        now: u64,
    ) -> (r: Result<(), String>)
        requires
            old(self).wf(),
        ensures
            final(self).wf(),
            match (place(old(self)@.services, kind), spawned) {
                (None, _) => final(self)@ == old(self)@ && (match r {
                    Ok(_) => false,
                    Err(e) => e@ == not_registered(kind),
                }),
                (Some(i), Ok(pid)) => r is Ok && final(self)@ == with_service(
                    old(self)@,
                    i,
                    started(old(self)@.services[i], pid, stamp.number(), now),
                ),
                (Some(_), Err(e)) => r == Err::<(), String>(e) && final(self)@ == old(self)@,
            },
    {
        match self.find(kind) {
            None => Err(text::cat3("service ", kind.name(), " is not registered")),
            Some(i) => {
                let ghost v = self@.services[i as int];
                let ghost w = match spawn_view(spawned) {
                    Ok(pid) => started(v, pid, stamp.number(), now),
                    Err(_) => v,
                };
                let r = self.services[i].start(stamp, spawned, now);
                proof {
                    assert(managed(self.services@) =~= managed(old(self).services@).update(
                        i as int,
                        w,
                    ));
                    same_places(old(self)@.services, self@.services);
                    if spawned is Err {
                        assert(self@ =~= old(self)@);
                    }
                }
                r
            },
        }
    }

    /// Stop a specific service. Returns an error if the service is not
    /// registered.
    pub fn stop_service(&mut self, kind: ServiceKind) -> (r: Result<StopStage, String>)
        requires
            old(self).wf(),
        ensures
            final(self).wf(),
            match (place(old(self)@.services, kind), r) {
                (None, Err(e)) => e@ == not_registered(kind) && final(self)@ == old(self)@,
                (Some(i), Ok(stage)) => {
                    let (v, stop) = stop_begin(old(self)@.services[i]);
                    stage@ == stop && final(self)@ == with_service(old(self)@, i, v)
                },
                _ => false,
            },
    {
        match self.find(kind) {
            None => Err(text::cat3("service ", kind.name(), " is not registered")),
            Some(i) => {
                let stage = self.stop_at(i);
                proof {
                    same_places(old(self)@.services, self@.services);
                }
                Ok(stage)
            },
        }
    }

    /// One step of the stop of a specific service.
    pub fn stop_service_step(&mut self, kind: ServiceKind, stage: StopStage, reply: StopReply) -> (r:
        StopStage)
        requires
            old(self).wf(),
        ensures
            final(self).wf(),
            match place(old(self)@.services, kind) {
                None => r@ == stage@ && final(self)@ == old(self)@,
                Some(i) => {
                    let (v, stop) = stop_next(old(self)@.services[i], stage@, reply@);
                    r@ == stop && final(self)@ == with_service(old(self)@, i, v)
                },
            },
    {
        match self.find(kind) {
            None => stage,
            Some(i) => {
                let next = self.stop_step_at(i, stage, reply);
                proof {
                    same_places(old(self)@.services, self@.services);
                }
                next
            },
        }
    }

    /// Replace a service's command configuration (e.g., for PHP version
    /// switch). The service must be stopped before reconfiguring. `env`
    /// REPLACES the stored child environment — a version switch must never
    /// retain the previous version's scan-dir env. FPM reconfiguration
    /// re-checks TYPED current ownership inside the supervisor boundary —
    /// Owned/Unknown refuse with zero mutation.
    pub fn reconfigure_service(
        &mut self,
        kind: ServiceKind,
        command: String,
        args: Vec<String>,
        env: Vec<(String, String)>,
    ) -> (r: Result<(), String>)
        requires
            old(self).wf(),
        ensures
            final(self).wf(),
            match barred(old(self)@, kind) {
                Some(reason) => (match r {
                    Ok(_) => false,
                    Err(e) => e@ == "php-fpm reconfiguration refused: "@ + reason,
                }) && final(self)@ == old(self)@,
                None => r is Ok && final(self)@ == reconfigured(
                    old(self)@,
                    kind,
                    command@,
                    text::texts(args@),
                    text::text_pairs(env@),
                ),
            },
    {
        match self.bar(kind) {
            Some(reason) => Err(text::cat2("php-fpm reconfiguration refused: ", reason.as_str())),
            None => {
                match self.find(kind) {
                    None => {},
                    Some(i) => {
                        let ghost w = reconfigured(
                            self@,
                            kind,
                            command@,
                            text::texts(args@),
                            text::text_pairs(env@),
                        );
                        self.services[i].configure(command, args, env);
                        proof {
                            assert(managed(self.services@) =~= w.services);
                            same_places(old(self)@.services, self@.services);
                        }
                    },
                }
                Ok(())
            },
        }
    }

    /// Deregister a service (e.g., a launch-blocked FPM after a version
    /// switch). Returns true when a registration was removed. Callers stop the
    /// service first.
    pub fn remove_service(&mut self, kind: ServiceKind) -> (r: bool)
        requires
            old(self).wf(),
        ensures
            final(self).wf(),
            final(self)@ == removed(old(self)@, kind),
            r == (place(old(self)@.services, kind) is Some),
    {
        match self.find(kind) {
            None => false,
            Some(i) => {
                self.services.remove(i);
                proof {
                    let a = old(self)@.services;
                    let b = self@.services;
                    assert(b =~= a.remove(i as int));
                    assert forall|x: int, y: int|
                        0 <= x < b.len() && 0 <= y < b.len() && (#[trigger] b[x]).kind == (
                        #[trigger] b[y]).kind implies x == y by {
                        let ax = if x < i { x } else { x + 1 };
                        let ay = if y < i { y } else { y + 1 };
                        assert(a[ax].kind == a[ay].kind);
                    }
                }
                true
            },
        }
    }

    /// Read access to one registered service (command/args/env inspection).
    pub fn service(&self, kind: ServiceKind) -> (r: Option<&ManagedService>)
        ensures
            match (place(self@.services, kind), r) {
                (None, None) => true,
                (Some(i), Some(s)) => s@ == self@.services[i],
                _ => false,
            },
    {
        match self.find(kind) {
            None => None,
            Some(i) => Some(&self.services[i]),
        }
    }

    pub fn fpm_launch_snapshot(&self) -> (r: Option<FpmLaunchSnapshot>)
        ensures
            match (launch_of(self@), r) {
                (None, None) => true,
                (Some(v), Some(s)) => s@ == v,
                _ => false,
            },
    {
        match self.find(ServiceKind::PhpFpm) {
            None => None,
            Some(i) => {
                let service = &self.services[i];
                match (
                    service.launch_generation(),
                    service.fpm_launch_conf(),
                    service.started_at(),
                ) {
                    (Some(generation), Some(conf), Some(started_at)) => Some(
                        FpmLaunchSnapshot {
                            generation,
                            group_id: service.child(),
                            conf: conf.dup(),
                            started_at,
                            running: service.state().is_running(),
                        },
                    ),
                    _ => None,
                }
            },
        }
    }

    /// Get the current state of all services.
    pub fn status(&self) -> (r: Vec<(ServiceKind, ServiceState)>)
        ensures
            state_rows(r@) == self@.services.map_values(|v: ManagedView| (v.kind, v.state)),
    {
        let mut out: Vec<(ServiceKind, ServiceState)> = Vec::new();
        let mut i: usize = 0;
        while i < self.services.len()
            invariant
                i <= self.services.len(),
                self@.services == managed(self.services@),
                out@.len() == i,
                forall|j: int|
                    0 <= j < i ==> (#[trigger] out@[j]).0 == self@.services[j].kind && out@[j].1@
                        == self@.services[j].state,
            decreases self.services.len() - i,
        {
            let svc = &self.services[i];
            out.push((svc.kind(), svc.state().dup()));
            i = i + 1;
        }
        out
    }

    /// Same as `status()` but carries each service's display name (with site
    /// bracket for per-site Laravel workers). Used by the daemon for `hearth
    /// status` output.
    pub fn services_detailed(&self) -> (r: Vec<ServiceDetail>)
        ensures
            detail_rows(r@) == self@.services.map_values(
                |v: ManagedView| (label_of(v), v.state),
            ),
    {
        let mut out: Vec<ServiceDetail> = Vec::new();
        let mut i: usize = 0;
        while i < self.services.len()
            invariant
                i <= self.services.len(),
                self@.services == managed(self.services@),
                out@.len() == i,
                forall|j: int|
                    0 <= j < i ==> (#[trigger] out@[j]).display_name@ == label_of(
                        self@.services[j],
                    ) && out@[j].state@ == self@.services[j].state,
            decreases self.services.len() - i,
        {
            let svc = &self.services[i];
            out.push(ServiceDetail { display_name: svc.display_name(), state: svc.state().dup() });
            i = i + 1;
        }
        out
    }

    fn restart_after(&mut self, i: usize, stop: StopStage) -> (r: RestartStage)
        requires
            old(self).wf(),
            i < old(self)@.services.len(),
            old(self)@.counter < u64::MAX,
        ensures
            final(self).wf(),
            (final(self)@, r@) == restart_stopping(old(self)@, i as int, stop@),
            final(self)@.services.len() == old(self)@.services.len(),
    {
        match stop {
            StopStage::Done { result } => match result {
                Ok(_) => {
                    let generation: u64 = self.relaunch_at(i);
                    proof {
                        same_places(old(self)@.services, self@.services);
                    }
                    RestartStage::Spawning { generation }
                },
                Err(error) => RestartStage::Done {
                    outcome: FpmRestartTxOutcome::StopFailed { error },
                },
            },
            stop => RestartStage::Stopping { stop },
        }
    }

    /// ATOMIC PHP-FPM restart — every restart that can touch FPM is ONE
    /// supervisor-owned transaction under ONE authoritative typed ownership
    /// snapshot taken immediately before any mutation. Owned/Unknown refuse
    /// BEFORE the stop, leaving the old registration, child, timestamp, and
    /// state untouched; Unowned performs the coherent stop/start with NO
    /// post-stop ownership recheck (a later flip is the health handoff's job).
    /// A failed stop keeps the old child fully supervised; a failed start after
    /// a successful stop retains a truthful `Failed` registration and never
    /// creates an orphan.
    pub fn restart_fpm_service(&mut self) -> (r: RestartStage)
        requires
            old(self).wf(),
            old(self)@.counter < u64::MAX,
        ensures
            final(self).wf(),
            (final(self)@, r@) == restart_begin(old(self)@),
            final(self)@.services.len() == old(self)@.services.len(),
    {
        match &self.fpm_ownership {
            FpmOwnership::Owned => {
                return RestartStage::Done { outcome: FpmRestartTxOutcome::SkippedOwned };
            },
            FpmOwnership::Unknown(diag) => {
                return RestartStage::Done {
                    outcome: FpmRestartTxOutcome::SkippedOwnershipUnknown(diag.clone()),
                };
            },
            FpmOwnership::Unowned => {},
        }
        match self.find(ServiceKind::PhpFpm) {
            None => RestartStage::Done { outcome: FpmRestartTxOutcome::NotRegistered },
            Some(i) => {
                let stop = self.stop_at(i);
                proof {
                    same_places(old(self)@.services, self@.services);
                }
                self.restart_after(i, stop)
            },
        }
    }

    /// One step of the atomic FPM restart.
    pub fn restart_fpm_step(&mut self, stage: RestartStage, reply: SupReply) -> (r: RestartStage)
        requires
            old(self).wf(),
            old(self)@.counter < u64::MAX,
        ensures
            final(self).wf(),
            (final(self)@, r@) == restart_next(old(self)@, stage@, reply@),
            final(self)@.services.len() == old(self)@.services.len(),
    {
        match self.find(ServiceKind::PhpFpm) {
            None => stage,
            Some(i) => match (stage, reply) {
                (RestartStage::Stopping { stop }, SupReply::Stop(r)) => {
                    let after = self.stop_step_at(i, stop, r);
                    proof {
                        same_places(old(self)@.services, self@.services);
                    }
                    self.restart_after(i, after)
                },
                (RestartStage::Spawning { generation }, SupReply::Spawned { result, now }) => {
                    let error = self.launched_at(i, generation, result, now);
                    proof {
                        same_places(old(self)@.services, self@.services);
                    }
                    RestartStage::Done {
                        outcome: match error {
                            None => FpmRestartTxOutcome::Restarted,
                            Some(error) => FpmRestartTxOutcome::StartFailed { error },
                        },
                    }
                },
                (stage, _) => stage,
            },
        }
    }

    fn replace_with(&mut self, replacement: ManagedService) -> (r: ReplaceStage)
        requires
            old(self).wf(),
            old(self)@.counter < u64::MAX,
        ensures
            final(self).wf(),
            (final(self)@, r@) == replaced(old(self)@, replacement@),
            r.wf(),
    {
        let mut service = replacement;
        service.reset_breaker();
        self.insert(service);
        let generation: u64 = self.mint_launch_stamp().generation();
        ReplaceStage::Spawning { generation }
    }

    fn replace_after(&mut self, stop: StopStage, replacement: ManagedService) -> (r: ReplaceStage)
        requires
            old(self).wf(),
            old(self)@.counter < u64::MAX,
            replacement@.kind == ServiceKind::PhpFpm,
        ensures
            final(self).wf(),
            (final(self)@, r@) == replace_stopping(old(self)@, stop@, replacement@),
            r.wf(),
    {
        match stop {
            StopStage::Done { result } => match result {
                Ok(_) => self.replace_with(replacement),
                Err(error) => ReplaceStage::Done {
                    outcome: FpmReplaceOutcome::StopFailed { error },
                },
            },
            stop => ReplaceStage::Stopping { stop, replacement },
        }
    }

    /// ATOMIC PHP-FPM replacement — the version switch's entire FPM
    /// decision/mutation as ONE supervisor-owned transaction under ONE
    /// authoritative typed ownership snapshot taken immediately before any
    /// mutation.
    ///
    /// Semantics:
    /// - Owned/Unknown snapshot → zero mutation (no stop/remove/register/
    ///   start); old registration, child, timestamp, and state unchanged.
    /// - Unowned snapshot governs the WHOLE stop→replace→start — there is
    ///   deliberately no second recheck that could refuse after destructive
    ///   mutation; an ownership change after the snapshot is handled by the
    ///   next health tick (relinquish path).
    /// - The replacement is prepared BEFORE the old child is touched. Failing
    ///   to prepare it never stops a RUNNING child; a stale NON-running
    ///   registration is removed (launch-blocked switch contract).
    /// - A stop failure keeps the old child fully supervised and aborts the
    ///   replacement.
    /// - A start failure after a successful stop reports the exact partial
    ///   state: the replacement registration is retained (supervisable,
    ///   `Failed`) — never reported as "untouched", never an orphan.
    pub fn replace_fpm_service(&self) -> (r: ReplaceStage)
        ensures
            r@ == replace_begin(self@),
            r.wf(),
    {
        match &self.fpm_ownership {
            FpmOwnership::Owned => ReplaceStage::Done { outcome: FpmReplaceOutcome::SkippedOwned },
            FpmOwnership::Unknown(diag) => ReplaceStage::Done {
                outcome: FpmReplaceOutcome::SkippedOwnershipUnknown(diag.clone()),
            },
            FpmOwnership::Unowned => ReplaceStage::Building,
        }
    }

    /// One step of the atomic FPM replacement.
    pub fn replace_fpm_step(&mut self, stage: ReplaceStage, reply: SupReply) -> (r: ReplaceStage)
        requires
            old(self).wf(),
            old(self)@.counter < u64::MAX,
            stage.wf(),
            match reply {
                SupReply::Built(Ok(replacement)) => replacement@.kind == ServiceKind::PhpFpm,
                _ => true,
            },
        ensures
            final(self).wf(),
            (final(self)@, r@) == replace_next(old(self)@, stage@, reply@),
            r.wf(),
    {
        match (stage, reply) {
            (ReplaceStage::Building, SupReply::Built(built)) => match built {
                Err(reason) => match self.find(ServiceKind::PhpFpm) {
                    Some(i) => {
                        if self.services[i].child().is_some() {
                            return ReplaceStage::Done {
                                outcome: FpmReplaceOutcome::BuildFailed {
                                    reason,
                                    removed_stale: false,
                                },
                            };
                        }
                        self.remove_service(ServiceKind::PhpFpm);
                        ReplaceStage::Done {
                            outcome: FpmReplaceOutcome::BuildFailed { reason, removed_stale: true },
                        }
                    },
                    None => ReplaceStage::Done {
                        outcome: FpmReplaceOutcome::BuildFailed { reason, removed_stale: false },
                    },
                },
                Ok(replacement) => match self.find(ServiceKind::PhpFpm) {
                    None => self.replace_with(replacement),
                    Some(i) => {
                        let stop = self.stop_at(i);
                        proof {
                            same_places(old(self)@.services, self@.services);
                        }
                        self.replace_after(stop, replacement)
                    },
                },
            },
            (ReplaceStage::Stopping { stop, replacement }, SupReply::Stop(r)) => match self.find(
                ServiceKind::PhpFpm,
            ) {
                None => ReplaceStage::Stopping { stop, replacement },
                Some(i) => {
                    let after = self.stop_step_at(i, stop, r);
                    proof {
                        same_places(old(self)@.services, self@.services);
                    }
                    self.replace_after(after, replacement)
                },
            },
            (ReplaceStage::Spawning { generation }, SupReply::Spawned { result, now }) =>
                match self.find(ServiceKind::PhpFpm) {
                    None => ReplaceStage::Spawning { generation },
                    Some(i) => {
                        let error = self.launched_at(i, generation, result, now);
                        proof {
                            same_places(old(self)@.services, self@.services);
                        }
                        ReplaceStage::Done {
                            outcome: match error {
                                None => FpmReplaceOutcome::Replaced,
                                Some(error) => FpmReplaceOutcome::StartFailed { error },
                            },
                        }
                    },
                },
            (stage, _) => stage,
        }
    }
}

} // verus!
