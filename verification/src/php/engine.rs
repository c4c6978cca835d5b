//! The php-config engine — the single implementation behind the daemon socket
//! handler and the MCP tools.
//!
//! Everything that touches the machine happens outside: a run says what it
//! waits for, and is stepped with what came of it.

use crate::config::{IniStore, PhpIniSettings};
use crate::fs::{self, Snapshot};
use crate::path;
use crate::php::assembly::{
    build_target, creation_failure, may_probe, missing_channels, missing_hearth_channels, probeable,
    refused_channel, target_of,
};
use crate::php::fpm::{self, FpmConfState, MaterializeReport, MaterializeView, StateView};
use crate::php::manifest::Manifest;
use crate::php::mutation::{
    mutate_store, mutated, mutation_refusal, plausible, refuse_key, refuse_mutation, scope_version,
    validate_version, version_refusal,
};
use crate::php::ini_guard::{fault_said, key_fault};
use crate::php::reconcile::{actions_of, ActionView, FileAction, ReconcileReport};
use crate::php::roots::RootsView;
use crate::php::rows::{
    self, all_rows, block_failed, build_rows, confirm_states, confirmed_states, expected_states,
    file_states_from_manifest,
    file_states_from_report, note_launch_probe, noted, plan_launch_probes, planned, probe_views,
    reported_states, states_view, wire_files, wire_result, wired, wired_files, with_failures,
    FileState, FileStateView, FpmFacts, LaunchProbe, LaunchProbeView,
};
pub use crate::php::rows::EXTERNAL_FPM_COVERAGE;
use crate::php::targets::{
    discover_provider_targets, discoveries, identities, target_views, unprobed, IdentityView,
    PhpTarget, PhpTargetIdentity, ProbeInfo, ProbeView, ProviderRoots, TargetView,
};
use crate::scan;
use crate::service::manager::MISSING_CONF;
use crate::service::supervisor::{
    FpmOwnership, FpmReplaceOutcome, FpmRestartTxOutcome, OwnershipView, ReplaceOutcomeView,
    RestartOutcomeView,
};
use crate::socket::{
    file_views, hard_lines, row_views, ConfigActionView, ConfigOutcomeView, FileOutcome,
    FileView, FileWriteResult, FpmOutcomeView, FpmRestartOutcome, PhpConfigAction, PhpConfigOutcome,
    PhpScope, PhpTargetRow, RowView, ScopeView,
};
use crate::text::{self, opt_str, opt_text};
use vstd::prelude::*;

verus! {

// ---- the engine ----
/// Where the engine works.
#[derive(Debug)]
pub struct PhpConfigEngine {
    config_path: String,
    config_dir: String,
    provider_roots: ProviderRoots,
    probe_timeout_ms: u64,
}

pub struct EngineHost {
    pub config_path: Seq<char>,
    pub config_dir: Seq<char>,
    pub roots: RootsView,
    pub probe_timeout_ms: u64,
}

impl View for PhpConfigEngine {
    type V = EngineHost;

    closed spec fn view(&self) -> EngineHost {
        EngineHost {
            config_path: self.config_path@,
            config_dir: self.config_dir@,
            roots: self.provider_roots@,
            probe_timeout_ms: self.probe_timeout_ms,
        }
    }
}

impl PhpConfigEngine {
    pub fn new(
        config_path: String,
        config_dir: String,
        provider_roots: ProviderRoots,
        probe_timeout_ms: u64,
    ) -> (r: Self)
        ensures
            r@ == (EngineHost {
                config_path: config_path@,
                config_dir: config_dir@,
                roots: provider_roots@,
                probe_timeout_ms,
            }),
    {
        PhpConfigEngine { config_path, config_dir, provider_roots, probe_timeout_ms }
    }

    pub fn config_path(&self) -> (r: &str)
        ensures
            r@ == self@.config_path,
    {
        self.config_path.as_str()
    }

    pub fn config_dir(&self) -> (r: &str)
        ensures
            r@ == self@.config_dir,
    {
        self.config_dir.as_str()
    }

    /// Whole-operation deadline used by bounded PHP probes, in milliseconds.
    pub fn probe_timeout(&self) -> (r: u64)
        ensures
            r == self@.probe_timeout_ms,
    {
        self.probe_timeout_ms
    }

    pub fn provider_roots(&self) -> (r: &ProviderRoots)
        ensures
            r@ == self@.roots,
    {
        &self.provider_roots
    }

    pub fn manifest_path(&self) -> (r: String)
        ensures
            r@ == path::joined(path::joined(self@.config_dir, "php"@), "manifest.toml"@),
    {
        let dir: String = path::join(self.config_dir.as_str(), "php");
        path::join(dir.as_str(), "manifest.toml")
    }

    /// The state of the FPM configuration, given what was read of its
    /// manifest.
    pub fn fpm_conf_state(&self, disk: &Snapshot, loaded: Result<Manifest, String>) -> (r:
        FpmConfState)
        requires
            disk.wf(),
        ensures
            r@ == fpm::conf_state_of(self@.config_dir, disk@, fpm::loaded_view(loaded)),
    {
        fpm::conf_state(self.config_dir.as_str(), disk, loaded)
    }
}

/// Why FPM cannot be launched, if its configuration is blocked. Typed launch
/// decisions consume the state itself.
pub fn fpm_launch_blocked_reason(state: &FpmConfState) -> (r: Option<String>)
    ensures
        opt_text(r) == match state@ {
            StateView::Blocked { reason } => Some(reason),
            _ => None,
        },
{
    match state {
        FpmConfState::Blocked { reason } => Some(reason.clone()),
        _ => None,
    }
}

// ---- a run ----
/// What a run is for.
#[derive(Debug)]
pub enum EngineJob {
    /// Set or Unset of this key.
    Mutate { key: String },
    /// Show, or Status if it echoes the request.
    Observe { key: Option<String>, echo: bool, token: Option<String> },
    /// Journal recovery → guarded legacy migration → reconcile, with or
    /// without the static FPM artifacts.
    Sync { fpm: bool },
    Unmanage,
}

pub enum EngineJobView {
    Mutate { key: Seq<char> },
    Observe { key: Option<Seq<char>>, echo: bool, token: Option<Seq<char>> },
    Sync { fpm: bool },
    Unmanage,
}

impl View for EngineJob {
    type V = EngineJobView;

    open spec fn view(&self) -> EngineJobView {
        match self {
            EngineJob::Mutate { key } => EngineJobView::Mutate { key: key@ },
            EngineJob::Observe { key, echo, token } => EngineJobView::Observe {
                key: opt_text(*key),
                echo: *echo,
                token: opt_text(*token),
            },
            EngineJob::Sync { fpm } => EngineJobView::Sync { fpm: *fpm },
            EngineJob::Unmanage => EngineJobView::Unmanage,
        }
    }
}

/// The key that a job is about.
pub open spec fn job_key(job: EngineJobView) -> Option<Seq<char>> {
    match job {
        EngineJobView::Mutate { key } => Some(key),
        EngineJobView::Observe { key, echo, token } => key,
        _ => None,
    }
}

/// What a run waits for.
pub enum EngineStage {
    /// The configuration is saved; the store before the change is kept.
    Saving { prior: PhpIniSettings },
    /// The manifest directory is guarded.
    Guarding,
    /// The channel journal is recovered.
    RecoveringIni,
    /// The FPM journal is recovered.
    RecoveringFpm,
    /// Legacy INI files are migrated into the store.
    Migrating,
    /// This missing channel directory is created.
    Creating { dirs: Vec<String>, at: usize },
    /// The binary at this position is probed.
    Probing { at: usize },
    /// The channels are reconciled.
    Reconciling,
    /// The FPM artifacts are materialized.
    Materializing,
    /// The launch probe at this position is made.
    Observing { at: usize },
    /// The channel files are removed.
    RemovingIni,
    /// The FPM artifacts are removed.
    RemovingFpm,
    Done { result: Result<(), String> },
}

pub enum EngineStageView {
    Saving { prior: IniStore },
    Guarding,
    RecoveringIni,
    RecoveringFpm,
    Migrating,
    Creating { dirs: Seq<Seq<char>>, at: int },
    Probing { at: int },
    Reconciling,
    Materializing,
    Observing { at: int },
    RemovingIni,
    RemovingFpm,
    Done { result: Result<(), Seq<char>> },
}

pub open spec fn outcome_view(r: Result<PhpConfigOutcome, String>) -> Result<
    ConfigOutcomeView,
    Seq<char>,
> {
    match r {
        Ok(o) => Ok(o@),
        Err(e) => Err(e@),
    }
}

impl View for EngineStage {
    type V = EngineStageView;

    open spec fn view(&self) -> EngineStageView {
        match self {
            EngineStage::Saving { prior } => EngineStageView::Saving { prior: prior@ },
            EngineStage::Guarding => EngineStageView::Guarding,
            EngineStage::RecoveringIni => EngineStageView::RecoveringIni,
            EngineStage::RecoveringFpm => EngineStageView::RecoveringFpm,
            EngineStage::Migrating => EngineStageView::Migrating,
            EngineStage::Creating { dirs, at } => EngineStageView::Creating {
                dirs: text::texts(dirs@),
                at: *at as int,
            },
            EngineStage::Probing { at } => EngineStageView::Probing { at: *at as int },
            EngineStage::Reconciling => EngineStageView::Reconciling,
            EngineStage::Materializing => EngineStageView::Materializing,
            EngineStage::Observing { at } => EngineStageView::Observing { at: *at as int },
            EngineStage::RemovingIni => EngineStageView::RemovingIni,
            EngineStage::RemovingFpm => EngineStageView::RemovingFpm,
            EngineStage::Done { result } => EngineStageView::Done {
                result: match result {
                    Ok(_) => Ok(()),
                    Err(e) => Err(e@),
                },
            },
        }
    }
}

/// One action under way.
pub struct EngineRun {
    pub job: EngineJob,
    /// The canonical store; for a Set or Unset, with the change.
    pub store: PhpIniSettings,
    pub default_php: String,
    pub ids: Vec<PhpTargetIdentity>,
    pub targets: Vec<PhpTarget>,
    /// Channel directories that could not be created.
    pub failures: Vec<FileOutcome>,
    pub files: Vec<FileOutcome>,
    pub states: Vec<(String, FileState)>,
    pub rows: Vec<PhpTargetRow>,
    pub probes: Vec<LaunchProbe>,
    pub stage: EngineStage,
}

/// What a run holds.
#[verifier::ext_equal]
pub struct EngineView {
    pub job: EngineJobView,
    pub store: IniStore,
    pub default_php: Seq<char>,
    pub ids: Seq<IdentityView>,
    pub targets: Seq<TargetView>,
    pub failures: Seq<FileView>,
    pub files: Seq<FileView>,
    pub states: Seq<(Seq<char>, FileStateView)>,
    pub rows: Seq<RowView>,
    pub probes: Seq<LaunchProbeView>,
    pub stage: EngineStageView,
}

impl View for EngineRun {
    type V = EngineView;

    open spec fn view(&self) -> EngineView {
        EngineView {
            job: self.job@,
            store: self.store@,
            default_php: self.default_php@,
            ids: identities(self.ids@),
            targets: target_views(self.targets@),
            failures: file_views(self.failures@),
            files: file_views(self.files@),
            states: states_view(self.states@),
            rows: row_views(self.rows@),
            probes: probe_views(self.probes@),
            stage: self.stage@,
        }
    }
}

/// Every launch probe is one of a target at hand.
pub open spec fn probes_fit(probes: Seq<LaunchProbeView>, targets: Seq<TargetView>) -> bool {
    forall|i: int|
        0 <= i < probes.len() ==> match #[trigger] probes[i] {
            LaunchProbeView::Cli { target, normal } => 0 <= target < targets.len(),
            _ => true,
        }
}

impl EngineRun {
    pub open spec fn wf(&self) -> bool {
        &&& self.store.wf()
        &&& probes_fit(self@.probes, self@.targets)
        &&& match self.stage {
            EngineStage::Saving { prior } => prior.wf(),
            _ => true,
        }
    }
}

/// What the machine looks like at one step of a run.
pub struct World {
    pub disk: Snapshot,
    pub fpm: FpmFacts,
    /// The manifest of the channel files; an empty one where it cannot be
    /// read.
    pub manifest: Manifest,
}

impl World {
    pub open spec fn wf(&self) -> bool {
        self.disk.wf()
    }
}

/// What a run was told.
pub enum EngineReply {
    /// Whether saving, guarding, recovering or creating went through.
    Did(Result<(), String>),
    Migrated(Result<PhpIniSettings, String>),
    Probed(ProbeInfo),
    Reconciled(ReconcileReport),
    Materialized(MaterializeReport),
    /// What a launch probe reported.
    Observed(Option<String>),
    Removed(Result<Vec<FileAction>, String>),
}

pub enum EngineReplyView {
    Did(Result<(), Seq<char>>),
    Migrated(Result<IniStore, Seq<char>>),
    Probed(ProbeView),
    Reconciled(Seq<ActionView>),
    Materialized(MaterializeView),
    Observed(Option<Seq<char>>),
    Removed(Result<Seq<ActionView>, Seq<char>>),
}

impl View for EngineReply {
    type V = EngineReplyView;

    open spec fn view(&self) -> EngineReplyView {
        match self {
            EngineReply::Did(r) => EngineReplyView::Did(
                match r {
                    Ok(_) => Ok(()),
                    Err(e) => Err(e@),
                },
            ),
            EngineReply::Migrated(r) => EngineReplyView::Migrated(
                match r {
                    Ok(s) => Ok(s@),
                    Err(e) => Err(e@),
                },
            ),
            EngineReply::Probed(p) => EngineReplyView::Probed(p@),
            EngineReply::Reconciled(r) => EngineReplyView::Reconciled(actions_of(r.files@)),
            EngineReply::Materialized(r) => EngineReplyView::Materialized(r@),
            EngineReply::Observed(v) => EngineReplyView::Observed(opt_text(*v)),
            EngineReply::Removed(r) => EngineReplyView::Removed(
                match r {
                    Ok(a) => Ok(actions_of(a@)),
                    Err(e) => Err(e@),
                },
            ),
        }
    }
}

impl EngineReply {
    pub open spec fn wf(&self) -> bool {
        match self {
            EngineReply::Migrated(Ok(s)) => s.wf(),
            _ => true,
        }
    }
}

// ---- what a run does ----
pub open spec fn at_stage(v: EngineView, stage: EngineStageView) -> EngineView {
    EngineView { stage, ..v }
}

pub open spec fn failed_with(v: EngineView, error: Seq<char>) -> EngineView {
    at_stage(v, EngineStageView::Done { result: Err(error) })
}

pub open spec fn reported(v: EngineView) -> EngineView {
    at_stage(v, EngineStageView::Done { result: Ok(()) })
}

/// The report of a run that is over. `persisted` is there only for a Set or
/// Unset; only a Status echoes its key and token.
pub open spec fn report_of(v: EngineView) -> Result<ConfigOutcomeView, Seq<char>> {
    match v.stage {
        EngineStageView::Done { result: Err(e) } => Err(e),
        _ => Ok(
            ConfigOutcomeView {
                persisted: if v.job is Mutate {
                    Some(true)
                } else {
                    None
                },
                rows: v.rows,
                files: v.files,
                fpm: FpmOutcomeView::NotAttempted,
                status_key: match v.job {
                    EngineJobView::Observe { key, echo, token } if echo => key,
                    _ => None,
                },
                status_token: match v.job {
                    EngineJobView::Observe { key, echo, token } if echo => token,
                    _ => None,
                },
            },
        ),
    }
}

/// From the launch probe at a position on.
pub open spec fn observing(v: EngineView, at: int) -> EngineView {
    if at < v.probes.len() {
        at_stage(v, EngineStageView::Observing { at })
    } else {
        reported(v)
    }
}

/// The rows are built; for a key, the launch probes follow.
pub open spec fn rowed(v: EngineView, w: World) -> EngineView {
    let key = job_key(v.job);
    observing(
        EngineView {
            rows: all_rows(
                v.store,
                v.default_php,
                v.targets,
                key,
                v.states,
                w.fpm,
                w.manifest@,
            ),
            probes: match key {
                Some(k) => planned(k, v.targets, w.fpm),
                None => Seq::empty(),
            },
            ..v
        },
        0,
    )
}

/// All targets are known: a mutating run reconciles, a reading one never
/// writes and reports by the manifest, as far as the disk bears it out.
pub open spec fn targeted(v: EngineView, w: World) -> EngineView {
    if v.job is Observe {
        rowed(
            EngineView {
                states: confirmed_states(
                    w.manifest@,
                    w.disk@,
                    expected_states(v.store, v.targets, v.targets.len() as int, w.manifest@),
                ),
                ..v
            },
            w,
        )
    } else {
        at_stage(v, EngineStageView::Reconciling)
    }
}

/// From the binary at a position on: those that may not be executed are
/// classified at once.
pub open spec fn probing(v: EngineView, at: int, roots: RootsView, w: World) -> EngineView
    decreases v.ids.len() - at,
{
    if at < 0 || at >= v.ids.len() {
        targeted(v, w)
    } else if probeable(v.ids[at], roots, w.disk@) {
        at_stage(v, EngineStageView::Probing { at })
    } else {
        probing(
            EngineView {
                targets: v.targets.push(
                    target_of(v.ids[at], unprobed(), roots, w.disk@),
                ),
                ..v
            },
            at + 1,
            roots,
            w,
        )
    }
}

/// From the missing channel directory at a position on.
pub open spec fn creating(
    v: EngineView,
    dirs: Seq<Seq<char>>,
    at: int,
    roots: RootsView,
    w: World,
) -> EngineView {
    if at < dirs.len() {
        at_stage(v, EngineStageView::Creating { dirs, at })
    } else {
        probing(v, 0, roots, w)
    }
}

/// The store is settled: discover the binaries; a reading run creates nothing.
pub open spec fn settled(v: EngineView, roots: RootsView, w: World) -> EngineView {
    let ids = discoveries(30, roots.hearth, roots.herd, roots.homebrew, w.disk@);
    let found = EngineView { ids, targets: Seq::empty(), probes: Seq::empty(), ..v };
    if v.job is Observe {
        probing(found, 0, roots, w)
    } else {
        creating(
            found,
            missing_channels(ids, ids.len() as int, v.store, roots.hearth, w.disk@),
            0,
            roots,
            w,
        )
    }
}

/// What becomes of a run when its channels are reconciled.
pub open spec fn reconciled(v: EngineView, actions: Seq<ActionView>, w: World) -> EngineView {
    let u = EngineView {
        states: with_failures(reported_states(actions), v.failures),
        files: wired_files(actions) + v.failures,
        ..v
    };
    match v.job {
        EngineJobView::Sync { fpm } if fpm => at_stage(u, EngineStageView::Materializing),
        _ => rowed(u, w),
    }
}

/// The two artifacts of FPM; those of a user-managed configuration are not
/// reported.
pub open spec fn fpm_files(config_dir: Seq<char>, m: MaterializeView) -> Seq<FileView> {
    if m.state is UserManaged {
        Seq::empty()
    } else {
        seq![
            FileView { path: fpm::conf_of(config_dir), result: wired(m.conf) },
            FileView { path: fpm::probe_of(config_dir), result: wired(m.probe) },
        ]
    }
}

/// One step of a run. A reply that the stage does not wait for changes
/// nothing.
pub open spec fn engine_next(
    v: EngineView,
    reply: EngineReplyView,
    h: EngineHost,
    w: World,
) -> EngineView {
    match (v.stage, reply) {
        (EngineStageView::Saving { prior }, EngineReplyView::Did(r)) => match r {
            Ok(_) => settled(v, h.roots, w),
            Err(e) => failed_with(
                EngineView { store: prior, ..v },
                "failed to persist config: "@ + e,
            ),
        },
        (EngineStageView::Guarding, EngineReplyView::Did(r)) => match r {
            Ok(_) => at_stage(v, EngineStageView::RecoveringIni),
            Err(e) => failed_with(v, "manifest directory guard failed: "@ + e),
        },
        (EngineStageView::RecoveringIni, EngineReplyView::Did(r)) => match r {
            Ok(_) => match v.job {
                EngineJobView::Sync { fpm } if fpm => at_stage(v, EngineStageView::RecoveringFpm),
                _ => at_stage(v, EngineStageView::Migrating),
            },
            Err(e) => failed_with(v, "journal recovery failed: "@ + e),
        },
        (EngineStageView::RecoveringFpm, EngineReplyView::Did(r)) => match r {
            Ok(_) => at_stage(v, EngineStageView::Migrating),
            Err(e) => failed_with(v, "FPM journal recovery failed: "@ + e),
        },
        (EngineStageView::Migrating, EngineReplyView::Migrated(r)) => match r {
            Ok(store) => settled(EngineView { store, ..v }, h.roots, w),
            Err(e) => failed_with(v, "legacy INI migration failed: "@ + e),
        },
        (EngineStageView::Creating { dirs, at }, EngineReplyView::Did(r)) if 0 <= at < dirs.len() =>
            creating(
                match r {
                    Ok(_) => v,
                    Err(e) => EngineView {
                        failures: v.failures.push(refused_channel(dirs[at], e)),
                        ..v
                    },
                },
                dirs,
                at + 1,
                h.roots,
                w,
            ),
        (EngineStageView::Probing { at }, EngineReplyView::Probed(info)) if 0 <= at < v.ids.len() =>
            probing(
                EngineView {
                    targets: v.targets.push(target_of(v.ids[at], info, h.roots, w.disk@)),
                    ..v
                },
                at + 1,
                h.roots,
                w,
            ),
        (EngineStageView::Reconciling, EngineReplyView::Reconciled(actions)) => reconciled(
            v,
            actions,
            w,
        ),
        (EngineStageView::Materializing, EngineReplyView::Materialized(m)) => rowed(
            EngineView { files: v.files + fpm_files(h.config_dir, m), ..v },
            w,
        ),
        (EngineStageView::Observing { at }, EngineReplyView::Observed(value)) if 0 <= at
            < v.probes.len() => observing(
            EngineView { rows: noted(v.rows, v.probes[at], v.targets, value), ..v },
            at + 1,
        ),
        (EngineStageView::RemovingIni, EngineReplyView::Removed(r)) => match r {
            Ok(actions) => at_stage(
                EngineView { files: wired_files(actions), ..v },
                EngineStageView::RemovingFpm,
            ),
            Err(e) => failed_with(v, e),
        },
        (EngineStageView::RemovingFpm, EngineReplyView::Removed(r)) => match r {
            Ok(actions) => reported(EngineView { files: v.files + wired_files(actions), ..v }),
            Err(e) => failed_with(v, e),
        },
        _ => v,
    }
}

/// A run before its first stage.
pub open spec fn blank(
    job: EngineJobView,
    store: IniStore,
    default_php: Seq<char>,
    stage: EngineStageView,
) -> EngineView {
    EngineView {
        job,
        store,
        default_php,
        ids: Seq::empty(),
        targets: Seq::empty(),
        failures: Seq::empty(),
        files: Seq::empty(),
        states: Seq::empty(),
        rows: Seq::empty(),
        probes: Seq::empty(),
        stage,
    }
}

pub open spec fn key_refusal(key: Option<Seq<char>>) -> Option<Seq<char>> {
    match key {
        Some(k) => match key_fault(k) {
            Some(f) => Some(fault_said(f)),
            None => None,
        },
        None => None,
    }
}

pub open spec fn mutation_begin(
    scope: ScopeView,
    key: Seq<char>,
    value: Option<Seq<char>>,
    store: IniStore,
    default_php: Seq<char>,
) -> EngineView {
    let job = EngineJobView::Mutate { key };
    match mutation_refusal(scope, key, value) {
        Some(e) => blank(job, store, default_php, EngineStageView::Done { result: Err(e) }),
        None => blank(
            job,
            mutated(store, scope_version(scope, default_php), key, value),
            default_php,
            EngineStageView::Saving { prior: store },
        ),
    }
}

pub open spec fn observation_begin(
    key: Option<Seq<char>>,
    echo: bool,
    token: Option<Seq<char>>,
    store: IniStore,
    default_php: Seq<char>,
    roots: RootsView,
    w: World,
) -> EngineView {
    let job = EngineJobView::Observe { key, echo, token };
    match key_refusal(key) {
        Some(e) => blank(job, store, default_php, EngineStageView::Done { result: Err(e) }),
        None => settled(blank(job, store, default_php, EngineStageView::Reconciling), roots, w),
    }
}

/// How an action starts.
pub open spec fn engine_begin(
    action: ConfigActionView,
    store: IniStore,
    default_php: Seq<char>,
    roots: RootsView,
    w: World,
) -> EngineView {
    match action {
        ConfigActionView::SetValue { scope, key, value } => mutation_begin(
            scope,
            key,
            Some(value),
            store,
            default_php,
        ),
        ConfigActionView::Unset { scope, key } => mutation_begin(
            scope,
            key,
            None,
            store,
            default_php,
        ),
        ConfigActionView::Show { key } => observation_begin(
            key,
            false,
            None,
            store,
            default_php,
            roots,
            w,
        ),
        ConfigActionView::Status { key, token } => observation_begin(
            key,
            true,
            token,
            store,
            default_php,
            roots,
            w,
        ),
        ConfigActionView::Sync => blank(
            EngineJobView::Sync { fpm: true },
            store,
            default_php,
            EngineStageView::Guarding,
        ),
        ConfigActionView::Unmanage => blank(
            EngineJobView::Unmanage,
            store,
            default_php,
            EngineStageView::RemovingIni,
        ),
    }
}

// ---- running ----
fn push_target(targets: &mut Vec<PhpTarget>, t: PhpTarget)
    ensures
        target_views(final(targets)@) == target_views(old(targets)@).push(t@),
{
    targets.push(t);
    proof {
        assert(target_views(targets@) =~= target_views(old(targets)@).push(t@));
    }
}

fn push_file(files: &mut Vec<FileOutcome>, f: FileOutcome)
    ensures
        file_views(final(files)@) == file_views(old(files)@).push(f@),
{
    files.push(f);
    proof {
        assert(file_views(files@) =~= file_views(old(files)@).push(f@));
    }
}

fn copy_file(f: &FileOutcome) -> (r: FileOutcome)
    ensures
        r@ == f@,
{
    FileOutcome {
        path: f.path.clone(),
        result: match &f.result {
            FileWriteResult::Written => FileWriteResult::Written,
            FileWriteResult::Unchanged => FileWriteResult::Unchanged,
            FileWriteResult::Deleted => FileWriteResult::Deleted,
            FileWriteResult::Refused { reason } =>
                FileWriteResult::Refused { reason: reason.clone() },
            FileWriteResult::Failed { error } =>
                FileWriteResult::Failed { error: error.clone() },
        },
    }
}

fn push_files(files: &mut Vec<FileOutcome>, more: &Vec<FileOutcome>)
    ensures
        file_views(final(files)@) == file_views(old(files)@) + file_views(more@),
{
    let ghost all = file_views(more@);
    let mut i: usize = 0;
    proof {
        assert(file_views(files@) =~= file_views(old(files)@) + all.take(0));
    }
    while i < more.len()
        invariant
            i <= more.len(),
            all == file_views(more@),
            file_views(files@) == file_views(old(files)@) + all.take(i as int),
        decreases more.len() - i,
    {
        let f: FileOutcome = copy_file(&more[i]);
        push_file(files, f);
        proof {
            assert(all.take(i + 1) =~= all.take(i as int).push(f@));
            assert(file_views(files@) =~= file_views(old(files)@) + all.take(i + 1));
        }
        i = i + 1;
    }
    proof {
        assert(all.take(i as int) =~= all);
    }
}

impl EngineRun {
    fn blank(job: EngineJob, store: PhpIniSettings, default_php: &str, stage: EngineStage) -> (r:
        Self)
        requires
            store.wf(),
            match stage {
                EngineStage::Saving { prior } => prior.wf(),
                _ => true,
            },
        ensures
            r.wf(),
            r@ == blank(job@, store@, default_php@, stage@),
    {
        let r = EngineRun {
            job,
            store,
            default_php: default_php.to_owned(),
            ids: Vec::new(),
            targets: Vec::new(),
            failures: Vec::new(),
            files: Vec::new(),
            states: Vec::new(),
            rows: Vec::new(),
            probes: Vec::new(),
            stage,
        };
        proof {
            assert(r@ =~= blank(job@, store@, default_php@, stage@));
        }
        r
    }

    pub fn is_done(&self) -> (r: bool)
        ensures
            r == (self@.stage is Done),
    {
        match &self.stage {
            EngineStage::Done { result: _ } => true,
            _ => false,
        }
    }

    fn fail(&mut self, what: &str, error: &str)
        requires
            old(self).wf(),
        ensures
            final(self).wf(),
            final(self)@ == failed_with(old(self)@, what@ + error@),
    {
        self.stage = EngineStage::Done { result: Err(text::cat2(what, error)) };
    }

    fn observing(&mut self, at: usize)
        requires
            old(self).wf(),
        ensures
            final(self).wf(),
            final(self)@ == observing(old(self)@, at as int),
    {
        if at < self.probes.len() {
            self.stage = EngineStage::Observing { at };
        } else {
            self.stage = EngineStage::Done { result: Ok(()) };
        }
    }

    fn rowed(&mut self, w: &World)
        requires
            old(self).wf(),
            w.wf(),
        ensures
            final(self).wf(),
            final(self)@ == rowed(old(self)@, *w),
    {
        let key: Option<&str> = match &self.job {
            EngineJob::Mutate { key } => Some(key.as_str()),
            EngineJob::Observe { key, echo: _, token: _ } => match key {
                Some(k) => Some(k.as_str()),
                None => None,
            },
            _ => None,
        };
        let ghost v = self@;
        assert(opt_str(key) == job_key(v.job));
        let built: Vec<PhpTargetRow> = build_rows(
            &self.store,
            self.default_php.as_str(),
            &self.targets,
            key,
            &self.states,
            &w.fpm,
            &w.manifest,
        );
        let probes: Vec<LaunchProbe> = match key {
            Some(k) => plan_launch_probes(k, &self.targets, &w.fpm),
            None => Vec::new(),
        };
        proof {
            match job_key(v.job) {
                Some(k) => {
                    assert forall|i: int| 0 <= i < probe_views(probes@).len() implies match (
                    #[trigger] probe_views(probes@)[i]) {
                        LaunchProbeView::Cli { target, normal } => 0 <= target < v.targets.len(),
                        _ => true,
                    } by {
                        rows::only_verified_binaries_are_probed(k, v.targets, w.fpm, i);
                    }
                },
                None => {
                    assert(probe_views(probes@) =~= Seq::empty());
                },
            }
        }
        self.rows = built;
        self.probes = probes;
        self.observing(0);
    }

    fn targeted(&mut self, w: &World)
        requires
            old(self).wf(),
            w.wf(),
        ensures
            final(self).wf(),
            final(self)@ == targeted(old(self)@, *w),
    {
        let reading: bool = match &self.job {
            EngineJob::Observe { key: _, echo: _, token: _ } => true,
            _ => false,
        };
        if reading {
            let by_manifest = file_states_from_manifest(&self.store, &self.targets, &w.manifest);
            self.states = confirm_states(by_manifest, &w.manifest, &w.disk);
            self.rowed(w);
        } else {
            self.stage = EngineStage::Reconciling;
        }
    }

    fn probing(&mut self, from: usize, roots: &ProviderRoots, w: &World)
        requires
            old(self).wf(),
            w.wf(),
        ensures
            final(self).wf(),
            final(self)@ == probing(old(self)@, from as int, roots@, *w),
    {
        let mut at: usize = from;
        let ghost goal = probing(self@, from as int, roots@, *w);
        while at < self.ids.len()
            invariant
                self.wf(),
                w.wf(),
                goal == probing(old(self)@, from as int, roots@, *w),
                goal == probing(self@, at as int, roots@, *w),
            decreases self.ids.len() - at,
        {
            let ghost before = self@;
            assert(before.ids[at as int] == self.ids@[at as int]@);
            if may_probe(&self.ids[at], roots, &w.disk) {
                self.stage = EngineStage::Probing { at };
                return;
            }
            let id: PhpTargetIdentity = self.ids[at].dup();
            let t: PhpTarget = build_target(id, ProbeInfo::default(), roots, &w.disk);
            push_target(&mut self.targets, t);
            proof {
                assert(self@ =~= (EngineView {
                    targets: before.targets.push(
                        target_of(before.ids[at as int], unprobed(), roots@, w.disk@),
                    ),
                    ..before
                }));
                assert(probes_fit(self@.probes, self@.targets));
            }
            at = at + 1;
        }
        self.targeted(w);
    }

    fn creating(&mut self, dirs: Vec<String>, at: usize, roots: &ProviderRoots, w: &World)
        requires
            old(self).wf(),
            w.wf(),
        ensures
            final(self).wf(),
            final(self)@ == creating(old(self)@, text::texts(dirs@), at as int, roots@, *w),
    {
        if at < dirs.len() {
            self.stage = EngineStage::Creating { dirs, at };
        } else {
            self.probing(0, roots, w);
        }
    }

    fn settled(&mut self, roots: &ProviderRoots, w: &World)
        requires
            old(self).wf(),
            w.wf(),
        ensures
            final(self).wf(),
            final(self)@ == settled(old(self)@, roots@, *w),
    {
        self.ids = discover_provider_targets(roots, &w.disk);
        self.targets = Vec::new();
        self.probes = Vec::new();
        proof {
            assert(target_views(self.targets@) =~= Seq::empty());
            assert(probe_views(self.probes@) =~= Seq::empty());
        }
        let reading: bool = match &self.job {
            EngineJob::Observe { key: _, echo: _, token: _ } => true,
            _ => false,
        };
        if reading {
            self.probing(0, roots, w);
        } else {
            let dirs: Vec<String> = missing_hearth_channels(
                &self.ids,
                &self.store,
                roots,
                &w.disk,
            );
            self.creating(dirs, 0, roots, w);
        }
    }
}

impl EngineRun {
    fn reconciled(&mut self, report: ReconcileReport, w: &World)
        requires
            old(self).wf(),
            w.wf(),
        ensures
            final(self).wf(),
            final(self)@ == reconciled(old(self)@, actions_of(report.files@), *w),
    {
        let mut states: Vec<(String, FileState)> = file_states_from_report(&report);
        block_failed(&mut states, &self.failures);
        let mut files: Vec<FileOutcome> = wire_files(&report.files);
        push_files(&mut files, &self.failures);
        self.states = states;
        self.files = files;
        let materialize: bool = match &self.job {
            EngineJob::Sync { fpm } => *fpm,
            _ => false,
        };
        if materialize {
            self.stage = EngineStage::Materializing;
        } else {
            self.rowed(w);
        }
    }

    fn materialized(&mut self, config_dir: &str, m: MaterializeReport, w: &World)
        requires
            old(self).wf(),
            w.wf(),
        ensures
            final(self).wf(),
            final(self)@ == rowed(
                EngineView {
                    files: old(self)@.files + fpm_files(config_dir@, m@),
                    ..old(self)@
                },
                *w,
            ),
    {
        let user: bool = match &m.state {
            FpmConfState::UserManaged { conf: _ } => true,
            _ => false,
        };
        let ghost before = self@.files;
        if !user {
            push_file(
                &mut self.files,
                FileOutcome { path: fpm::conf_path(config_dir), result: wire_result(&m.conf) },
            );
            push_file(
                &mut self.files,
                FileOutcome {
                    path: fpm::probe_script_path(config_dir),
                    result: wire_result(&m.probe),
                },
            );
        }
        proof {
            assert(self@.files =~= before + fpm_files(config_dir@, m@));
        }
        self.rowed(w);
    }

    /// One step of the run.
    #[verifier::rlimit(40)]
    pub fn step(self, engine: &PhpConfigEngine, reply: EngineReply, w: &World) -> (r: Self)
        requires
            self.wf(),
            reply.wf(),
            w.wf(),
        ensures
            r.wf(),
            r@ == engine_next(self@, reply@, engine@, *w),
    {
        let ghost v = self@;
        let EngineRun {
            job,
            store,
            default_php,
            ids,
            targets,
            failures,
            files,
            states,
            rows,
            probes,
            stage,
        } = self;
        let mut run = EngineRun {
            job,
            store,
            default_php,
            ids,
            targets,
            failures,
            files,
            states,
            rows,
            probes,
            stage: EngineStage::Guarding,
        };
        let roots: &ProviderRoots = &engine.provider_roots;
        match (stage, reply) {
            (EngineStage::Saving { prior }, EngineReply::Did(done)) => match done {
                Ok(_) => {
                    run.stage = EngineStage::Saving { prior };
                    run.settled(roots, w);
                },
                Err(e) => {
                    run.store = prior;
                    run.fail("failed to persist config: ", e.as_str());
                },
            },
            (EngineStage::Guarding, EngineReply::Did(done)) => match done {
                Ok(_) => {
                    run.stage = EngineStage::RecoveringIni;
                },
                Err(e) => {
                    run.fail("manifest directory guard failed: ", e.as_str());
                },
            },
            (EngineStage::RecoveringIni, EngineReply::Did(done)) => match done {
                Ok(_) => {
                    let fpm_too: bool = match &run.job {
                        EngineJob::Sync { fpm } => *fpm,
                        _ => false,
                    };
                    run.stage = if fpm_too {
                        EngineStage::RecoveringFpm
                    } else {
                        EngineStage::Migrating
                    };
                },
                Err(e) => {
                    run.fail("journal recovery failed: ", e.as_str());
                },
            },
            (EngineStage::RecoveringFpm, EngineReply::Did(done)) => match done {
                Ok(_) => {
                    run.stage = EngineStage::Migrating;
                },
                Err(e) => {
                    run.fail("FPM journal recovery failed: ", e.as_str());
                },
            },
            (EngineStage::Migrating, EngineReply::Migrated(done)) => match done {
                Ok(store) => {
                    run.store = store;
                    run.stage = EngineStage::Migrating;
                    run.settled(roots, w);
                },
                Err(e) => {
                    run.fail("legacy INI migration failed: ", e.as_str());
                },
            },
            (EngineStage::Creating { dirs, at }, EngineReply::Did(done)) if at < dirs.len() => {
                match done {
                    Ok(_) => {},
                    Err(e) => {
                        let f: FileOutcome = creation_failure(dirs[at].as_str(), e.as_str());
                        push_file(&mut run.failures, f);
                    },
                }
                proof {
                    assert(text::texts(dirs@)[at as int] == dirs@[at as int]@);
                }
                proof {
                    stage_is_replaced(
                        v,
                        run@.failures,
                        EngineStageView::Guarding,
                        text::texts(dirs@),
                        at + 1,
                        roots@,
                        *w,
                    );
                }
                run.creating(dirs, at + 1, roots, w);
            },
            (EngineStage::Probing { at }, EngineReply::Probed(info)) if at < run.ids.len() => {
                let id: PhpTargetIdentity = run.ids[at].dup();
                assert(run@.ids[at as int] == run.ids@[at as int]@);
                let t: PhpTarget = build_target(id, info, roots, &w.disk);
                push_target(&mut run.targets, t);
                run.probing(at + 1, roots, w);
                proof {
                    probing_replaces_stage(
                        EngineView { targets: v.targets.push(t@), ..v },
                        EngineStageView::Guarding,
                        at + 1,
                        roots@,
                        *w,
                    );
                }
            },
            (EngineStage::Reconciling, EngineReply::Reconciled(report)) => {
                run.reconciled(report, w);
            },
            (EngineStage::Materializing, EngineReply::Materialized(m)) => {
                run.materialized(engine.config_dir.as_str(), m, w);
            },
            (EngineStage::Observing { at }, EngineReply::Observed(value)) if at
                < run.probes.len() => {
                assert(run@.probes[at as int] == run.probes@[at as int]@);
                note_launch_probe(&mut run.rows, &run.probes[at], &run.targets, value);
                run.observing(at + 1);
            },
            (EngineStage::RemovingIni, EngineReply::Removed(done)) => match done {
                Ok(actions) => {
                    run.files = wire_files(&actions);
                    run.stage = EngineStage::RemovingFpm;
                },
                Err(e) => {
                    run.stage = EngineStage::Done { result: Err(e) };
                },
            },
            (EngineStage::RemovingFpm, EngineReply::Removed(done)) => match done {
                Ok(actions) => {
                    let more: Vec<FileOutcome> = wire_files(&actions);
                    push_files(&mut run.files, &more);
                    run.stage = EngineStage::Done { result: Ok(()) };
                },
                Err(e) => {
                    run.stage = EngineStage::Done { result: Err(e) };
                },
            },
            (stage, _) => {
                run.stage = stage;
            },
        }
        run
    }
}

/// The stage before a run goes on probing is not looked at.
proof fn probing_replaces_stage(
    v: EngineView,
    stage: EngineStageView,
    at: int,
    roots: RootsView,
    w: World,
)
    ensures
        probing(at_stage(v, stage), at, roots, w) == probing(v, at, roots, w),
    decreases v.ids.len() - at,
{
    if 0 <= at < v.ids.len() && !probeable(v.ids[at], roots, w.disk@) {
        let t = v.targets.push(target_of(v.ids[at], unprobed(), roots, w.disk@));
        probing_replaces_stage(EngineView { targets: t, ..v }, stage, at + 1, roots, w);
    }
}

proof fn stage_is_replaced(
    v: EngineView,
    failures: Seq<FileView>,
    stage: EngineStageView,
    dirs: Seq<Seq<char>>,
    at: int,
    roots: RootsView,
    w: World,
)
    ensures
        creating(EngineView { failures, stage, ..v }, dirs, at, roots, w) == creating(
            EngineView { failures, ..v },
            dirs,
            at,
            roots,
            w,
        ),
{
    probing_replaces_stage(EngineView { failures, ..v }, stage, 0, roots, w);
}

impl EngineRun {
    /// The report of the run. `fpm` in it is always `NotAttempted`; the caller
    /// that owns the supervisor decides on a restart.
    pub fn into_outcome(self) -> (r: Result<PhpConfigOutcome, String>)
        requires
            self@.stage is Done,
        ensures
            outcome_view(r) == report_of(self@),
    {
        let EngineRun {
            job,
            store: _,
            default_php: _,
            ids: _,
            targets: _,
            failures: _,
            files,
            states: _,
            rows,
            probes: _,
            stage,
        } = self;
        match stage {
            EngineStage::Done { result } => match result {
                Err(e) => {
                    return Err(e);
                },
                Ok(_) => {},
            },
            _ => {},
        }
        let persisted: Option<bool> = match &job {
            EngineJob::Mutate { key: _ } => Some(true),
            _ => None,
        };
        let (status_key, status_token): (Option<String>, Option<String>) = match job {
            EngineJob::Observe { key, echo, token } => if echo {
                (key, token)
            } else {
                (None, None)
            },
            _ => (None, None),
        };
        Ok(
            PhpConfigOutcome {
                persisted,
                rows,
                files,
                fpm: FpmRestartOutcome::NotAttempted,
                status_key,
                status_token,
            },
        )
    }
}

impl PhpConfigEngine {
    fn begin_mutation(
        scope: PhpScope,
        key: String,
        value: Option<String>,
        store: PhpIniSettings,
        default_php: &str,
    ) -> (r: EngineRun)
        requires
            store.wf(),
        ensures
            r.wf(),
            r@ == mutation_begin(scope@, key@, opt_text(value), store@, default_php@),
    {
        let v: Option<&str> = match &value {
            Some(s) => Some(s.as_str()),
            None => None,
        };
        assert(opt_str(v) == opt_text(value));
        match refuse_mutation(&scope, key.as_str(), v) {
            Some(e) => EngineRun::blank(
                EngineJob::Mutate { key },
                store,
                default_php,
                EngineStage::Done { result: Err(e) },
            ),
            None => {
                let mut next: PhpIniSettings = store.dup();
                mutate_store(&mut next, &scope, default_php, key.as_str(), v);
                EngineRun::blank(
                    EngineJob::Mutate { key },
                    next,
                    default_php,
                    EngineStage::Saving { prior: store },
                )
            },
        }
    }

    fn begin_observation(
        &self,
        key: Option<String>,
        echo: bool,
        token: Option<String>,
        store: PhpIniSettings,
        default_php: &str,
        w: &World,
    ) -> (r: EngineRun)
        requires
            store.wf(),
            w.wf(),
        ensures
            r.wf(),
            r@ == observation_begin(
                opt_text(key),
                echo,
                opt_text(token),
                store@,
                default_php@,
                self@.roots,
                *w,
            ),
    {
        let refusal: Option<String> = match &key {
            Some(k) => refuse_key(k.as_str()),
            None => None,
        };
        let job = EngineJob::Observe { key, echo, token };
        match refusal {
            Some(e) => EngineRun::blank(
                job,
                store,
                default_php,
                EngineStage::Done { result: Err(e) },
            ),
            None => {
                let mut run = EngineRun::blank(job, store, default_php, EngineStage::Reconciling);
                run.settled(&self.provider_roots, w);
                run
            },
        }
    }

    /// Start one typed action, on the store and the default version that the
    /// configuration holds. A Show or Status with an invalid key is a stable
    /// actionable error, never a silent valueless report.
    pub fn apply(
        &self,
        action: PhpConfigAction,
        store: PhpIniSettings,
        default_php: &str,
        w: &World,
    ) -> (r: EngineRun)
        requires
            store.wf(),
            w.wf(),
        ensures
            r.wf(),
            r@ == engine_begin(action@, store@, default_php@, self@.roots, *w),
    {
        match action {
            PhpConfigAction::SetValue { scope, key, value } => PhpConfigEngine::begin_mutation(
                scope,
                key,
                Some(value),
                store,
                default_php,
            ),
            PhpConfigAction::Unset { scope, key } => PhpConfigEngine::begin_mutation(
                scope,
                key,
                None,
                store,
                default_php,
            ),
            PhpConfigAction::Show { key } => self.begin_observation(
                key,
                false,
                None,
                store,
                default_php,
                w,
            ),
            PhpConfigAction::Status { key, token } => self.begin_observation(
                key,
                true,
                token,
                store,
                default_php,
                w,
            ),
            PhpConfigAction::Sync => self.boot_sync(store, default_php),
            PhpConfigAction::Unmanage => EngineRun::blank(
                EngineJob::Unmanage,
                store,
                default_php,
                EngineStage::RemovingIni,
            ),
        }
    }

    /// Daemon-boot hook: journal recovery + guarded legacy migration +
    /// reconcile, before `default_services` builds the supervisor.
    pub fn boot_sync(&self, store: PhpIniSettings, default_php: &str) -> (r: EngineRun)
        requires
            store.wf(),
        ensures
            r.wf(),
            r@ == blank(
                EngineJobView::Sync { fpm: true },
                store@,
                default_php@,
                EngineStageView::Guarding,
            ),
    {
        EngineRun::blank(
            EngineJob::Sync { fpm: true },
            store,
            default_php,
            EngineStage::Guarding,
        )
    }

    /// The reconcile of a version switch, which leaves the static FPM
    /// artifacts alone.
    pub fn switch_sync(&self, store: PhpIniSettings, default_php: &str) -> (r: EngineRun)
        requires
            store.wf(),
        ensures
            r.wf(),
            r@ == blank(
                EngineJobView::Sync { fpm: false },
                store@,
                default_php@,
                EngineStageView::Guarding,
            ),
    {
        EngineRun::blank(
            EngineJob::Sync { fpm: false },
            store,
            default_php,
            EngineStage::Guarding,
        )
    }
}

// ---- hard failures ----
pub const HARD_FAILURE: &'static str =
    "php-config reconciliation hard failure — PHP launch/restart aborted (canonical config remains persisted): ";

pub open spec fn gated(r: Result<ConfigOutcomeView, Seq<char>>) -> Result<
    ConfigOutcomeView,
    Seq<char>,
> {
    match r {
        Err(e) => Err(e),
        Ok(o) => if hard_lines(o.files).len() == 0 {
            Ok(o)
        } else {
            Err(HARD_FAILURE@ + scan::glued(hard_lines(o.files), "; "@))
        },
    }
}

/// Central hard-failure gate. Converts an engine outcome into an error when
/// reconciliation hard-failed: outer errors pass through; hard-guarantee
/// target `Refused`/`Failed` outcomes become an `Err` carrying every path +
/// reason. Every PHP launch/restart hook MUST route its sync through this and
/// abort the launch on `Err`. The canonical config stays truthfully persisted
/// either way — only materialization failed.
pub fn require_reconciled(result: Result<PhpConfigOutcome, String>) -> (r: Result<
    PhpConfigOutcome,
    String,
>)
    ensures
        outcome_view(r) == gated(outcome_view(result)),
        r is Ok ==> r == result,
{
    match result {
        Err(e) => Err(e),
        Ok(outcome) => {
            let hard: Vec<String> = outcome.hard_failures();
            if hard.len() == 0 {
                Ok(outcome)
            } else {
                let all: String = scan::glue(&hard, "; ");
                Err(text::cat2(HARD_FAILURE, all.as_str()))
            }
        },
    }
}

/// A hard failure is never passed over: an outcome that passes holds no refused and no
/// failed file.
pub proof fn hard_failures_never_pass(o: ConfigOutcomeView, i: int)
    requires
        gated(Ok(o)) is Ok,
        0 <= i < o.files.len(),
    ensures
        !(o.files[i].result is Refused),
        !(o.files[i].result is Failed),
{
    no_hard_line(o.files, i);
}

proof fn no_hard_line(files: Seq<FileView>, i: int)
    requires
        hard_lines(files).len() == 0,
        0 <= i < files.len(),
    ensures
        !(files[i].result is Refused),
        !(files[i].result is Failed),
    decreases files.len(),
{
    if i < files.len() - 1 {
        no_hard_line(files.drop_last(), i);
    }
}

// ---- restart after a change ----
/// What is to be done about FPM after a config mutation.
#[derive(Debug)]
pub enum RestartChoice {
    /// Nothing; this is to be reported.
    Report(FpmRestartOutcome),
    /// The supervisor's atomic restart.
    Restart,
}

pub enum RestartChoiceView {
    Report(FpmOutcomeView),
    Restart,
}

impl View for RestartChoice {
    type V = RestartChoiceView;

    open spec fn view(&self) -> RestartChoiceView {
        match self {
            RestartChoice::Report(o) => RestartChoiceView::Report(o@),
            RestartChoice::Restart => RestartChoiceView::Restart,
        }
    }
}

pub open spec fn restart_choice(
    ownership: OwnershipView,
    registered: bool,
    conf: StateView,
) -> RestartChoiceView {
    match ownership {
        OwnershipView::Owned => RestartChoiceView::Report(
            if registered {
                FpmOutcomeView::SkippedHerdOwned
            } else {
                FpmOutcomeView::NotRegistered { herd_hint: true }
            },
        ),
        OwnershipView::Unknown(reason) => RestartChoiceView::Report(
            FpmOutcomeView::SkippedOwnershipUnknown { reason },
        ),
        OwnershipView::Unowned => if registered {
            RestartChoiceView::Restart
        } else {
            RestartChoiceView::Report(
                match conf {
                    StateView::Blocked { reason } => FpmOutcomeView::LaunchBlocked { reason },
                    _ => FpmOutcomeView::NotRegistered { herd_hint: false },
                },
            )
        },
    }
}

/// Restart the supervised php-fpm only when it is actually registered.
/// Unregistered/optional FPM is informational
/// (`NotRegistered`/`LaunchBlocked`), never a command failure.
///
/// This is THE centralized FPM-restart policy for every config mutation entry
/// point. The ownership check comes FIRST: under live Herd the FPM supervisor
/// state is left untouched, and unknown evidence fails CLOSED and says WHY.
pub fn restart_fpm_conditionally(
    ownership: &FpmOwnership,
    registered: bool,
    conf: &FpmConfState,
) -> (r: RestartChoice)
    ensures
        r@ == restart_choice(ownership@, registered, conf@),
{
    match ownership {
        FpmOwnership::Owned => RestartChoice::Report(
            if registered {
                FpmRestartOutcome::SkippedHerdOwned
            } else {
                FpmRestartOutcome::NotRegistered { herd_hint: true }
            },
        ),
        FpmOwnership::Unknown(diag) => RestartChoice::Report(
            FpmRestartOutcome::SkippedOwnershipUnknown { reason: diag.clone() },
        ),
        FpmOwnership::Unowned => {
            if registered {
                return RestartChoice::Restart;
            }
            match fpm_launch_blocked_reason(conf) {
                Some(reason) => RestartChoice::Report(FpmRestartOutcome::LaunchBlocked { reason }),
                None => RestartChoice::Report(FpmRestartOutcome::NotRegistered { herd_hint: false }),
            }
        },
    }
}

pub open spec fn restart_told(o: RestartOutcomeView) -> FpmOutcomeView {
    match o {
        RestartOutcomeView::Restarted => FpmOutcomeView::Restarted,
        RestartOutcomeView::SkippedOwned => FpmOutcomeView::SkippedHerdOwned,
        RestartOutcomeView::SkippedOwnershipUnknown(reason) =>
            FpmOutcomeView::SkippedOwnershipUnknown { reason },
        RestartOutcomeView::NotRegistered => FpmOutcomeView::NotRegistered { herd_hint: false },
        RestartOutcomeView::StopFailed { error } => FpmOutcomeView::Failed {
            message: "php-fpm stop failed: "@ + error,
        },
        RestartOutcomeView::StartFailed { error } => FpmOutcomeView::Failed {
            message: "php-fpm start failed: "@ + error,
        },
    }
}

/// What the supervisor's atomic restart came to, as it is reported; a
/// registered restart failure stays a hard `Failed`.
pub fn restart_report(o: FpmRestartTxOutcome) -> (r: FpmRestartOutcome)
    ensures
        r@ == restart_told(o@),
{
    match o {
        FpmRestartTxOutcome::Restarted => FpmRestartOutcome::Restarted,
        FpmRestartTxOutcome::SkippedOwned => FpmRestartOutcome::SkippedHerdOwned,
        FpmRestartTxOutcome::SkippedOwnershipUnknown(diag) =>
            FpmRestartOutcome::SkippedOwnershipUnknown { reason: diag },
        FpmRestartTxOutcome::NotRegistered => FpmRestartOutcome::NotRegistered { herd_hint: false },
        FpmRestartTxOutcome::StopFailed { error } => FpmRestartOutcome::Failed {
            message: text::cat2("php-fpm stop failed: ", error.as_str()),
        },
        FpmRestartTxOutcome::StartFailed { error } => FpmRestartOutcome::Failed {
            message: text::cat2("php-fpm start failed: ", error.as_str()),
        },
    }
}

// ---- version switch ----
/// What a version switch waits for.
#[derive(Debug)]
pub enum SwitchStage {
    /// The configuration is saved with the new default version.
    Saving,
    /// The channels are reconciled for it.
    Syncing,
    /// FPM is replaced.
    Replacing,
    Done { result: Result<String, String> },
}

pub enum SwitchView {
    Saving,
    Syncing,
    Replacing,
    Done { result: Result<Seq<char>, Seq<char>> },
}

impl View for SwitchStage {
    type V = SwitchView;

    open spec fn view(&self) -> SwitchView {
        match self {
            SwitchStage::Saving => SwitchView::Saving,
            SwitchStage::Syncing => SwitchView::Syncing,
            SwitchStage::Replacing => SwitchView::Replacing,
            SwitchStage::Done { result } => SwitchView::Done { result: fs::text_result(*result) },
        }
    }
}

/// What a switch was told.
#[derive(Debug)]
pub enum SwitchReply {
    Saved(Result<(), String>),
    Synced(Result<PhpConfigOutcome, String>),
    /// What became of FPM, and the state of its configuration.
    Replaced { outcome: FpmReplaceOutcome, conf: FpmConfState },
}

pub enum SwitchReplyView {
    Saved(Result<(), Seq<char>>),
    Synced(Result<ConfigOutcomeView, Seq<char>>),
    Replaced { outcome: ReplaceOutcomeView, conf: StateView },
}

impl View for SwitchReply {
    type V = SwitchReplyView;

    open spec fn view(&self) -> SwitchReplyView {
        match self {
            SwitchReply::Saved(r) => SwitchReplyView::Saved(
                match r {
                    Ok(_) => Ok(()),
                    Err(e) => Err(e@),
                },
            ),
            SwitchReply::Synced(r) => SwitchReplyView::Synced(outcome_view(*r)),
            SwitchReply::Replaced { outcome, conf } => SwitchReplyView::Replaced {
                outcome: outcome@,
                conf: conf@,
            },
        }
    }
}

/// How a switch starts: only to a plausible version of which there is a
/// binary.
pub open spec fn switch_begin(version: Seq<char>, cli: bool, fpm: bool) -> SwitchView {
    if !plausible(version) {
        SwitchView::Done { result: Err(version_refusal(version)) }
    } else if !cli && !fpm {
        SwitchView::Done {
            result: Err("PHP "@ + version + " is not installed (no CLI or FPM binary found)"@),
        }
    } else {
        SwitchView::Saving
    }
}

/// What mends a launch-blocked FPM: why its configuration is blocked, which says
/// what to run.
pub open spec fn remedy(reason: Seq<char>, conf: StateView) -> Seq<char> {
    match conf {
        StateView::Blocked { reason: blocked } if reason == MISSING_CONF@ => " ("@ + blocked + ")"@,
        _ => ""@,
    }
}

/// What is said of a switch by what became of FPM.
pub open spec fn switch_told(
    version: Seq<char>,
    o: ReplaceOutcomeView,
    conf: StateView,
) -> Result<Seq<char>, Seq<char>> {
    let switched = "Switched to PHP "@ + version;
    match o {
        ReplaceOutcomeView::Replaced => Ok(switched + "; php-fpm restarted"@),
        ReplaceOutcomeView::SkippedOwned => Ok(
            switched + "; php-fpm untouched (Herd manages PHP-FPM)"@,
        ),
        ReplaceOutcomeView::SkippedOwnershipUnknown(diag) => Ok(
            switched + "; php-fpm untouched (Herd ownership unknown: "@ + diag
                + " — FPM activation skipped fail-closed)"@,
        ),
        ReplaceOutcomeView::BuildFailed { reason, removed_stale } => Ok(
            switched + "; php-fpm not registered: "@ + reason + remedy(reason, conf) + if removed_stale {
                "; previous php-fpm registration removed"@
            } else {
                ""@
            },
        ),
        ReplaceOutcomeView::StopFailed { error } => Err(
            "switched to PHP "@ + version
                + " (persisted), but stopping the previous php-fpm failed: "@ + error
                + " — the previous php-fpm remains supervised for retry"@,
        ),
        ReplaceOutcomeView::StartFailed { error } => Err(
            "switched to PHP "@ + version + ", but php-fpm start failed: "@ + error,
        ),
    }
}

/// One step of a switch. A reply that the stage does not wait for changes
/// nothing.
pub open spec fn switch_next(
    version: Seq<char>,
    stage: SwitchView,
    reply: SwitchReplyView,
) -> SwitchView {
    match (stage, reply) {
        (SwitchView::Saving, SwitchReplyView::Saved(r)) => match r {
            Ok(_) => SwitchView::Syncing,
            Err(e) => SwitchView::Done { result: Err("failed to save config: "@ + e) },
        },
        (SwitchView::Syncing, SwitchReplyView::Synced(r)) => match gated(r) {
            Ok(_) => SwitchView::Replacing,
            Err(e) => SwitchView::Done {
                result: Err(
                    "switched default_php to "@ + version + " (persisted), but: "@ + e,
                ),
            },
        },
        (SwitchView::Replacing, SwitchReplyView::Replaced { outcome, conf }) => SwitchView::Done {
            result: switch_told(version, outcome, conf),
        },
        _ => stage,
    }
}

/// Shared PHP version switch used by BOTH the daemon socket handler and the
/// MCP tool: persists the default version, hard-gates the reconcile, then
/// REBUILDS the FPM service from scratch for the new version — binary, args,
/// and scan-dir env. `cli` and `fpm` say whether there is a binary of either
/// kind.
pub fn switch_php_version(version: &str, cli: bool, fpm: bool) -> (r: SwitchStage)
    ensures
        r@ == switch_begin(version@, cli, fpm),
{
    match validate_version(version) {
        Err(e) => {
            return SwitchStage::Done { result: Err(e) };
        },
        Ok(_) => {},
    }
    if !cli && !fpm {
        return SwitchStage::Done {
            result: Err(
                text::cat3(
                    "PHP ",
                    version,
                    " is not installed (no CLI or FPM binary found)",
                ),
            ),
        };
    }
    SwitchStage::Saving
}

fn remedy_text(reason: &str, conf: &FpmConfState) -> (r: String)
    ensures
        r@ == remedy(reason@, conf@),
{
    match conf {
        FpmConfState::Blocked { reason: blocked } => {
            if text::same(reason, MISSING_CONF) {
                return text::cat3(" (", blocked.as_str(), ")");
            }
        },
        _ => {},
    }
    "".to_owned()
}

fn switch_report(version: &str, o: FpmReplaceOutcome, conf: &FpmConfState) -> (r: Result<
    String,
    String,
>)
    ensures
        fs::text_result(r) == switch_told(version@, o@, conf@),
{
    let switched: String = text::cat2("Switched to PHP ", version);
    match o {
        FpmReplaceOutcome::Replaced => Ok(text::cat2(switched.as_str(), "; php-fpm restarted")),
        FpmReplaceOutcome::SkippedOwned => Ok(
            text::cat2(switched.as_str(), "; php-fpm untouched (Herd manages PHP-FPM)"),
        ),
        FpmReplaceOutcome::SkippedOwnershipUnknown(diag) => Ok(
            text::cat4(
                switched.as_str(),
                "; php-fpm untouched (Herd ownership unknown: ",
                diag.as_str(),
                " — FPM activation skipped fail-closed)",
            ),
        ),
        FpmReplaceOutcome::BuildFailed { reason, removed_stale } => {
            let note: &str = if removed_stale {
                "; previous php-fpm registration removed"
            } else {
                ""
            };
            let mend: String = remedy_text(reason.as_str(), conf);
            Ok(
                text::cat5(
                    switched.as_str(),
                    "; php-fpm not registered: ",
                    reason.as_str(),
                    mend.as_str(),
                    note,
                ),
            )
        },
        FpmReplaceOutcome::StopFailed { error } => Err(
            text::cat5(
                "switched to PHP ",
                version,
                " (persisted), but stopping the previous php-fpm failed: ",
                error.as_str(),
                " — the previous php-fpm remains supervised for retry",
            ),
        ),
        FpmReplaceOutcome::StartFailed { error } => Err(
            text::cat4(
                "switched to PHP ",
                version,
                ", but php-fpm start failed: ",
                error.as_str(),
            ),
        ),
    }
}

impl SwitchStage {
    /// One step of the switch to a version.
    pub fn step(self, version: &str, reply: SwitchReply) -> (r: Self)
        ensures
            r@ == switch_next(version@, self@, reply@),
    {
        match (self, reply) {
            (SwitchStage::Saving, SwitchReply::Saved(done)) => match done {
                Ok(_) => SwitchStage::Syncing,
                Err(e) => SwitchStage::Done {
                    result: Err(text::cat2("failed to save config: ", e.as_str())),
                },
            },
            (SwitchStage::Syncing, SwitchReply::Synced(done)) => match require_reconciled(done) {
                Ok(_) => SwitchStage::Replacing,
                Err(e) => SwitchStage::Done {
                    result: Err(
                        text::cat4(
                            "switched default_php to ",
                            version,
                            " (persisted), but: ",
                            e.as_str(),
                        ),
                    ),
                },
            },
            (SwitchStage::Replacing, SwitchReply::Replaced { outcome, conf }) => SwitchStage::Done {
                result: switch_report(version, outcome, &conf),
            },
            (stage, _) => stage,
        }
    }
}

} // verus!
