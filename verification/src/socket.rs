//! The messages between clients and the daemon.

use crate::path;
use crate::text;
use vstd::prelude::*;

verus! {

/// What a package recipe asked; the CLI collects the answers up-front.
#[derive(Debug, Clone, PartialEq, Eq)]
pub struct AddAnswers {
    pub telescope_enable_in_prod: Option<bool>,
}

/// Messages sent from CLI/GUI clients to the daemon over Unix socket.
#[derive(Debug)]
pub enum DaemonRequest {
    /// Start all services
    Start,
    /// Stop all services
    Stop,
    /// Restart all services (or a specific one)
    Restart { service: Option<String> },
    /// Get status of all services
    Status,
    /// Link a site (delegates to Valet)
    Link { path: String, name: Option<String> },
    /// Unlink a site
    Unlink { name: String },
    /// Park a directory
    Park { path: String },
    /// Switch PHP version
    PhpSwitch { version: String },
    /// List installed PHP versions
    PhpList,
    /// Set a PHP config value (legacy, retained for one release).
    ///
    /// Old CLIs keep working against a new daemon: the daemon maps this to
    /// [`PhpConfigAction::SetValue`] with `Version`/`Active` scope and answers with
    /// a legacy `Ok`/`Error` response. Removal: earliest release after next.
    PhpConfig { version: String, key: String, value: String },
    /// Typed php-config action (V2 protocol window).
    PhpConfigV2 { action: PhpConfigAction },
    /// Secure a site with SSL
    Secure { name: String },
    /// Unsecure a site
    Unsecure { name: String },
    /// List all sites
    Sites,
    /// Ping (health check)
    Ping,
    /// Start a DB engine (mysql, postgres, redis) or all DB engines when
    /// `engine` is None.
    DbStart { engine: Option<String> },
    /// Stop a DB engine, or all DB engines when `engine` is None.
    DbStop { engine: Option<String> },
    /// Report status of all DB engines (registered + not registered).
    DbStatus,
    /// Install a Laravel package via a recipe (horizon | telescope | pulse |
    /// reverb). CLI collected all prompt answers up-front; daemon never opens
    /// a TTY. `cwd` is the CLI's working directory at invocation time — daemon
    /// uses it for cwd-walk site auto-detect when `site_path` is empty.
    Add {
        package: String,
        site_path: String,
        cwd: String,
        answers: AddAnswers,
        no_supervise: bool,
        dry_run: bool,
    },
}

/// Responses from the daemon to clients.
#[derive(Debug)]
pub enum DaemonResponse {
    /// Success with optional message
    Okay { message: Option<String> },
    /// Error with description
    Error { message: String },
    /// Service status report
    Status { services: Vec<ServiceStatus> },
    /// List of sites
    Sites { sites: Vec<SiteInfo> },
    /// List of PHP versions
    PhpVersions { versions: Vec<PhpVersionInfo> },
    /// DB engine status report (one row per known engine).
    DbStatus { engines: Vec<DbEngineStatus> },
    /// Typed port-collision response from a Db dispatch handler.
    Conflict { engine: String, port: u16, owner_hint: Option<String> },
    /// Typed php-config report (V2 protocol window).
    PhpConfigReport(PhpConfigOutcome),
    /// Pong (health check response)
    Pong,
}

/// Typed php-config action carried by [`DaemonRequest::PhpConfigV2`].
#[derive(Debug, Clone, PartialEq, Eq)]
pub enum PhpConfigAction {
    /// Persist a directive into the canonical store, then reconcile channels.
    SetValue { scope: PhpScope, key: String, value: String },
    /// Remove a directive from the canonical store, then reconcile channels.
    Unset { scope: PhpScope, key: String },
    /// Report configured (and, where materialized, observed) values. Read-only.
    Show { key: Option<String> },
    /// Per-target coverage table. Read-only; only reports `sync pending`. The
    /// report echoes the key and the caller's per-request token.
    Status { key: Option<String>, token: Option<String> },
    /// Force journal recovery + legacy migration + reconcile.
    Sync,
    /// Remove every Hearth-written channel file (manifest-tracked, exact-hash).
    Unmanage,
}

/// Which slice of the canonical store a Set/Unset targets.
#[derive(Debug, Clone, PartialEq, Eq)]
pub enum PhpScope {
    /// `[php_ini.global]` — applies to every version.
    Global,
    /// `[php_ini.overrides."X.Y"]` — one version's override table.
    Version { version: String },
    /// The daemon's current `default_php` version.
    Active,
}

pub enum ScopeView {
    Global,
    Version { version: Seq<char> },
    Active,
}

impl View for PhpScope {
    type V = ScopeView;

    open spec fn view(&self) -> ScopeView {
        match self {
            PhpScope::Global => ScopeView::Global,
            PhpScope::Version { version } => ScopeView::Version { version: version@ },
            PhpScope::Active => ScopeView::Active,
        }
    }
}

pub enum ConfigActionView {
    SetValue { scope: ScopeView, key: Seq<char>, value: Seq<char> },
    Unset { scope: ScopeView, key: Seq<char> },
    Show { key: Option<Seq<char>> },
    Status { key: Option<Seq<char>>, token: Option<Seq<char>> },
    Sync,
    Unmanage,
}

impl View for PhpConfigAction {
    type V = ConfigActionView;

    open spec fn view(&self) -> ConfigActionView {
        match self {
            PhpConfigAction::SetValue { scope, key, value } => ConfigActionView::SetValue {
                scope: scope@,
                key: key@,
                value: value@,
            },
            PhpConfigAction::Unset { scope, key } => ConfigActionView::Unset {
                scope: scope@,
                key: key@,
            },
            PhpConfigAction::Show { key } => ConfigActionView::Show { key: text::opt_text(*key) },
            PhpConfigAction::Status { key, token } => ConfigActionView::Status {
                key: text::opt_text(*key),
                token: text::opt_text(*token),
            },
            PhpConfigAction::Sync => ConfigActionView::Sync,
            PhpConfigAction::Unmanage => ConfigActionView::Unmanage,
        }
    }
}

/// One row in a php-config report: a discovered target in one launch context.
#[derive(Debug, Clone, PartialEq, Eq)]
pub struct PhpTargetRow {
    /// `hearth` | `herd` | `homebrew`
    pub provider: String,
    /// `8.4`
    pub version: String,
    /// `cli` | `fpm`
    pub sapi: String,
    /// `normal` | `sanitized` | `launched` | `external`
    pub context: String,
    /// Scan-dir channel path for this context, when probed.
    pub channel: Option<String>,
    /// Truthful coverage tier: classification joined with the channel file's
    /// last outcome. Never claims universal coverage.
    pub coverage: String,
    /// Configured value from the canonical store (Show/Set/Unset with a key).
    pub configured: Option<String>,
    /// Observed value.
    pub observed: Option<String>,
    /// Observation vocabulary state: `configured` | `materialized` |
    /// `launch-probed` | `live-observed` | `n/a`.
    pub observed_state: String,
    /// The running FPM predates the newest materialized config.
    pub pending_restart: bool,
    pub run_state: Option<String>,
}

/// What a row holds.
#[verifier::ext_equal]
pub struct RowView {
    pub provider: Seq<char>,
    pub version: Seq<char>,
    pub sapi: Seq<char>,
    pub context: Seq<char>,
    pub channel: Option<Seq<char>>,
    pub coverage: Seq<char>,
    pub configured: Option<Seq<char>>,
    pub observed: Option<Seq<char>>,
    pub observed_state: Seq<char>,
    pub pending_restart: bool,
    pub run_state: Option<Seq<char>>,
}

impl View for PhpTargetRow {
    type V = RowView;

    open spec fn view(&self) -> RowView {
        RowView {
            provider: self.provider@,
            version: self.version@,
            sapi: self.sapi@,
            context: self.context@,
            channel: text::opt_text(self.channel),
            coverage: self.coverage@,
            configured: text::opt_text(self.configured),
            observed: text::opt_text(self.observed),
            observed_state: self.observed_state@,
            pending_restart: self.pending_restart,
            run_state: text::opt_text(self.run_state),
        }
    }
}

pub open spec fn row_views(v: Seq<PhpTargetRow>) -> Seq<RowView> {
    v.map_values(|r: PhpTargetRow| r@)
}

/// Typed per-file reconcile result.
#[derive(Debug, Clone, PartialEq, Eq)]
pub enum FileWriteResult {
    Written,
    Unchanged,
    Deleted,
    Refused { reason: String },
    Failed { error: String },
}

pub enum FileResultView {
    Written,
    Unchanged,
    Deleted,
    Refused { reason: Seq<char> },
    Failed { error: Seq<char> },
}

impl View for FileWriteResult {
    type V = FileResultView;

    open spec fn view(&self) -> FileResultView {
        match self {
            FileWriteResult::Written => FileResultView::Written,
            FileWriteResult::Unchanged => FileResultView::Unchanged,
            FileWriteResult::Deleted => FileResultView::Deleted,
            FileWriteResult::Refused { reason } => FileResultView::Refused { reason: reason@ },
            FileWriteResult::Failed { error } => FileResultView::Failed { error: error@ },
        }
    }
}

/// One channel file touched (or refused) by a reconcile.
#[derive(Debug, Clone, PartialEq, Eq)]
pub struct FileOutcome {
    pub path: String,
    pub result: FileWriteResult,
}

pub struct FileView {
    pub path: Seq<char>,
    pub result: FileResultView,
}

impl View for FileOutcome {
    type V = FileView;

    open spec fn view(&self) -> FileView {
        FileView { path: self.path@, result: self.result@ }
    }
}

pub open spec fn file_views(v: Seq<FileOutcome>) -> Seq<FileView> {
    v.map_values(|f: FileOutcome| f@)
}

/// What happened to the supervised php-fpm service after a config mutation.
/// `NotRegistered`/`LaunchBlocked` and the skips are informational (exit 0);
/// `Failed` on a registered service is an error (nonzero exit).
#[derive(Debug, Clone, PartialEq, Eq)]
pub enum FpmRestartOutcome {
    Restarted,
    NotRegistered { herd_hint: bool },
    LaunchBlocked { reason: String },
    Failed { message: String },
    NotAttempted,
    /// Herd owns php-fpm; Hearth's own was left untouched.
    SkippedHerdOwned,
    /// It is unknown who owns php-fpm; Hearth's own was left untouched.
    SkippedOwnershipUnknown { reason: String },
}

pub enum FpmOutcomeView {
    Restarted,
    NotRegistered { herd_hint: bool },
    LaunchBlocked { reason: Seq<char> },
    Failed { message: Seq<char> },
    NotAttempted,
    SkippedHerdOwned,
    SkippedOwnershipUnknown { reason: Seq<char> },
}

impl View for FpmRestartOutcome {
    type V = FpmOutcomeView;

    open spec fn view(&self) -> FpmOutcomeView {
        match self {
            FpmRestartOutcome::Restarted => FpmOutcomeView::Restarted,
            FpmRestartOutcome::NotRegistered { herd_hint } => FpmOutcomeView::NotRegistered {
                herd_hint: *herd_hint,
            },
            FpmRestartOutcome::LaunchBlocked { reason } => FpmOutcomeView::LaunchBlocked {
                reason: reason@,
            },
            FpmRestartOutcome::Failed { message } => FpmOutcomeView::Failed { message: message@ },
            FpmRestartOutcome::NotAttempted => FpmOutcomeView::NotAttempted,
            FpmRestartOutcome::SkippedHerdOwned => FpmOutcomeView::SkippedHerdOwned,
            FpmRestartOutcome::SkippedOwnershipUnknown { reason } =>
                FpmOutcomeView::SkippedOwnershipUnknown { reason: reason@ },
        }
    }
}

/// Full report for a V2 php-config action. `persisted` is `Some` only for
/// Set/Unset — the persisted/restart split keeps `hearth php config` from
/// reporting failure merely because an optional FPM service could not restart.
#[derive(Debug, Clone, PartialEq, Eq)]
pub struct PhpConfigOutcome {
    pub persisted: Option<bool>,
    pub rows: Vec<PhpTargetRow>,
    pub files: Vec<FileOutcome>,
    pub fpm: FpmRestartOutcome,
    /// The key that a keyed status report was made for.
    pub status_key: Option<String>,
    /// The token of the request that a status report answers.
    pub status_token: Option<String>,
}

/// What a report holds.
#[verifier::ext_equal]
pub struct ConfigOutcomeView {
    pub persisted: Option<bool>,
    pub rows: Seq<RowView>,
    pub files: Seq<FileView>,
    pub fpm: FpmOutcomeView,
    pub status_key: Option<Seq<char>>,
    pub status_token: Option<Seq<char>>,
}

impl View for PhpConfigOutcome {
    type V = ConfigOutcomeView;

    open spec fn view(&self) -> ConfigOutcomeView {
        ConfigOutcomeView {
            persisted: self.persisted,
            rows: row_views(self.rows@),
            files: file_views(self.files@),
            fpm: self.fpm@,
            status_key: text::opt_text(self.status_key),
            status_token: text::opt_text(self.status_token),
        }
    }
}

/// How a file that could not be reconciled is reported.
pub open spec fn hard_line(f: FileView) -> Option<Seq<char>> {
    match f.result {
        FileResultView::Refused { reason } => Some(f.path + ": "@ + reason),
        FileResultView::Failed { error } => Some(f.path + ": "@ + error),
        _ => None,
    }
}

/// The files that could not be reconciled, each with the reason.
pub open spec fn hard_lines(files: Seq<FileView>) -> Seq<Seq<char>>
    decreases files.len(),
{
    if files.len() == 0 {
        Seq::empty()
    } else {
        let before = hard_lines(files.drop_last());
        match hard_line(files.last()) {
            Some(line) => before.push(line),
            None => before,
        }
    }
}

impl PhpConfigOutcome {
    /// Every refused or failed file, with its path and the reason.
    pub fn hard_failures(&self) -> (r: Vec<String>)
        ensures
            text::texts(r@) == hard_lines(self@.files),
    {
        let ghost all = file_views(self.files@);
        let mut out: Vec<String> = Vec::new();
        let mut i: usize = 0;
        proof {
            assert(text::texts(out@) =~= hard_lines(all.take(0)));
        }
        while i < self.files.len()
            invariant
                i <= self.files.len(),
                all == file_views(self.files@),
                text::texts(out@) == hard_lines(all.take(i as int)),
            decreases self.files.len() - i,
        {
            let f: &FileOutcome = &self.files[i];
            let ghost before = out@;
            proof {
                let t = all.take(i + 1);
                assert(t.drop_last() =~= all.take(i as int));
                assert(t.last() == f@);
            }
            match &f.result {
                FileWriteResult::Refused { reason } => {
                    let line: String = text::cat3(f.path.as_str(), ": ", reason.as_str());
                    out.push(line);
                    proof {
                        assert(text::texts(out@) =~= text::texts(before).push(line@));
                    }
                },
                FileWriteResult::Failed { error } => {
                    let line: String = text::cat3(f.path.as_str(), ": ", error.as_str());
                    out.push(line);
                    proof {
                        assert(text::texts(out@) =~= text::texts(before).push(line@));
                    }
                },
                _ => {},
            }
            i = i + 1;
        }
        proof {
            assert(all.take(i as int) =~= all);
        }
        out
    }
}

#[derive(Debug)]
pub struct ServiceStatus {
    pub name: String,
    pub state: String,
    pub pid: Option<u32>,
}

#[derive(Debug)]
pub struct SiteInfo {
    pub name: String,
    pub path: String,
    pub secured: bool,
    pub php_version: Option<String>,
}

#[derive(Debug)]
pub struct PhpVersionInfo {
    pub version: String,
    pub path: String,
    pub active: bool,
}

/// One row in a `DbStatus` response.
#[derive(Debug, PartialEq, Eq)]
pub struct DbEngineStatus {
    /// Canonical engine name: `mysql`, `postgresql`, `redis`.
    pub engine: String,
    /// One of: `running`, `stopped`, `starting`, `failed:<reason>`,
    /// `not_registered`.
    pub state: String,
    /// PID iff state is `running`.
    pub pid: Option<u32>,
    /// Configured port for this engine.
    pub port: u16,
    /// Absolute path to this engine's data directory.
    pub data_dir: String,
    /// True when the port is bound by a process Hearth is *not* supervising
    /// (e.g. Herd Pro, Homebrew services, ad-hoc engine).
    pub conflict_port: bool,
    /// Optional hint about who owns the conflicting port (e.g. a launchd
    /// label).
    pub owner_hint: Option<String>,
}

/// Socket path for daemon communication.
pub fn socket_path(config_dir: &str) -> (r: String)
    ensures
        r@ == path::joined(config_dir@, "hearth.sock"@),
{
    path::join(config_dir, "hearth.sock")
}

} // verus!
