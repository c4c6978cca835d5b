//! The rows of a php-config report: what each target's launch contexts are
//! covered by, and what was observed there.

use crate::config::{effective, IniStore, PhpIniSettings};
use crate::fs::{facts, facts_by_key, Disk, Snapshot};
use crate::path;
use crate::php::fpm::{FpmConfState, StateView};
use crate::php::ini_guard;
use crate::php::manifest::{
    self, EntryState, LastOutcome, Manifest, ManifestView, OutcomeView, WriteOutcome,
};
use crate::php::reconcile::{
    self, actions_of, channel_file, render_ini, rendered, text_sha, text_sha256, ActionView,
    FileAction, ReconcileReport, CHANNEL_FILE_NAME,
};
use crate::php::targets::{
    target_views, ChannelClass, ClassView, PhpProvider, PhpSapi, PhpTarget, TargetView,
};
use crate::service::supervisor::{FpmOwnership, OwnershipView};
use crate::socket::{
    row_views, FileOutcome, FileResultView, FileView, FileWriteResult, PhpTargetRow, RowView,
};
use crate::strmap::{self, StrMap};
use crate::text::{self, opt_str};
use vstd::prelude::*;

verus! {

/// Truthful static coverage for every ambient-provider FPM row.
pub const EXTERNAL_FPM_COVERAGE: &'static str =
    "unverified: ambient/external FPM launch context cannot be authenticated — Hearth never writes on its behalf and never executes it; use Hearth's supervised FPM for managed/live-observed coverage";

// ---- names ----
pub open spec fn provider_name(p: PhpProvider) -> Seq<char> {
    match p {
        PhpProvider::Hearth => "hearth"@,
        PhpProvider::Herd => "herd"@,
        PhpProvider::Homebrew => "homebrew"@,
    }
}

pub fn provider_str(provider: PhpProvider) -> (r: &'static str)
    ensures
        r@ == provider_name(provider),
{
    match provider {
        PhpProvider::Hearth => "hearth",
        PhpProvider::Herd => "herd",
        PhpProvider::Homebrew => "homebrew",
    }
}

pub open spec fn sapi_name(s: PhpSapi) -> Seq<char> {
    match s {
        PhpSapi::Cli => "cli"@,
        PhpSapi::Fpm => "fpm"@,
    }
}

pub fn sapi_str(sapi: PhpSapi) -> (r: &'static str)
    ensures
        r@ == sapi_name(sapi),
{
    match sapi {
        PhpSapi::Cli => "cli",
        PhpSapi::Fpm => "fpm",
    }
}

// ---- file outcomes ----
pub open spec fn wired(o: OutcomeView) -> FileResultView {
    match o {
        OutcomeView::Written => FileResultView::Written,
        OutcomeView::Unchanged => FileResultView::Unchanged,
        OutcomeView::Deleted => FileResultView::Deleted,
        OutcomeView::Refused { reason } => FileResultView::Refused { reason },
        OutcomeView::Failed { error } => FileResultView::Failed { error },
    }
}

/// The wire form of a write outcome.
pub fn wire_result(outcome: &WriteOutcome) -> (r: FileWriteResult)
    ensures
        r@ == wired(outcome@),
{
    match outcome {
        WriteOutcome::Written => FileWriteResult::Written,
        WriteOutcome::Unchanged => FileWriteResult::Unchanged,
        WriteOutcome::Deleted => FileWriteResult::Deleted,
        WriteOutcome::Refused { reason } => FileWriteResult::Refused { reason: reason.clone() },
        WriteOutcome::Failed { error } => FileWriteResult::Failed { error: error.clone() },
    }
}

/// The wire form of what was done to files.
pub open spec fn wired_files(actions: Seq<ActionView>) -> Seq<FileView> {
    actions.map_values(|a: ActionView| FileView { path: a.path, result: wired(a.outcome) })
}

pub fn wire_files(actions: &Vec<FileAction>) -> (r: Vec<FileOutcome>)
    ensures
        crate::socket::file_views(r@) == wired_files(actions_of(actions@)),
{
    let mut out: Vec<FileOutcome> = Vec::new();
    let mut i: usize = 0;
    while i < actions.len()
        invariant
            i <= actions.len(),
            out@.len() == i,
            forall|j: int|
                0 <= j < i ==> (#[trigger] out@[j])@ == (FileView {
                    path: actions@[j]@.path,
                    result: wired(actions@[j]@.outcome),
                }),
        decreases actions.len() - i,
    {
        let a: &FileAction = &actions[i];
        out.push(FileOutcome { path: a.path.clone(), result: wire_result(&a.outcome) });
        i = i + 1;
    }
    proof {
        assert(crate::socket::file_views(out@) =~= wired_files(actions_of(actions@)));
    }
    out
}

// ---- file states ----
/// Channel-file materialization state for one expected file, used to join
/// classification with outcome (status never overclaims).
#[derive(Debug, Clone, PartialEq, Eq)]
pub enum FileState {
    Applied,
    SyncPending,
    Blocked(String),
}

pub enum FileStateView {
    Applied,
    SyncPending,
    Blocked(Seq<char>),
}

impl View for FileState {
    type V = FileStateView;

    open spec fn view(&self) -> FileStateView {
        match self {
            FileState::Applied => FileStateView::Applied,
            FileState::SyncPending => FileStateView::SyncPending,
            FileState::Blocked(r) => FileStateView::Blocked(r@),
        }
    }
}

pub open spec fn states_view(v: Seq<(String, FileState)>) -> Seq<(Seq<char>, FileStateView)> {
    v.map_values(|p: (String, FileState)| (p.0@, p.1@))
}

/// The state of a file: the latest that is recorded for it.
pub open spec fn state_of(states: Seq<(Seq<char>, FileStateView)>, p: Seq<char>) -> Option<
    FileStateView,
>
    decreases states.len(),
{
    if states.len() == 0 {
        None
    } else if path::key(states.last().0) == path::key(p) {
        Some(states.last().1)
    } else {
        state_of(states.drop_last(), p)
    }
}

pub fn state_at<'a>(states: &'a Vec<(String, FileState)>, p: &str) -> (r: Option<&'a FileState>)
    ensures
        match (r, state_of(states_view(states@), p@)) {
            (Some(s), Some(v)) => s@ == v,
            (None, None) => true,
            _ => false,
        },
{
    let ghost all = states_view(states@);
    let mut n: usize = states.len();
    proof {
        assert(all.take(n as int) =~= all);
    }
    while n > 0
        invariant
            n <= states.len(),
            all == states_view(states@),
            state_of(all, p@) == state_of(all.take(n as int), p@),
        decreases n,
    {
        proof {
            let t = all.take(n as int);
            assert(t.drop_last() =~= all.take(n - 1));
            assert(t.last() == (states@[n - 1].0@, states@[n - 1].1@));
        }
        if path::same_path(states[n - 1].0.as_str(), p) {
            return Some(&states[n - 1].1);
        }
        n = n - 1;
    }
    None
}

pub open spec fn reported_state(o: OutcomeView) -> FileStateView {
    match o {
        OutcomeView::Refused { reason } => FileStateView::Blocked(reason),
        OutcomeView::Failed { error } => FileStateView::Blocked(error),
        _ => FileStateView::Applied,
    }
}

pub open spec fn reported_states(actions: Seq<ActionView>) -> Seq<(Seq<char>, FileStateView)> {
    actions.map_values(|a: ActionView| (a.path, reported_state(a.outcome)))
}

/// Materialization states after a reconcile.
pub fn file_states_from_report(report: &ReconcileReport) -> (r: Vec<(String, FileState)>)
    ensures
        states_view(r@) == reported_states(actions_of(report.files@)),
{
    let mut out: Vec<(String, FileState)> = Vec::new();
    let mut i: usize = 0;
    while i < report.files.len()
        invariant
            i <= report.files.len(),
            out@.len() == i,
            forall|j: int|
                0 <= j < i ==> (#[trigger] out@[j]).0@ == report.files@[j]@.path && out@[j].1@
                    == reported_state(report.files@[j]@.outcome),
        decreases report.files.len() - i,
    {
        let a: &FileAction = &report.files[i];
        let state: FileState = match &a.outcome {
            WriteOutcome::Refused { reason } => FileState::Blocked(reason.clone()),
            WriteOutcome::Failed { error } => FileState::Blocked(error.clone()),
            _ => FileState::Applied,
        };
        out.push((a.path.clone(), state));
        i = i + 1;
    }
    proof {
        assert(states_view(out@) =~= reported_states(actions_of(report.files@)));
    }
    out
}

/// The states with those of channel directories that could not be created.
pub open spec fn with_failures(
    states: Seq<(Seq<char>, FileStateView)>,
    failures: Seq<FileView>,
) -> Seq<(Seq<char>, FileStateView)>
    decreases failures.len(),
{
    if failures.len() == 0 {
        states
    } else {
        let before = with_failures(states, failures.drop_last());
        match failures.last().result {
            FileResultView::Failed { error } => before.push(
                (failures.last().path, FileStateView::Blocked(error)),
            ),
            _ => before,
        }
    }
}

pub fn block_failed(states: &mut Vec<(String, FileState)>, failures: &Vec<FileOutcome>)
    ensures
        states_view(final(states)@) == with_failures(
            states_view(old(states)@),
            crate::socket::file_views(failures@),
        ),
{
    let ghost all = crate::socket::file_views(failures@);
    let mut i: usize = 0;
    proof {
        assert(all.take(0) =~= Seq::empty());
    }
    while i < failures.len()
        invariant
            i <= failures.len(),
            all == crate::socket::file_views(failures@),
            states_view(states@) == with_failures(states_view(old(states)@), all.take(i as int)),
        decreases failures.len() - i,
    {
        let f: &FileOutcome = &failures[i];
        let ghost before = states@;
        proof {
            let t = all.take(i + 1);
            assert(t.drop_last() =~= all.take(i as int));
            assert(t.last() == f@);
        }
        match &f.result {
            FileWriteResult::Failed { error } => {
                states.push((f.path.clone(), FileState::Blocked(error.clone())));
                proof {
                    assert(states_view(states@) =~= states_view(before).push(
                        (f@.path, FileStateView::Blocked(error@)),
                    ));
                }
            },
            _ => {},
        }
        i = i + 1;
    }
    proof {
        assert(all.take(i as int) =~= all);
    }
}

/// The state of one expected file by the manifest.
pub open spec fn manifest_state(m: ManifestView, file: Seq<char>, desired: Seq<char>) -> FileStateView {
    match manifest::slot(m.files, file) {
        None => FileStateView::SyncPending,
        Some(i) => {
            let e = m.files[i];
            match e.last_outcome {
                LastOutcome::Refused => FileStateView::Blocked(
                    "last reconcile refused (collision)"@,
                ),
                LastOutcome::Failed => FileStateView::Blocked("last reconcile failed"@),
                _ => if e.state == EntryState::Applied && e.sha256 == desired {
                    FileStateView::Applied
                } else {
                    FileStateView::SyncPending
                },
            }
        },
    }
}

/// The content hash that a version's channel file should have.
pub open spec fn desired_sha(ini: IniStore, version: Seq<char>) -> Seq<char> {
    text_sha(rendered(strmap::listing(effective(ini, version))))
}

/// Whether a version has no directives at all.
pub open spec fn bare(ini: IniStore, version: Seq<char>) -> bool {
    effective(ini, version) == Map::<Seq<char>, Seq<char>>::empty()
}

/// The states of the files of the first `n` targets: each file once, for the
/// first target that writes it, and only where the version has directives.
pub open spec fn expected_states(
    ini: IniStore,
    targets: Seq<TargetView>,
    n: int,
    m: ManifestView,
) -> Seq<(Seq<char>, FileStateView)>
    decreases n,
{
    if n <= 0 {
        Seq::empty()
    } else {
        let before = expected_states(ini, targets, n - 1, m);
        let t = targets[n - 1];
        match t.write_channel {
            None => before,
            Some(dir) => if bare(ini, t.id.version) || state_of(
                before,
                channel_file(dir),
            ) is Some {
                before
            } else {
                before.push(
                    (
                        channel_file(dir),
                        manifest_state(m, channel_file(dir), desired_sha(ini, t.id.version)),
                    ),
                )
            },
        }
    }
}

fn state_by_manifest(m: &Manifest, file: &str, desired: &str) -> (r: FileState)
    ensures
        r@ == manifest_state(m@, file@, desired@),
{
    match m.entry_index(file) {
        None => FileState::SyncPending,
        Some(i) => {
            let e = &m.files[i];
            match e.last_outcome {
                LastOutcome::Refused => FileState::Blocked(
                    "last reconcile refused (collision)".to_owned(),
                ),
                LastOutcome::Failed => FileState::Blocked("last reconcile failed".to_owned()),
                _ => {
                    if e.state == EntryState::Applied && text::same(e.sha256.as_str(), desired) {
                        FileState::Applied
                    } else {
                        FileState::SyncPending
                    }
                },
            }
        },
    }
}

/// Expected-file materialization states from the manifest (read-only).
pub fn file_states_from_manifest(
    php_ini: &PhpIniSettings,
    targets: &Vec<PhpTarget>,
    m: &Manifest,
) -> (r: Vec<(String, FileState)>)
    requires
        php_ini.wf(),
    ensures
        states_view(r@) == expected_states(
            php_ini@,
            target_views(targets@),
            targets@.len() as int,
            m@,
        ),
{
    let mut states: Vec<(String, FileState)> = Vec::new();
    let ghost all = target_views(targets@);
    let mut i: usize = 0;
    proof {
        assert(states_view(states@) =~= Seq::empty());
    }
    while i < targets.len()
        invariant
            i <= targets.len(),
            php_ini.wf(),
            all == target_views(targets@),
            states_view(states@) == expected_states(php_ini@, all, i as int, m@),
        decreases targets.len() - i,
    {
        let t: &PhpTarget = &targets[i];
        let ghost before = states@;
        assert(all[i as int] == t@);
        match &t.write_channel {
            None => {},
            Some(dir) => {
                let directives: StrMap<String> = php_ini.effective_for(t.id.version.as_str());
                let file: String = path::join(dir.as_str(), CHANNEL_FILE_NAME);
                if !directives.is_empty() && state_at(&states, file.as_str()).is_none() {
                    let content: String = render_ini(&directives);
                    let sha: String = text_sha256(content.as_str());
                    let state = state_by_manifest(m, file.as_str(), sha.as_str());
                    states.push((file, state));
                    proof {
                        assert(states_view(states@) =~= states_view(before).push(
                            (file@, state@),
                        ));
                    }
                }
            },
        }
        i = i + 1;
    }
    states
}

/// A state by the manifest, held against the disk: a file counts as applied
/// only where its content is the one that the manifest records.
pub open spec fn confirmed_state(m: ManifestView, d: Disk, p: Seq<char>, s: FileStateView) ->
    FileStateView {
    let slot = manifest::slot(m.files, p);
    if s is Applied && !(slot is Some && facts(d, p).hash == Ok::<Seq<char>, Seq<char>>(
        m.files[slot->0].sha256,
    )) {
        FileStateView::SyncPending
    } else {
        s
    }
}

pub open spec fn confirmed_states(
    m: ManifestView,
    d: Disk,
    states: Seq<(Seq<char>, FileStateView)>,
) -> Seq<(Seq<char>, FileStateView)> {
    states.map_values(
        |s: (Seq<char>, FileStateView)| (s.0, confirmed_state(m, d, s.0, s.1)),
    )
}

fn is_recorded_content(m: &Manifest, disk: &Snapshot, p: &str) -> (r: bool)
    requires
        disk.wf(),
    ensures
        r == ({
            let slot = manifest::slot(m@.files, p@);
            slot is Some && facts(disk@, p@).hash == Ok::<Seq<char>, Seq<char>>(
                m@.files[slot->0].sha256,
            )
        }),
{
    match m.entry_index(p) {
        None => false,
        Some(i) => match &disk.at(p).hash {
            Ok(found) => text::same(found.as_str(), m.files[i].sha256.as_str()),
            Err(_) => false,
        },
    }
}

/// The states by the manifest, as far as the disk bears them out.
pub fn confirm_states(states: Vec<(String, FileState)>, m: &Manifest, disk: &Snapshot) -> (r: Vec<
    (String, FileState),
>)
    requires
        disk.wf(),
    ensures
        states_view(r@) == confirmed_states(m@, disk@, states_view(states@)),
{
    let mut out: Vec<(String, FileState)> = Vec::new();
    let mut i: usize = 0;
    while i < states.len()
        invariant
            i <= states.len(),
            disk.wf(),
            out@.len() == i,
            forall|j: int|
                0 <= j < i ==> (#[trigger] out@[j]).0@ == states@[j].0@ && out@[j].1@
                    == confirmed_state(m@, disk@, states@[j].0@, states@[j].1@),
        decreases states.len() - i,
    {
        let file: &str = states[i].0.as_str();
        let state: FileState = match &states[i].1 {
            FileState::Applied => {
                if is_recorded_content(m, disk, file) {
                    FileState::Applied
                } else {
                    FileState::SyncPending
                }
            },
            FileState::SyncPending => FileState::SyncPending,
            FileState::Blocked(reason) => FileState::Blocked(reason.clone()),
        };
        out.push((file.to_owned(), state));
        i = i + 1;
    }
    proof {
        assert(states_view(out@) =~= confirmed_states(m@, disk@, states_view(states@)));
    }
    out
}

// ---- coverage ----
/// Truthful coverage label for one (context, classification, outcome) cell.
/// Never claims universal coverage; degraded channels are loud.
pub open spec fn coverage(
    normal: bool,
    class: ClassView,
    env_honored: bool,
    state: Option<FileStateView>,
    expected: bool,
) -> Seq<char> {
    match class {
        ClassView::Verified { dir } => {
            let base = if normal {
                if env_honored {
                    "managed (channel+env)"@
                } else {
                    "managed (channel; env ignored)"@
                }
            } else {
                "managed (channel)"@
            };
            match state {
                Some(FileStateView::Blocked(_)) if expected => "managed* — channel blocked: "@
                    + channel_file(dir),
                Some(FileStateView::SyncPending) if expected => base + " (sync pending)"@,
                _ => base,
            }
        },
        ClassView::PrivilegedDir { dir } => "UNMANAGED: privileged-dir"@,
        ClassView::BestEffort { reason } => "unmanaged: best-effort ("@ + reason + ")"@,
    }
}

pub open spec fn opt_state(o: Option<&FileState>) -> Option<FileStateView> {
    match o {
        Some(s) => Some(s@),
        None => None,
    }
}

/// The coverage label of a cell.
pub fn coverage_label(
    normal: bool,
    class: &ChannelClass,
    env_honored: bool,
    file_state: Option<&FileState>,
    managed_expected: bool,
) -> (r: String)
    ensures
        r@ == coverage(
            normal,
            class@,
            env_honored,
            opt_state(file_state),
            managed_expected,
        ),
{
    match class {
        ChannelClass::Verified { dir } => {
            let base: &str = if normal {
                if env_honored {
                    "managed (channel+env)"
                } else {
                    "managed (channel; env ignored)"
                }
            } else {
                "managed (channel)"
            };
            if managed_expected {
                match file_state {
                    Some(FileState::Blocked(_)) => {
                        let file: String = path::join(dir.as_str(), CHANNEL_FILE_NAME);
                        return text::cat2("managed* — channel blocked: ", file.as_str());
                    },
                    Some(FileState::SyncPending) => {
                        return text::cat2(base, " (sync pending)");
                    },
                    _ => {},
                }
            }
            base.to_owned()
        },
        ChannelClass::PrivilegedDir { dir: _ } => "UNMANAGED: privileged-dir".to_owned(),
        ChannelClass::BestEffort { reason } => text::cat3(
            "unmanaged: best-effort (",
            reason.as_str(),
            ")",
        ),
    }
}

// ---- rows ----
/// The value configured for a key, if a key is asked about.
pub open spec fn configured(ini: IniStore, version: Seq<char>, key: Option<Seq<char>>) -> Option<
    Seq<char>,
> {
    match key {
        Some(k) if effective(ini, version).dom().contains(k) => Some(effective(ini, version)[k]),
        _ => None,
    }
}

/// The state of the file that a class lets Hearth write.
pub open spec fn class_state(class: ClassView, states: Seq<(Seq<char>, FileStateView)>) -> Option<
    FileStateView,
> {
    match class {
        ClassView::Verified { dir } => state_of(states, channel_file(dir)),
        _ => None,
    }
}

/// The row of a CLI target in one context. What is observed is the configured
/// value, and only where the channel file is known to hold it.
pub open spec fn context_row(
    ini: IniStore,
    t: TargetView,
    normal: bool,
    key: Option<Seq<char>>,
    states: Seq<(Seq<char>, FileStateView)>,
) -> RowView {
    let class = if normal {
        t.normal_channel
    } else {
        t.sanitized_channel
    };
    let expected = !bare(ini, t.id.version);
    let state = class_state(class, states);
    let value = configured(ini, t.id.version, key);
    let materialized = value is Some && expected && class is Verified && state == Some(
        FileStateView::Applied,
    );
    RowView {
        provider: provider_name(t.id.provider),
        version: t.id.version,
        sapi: sapi_name(t.id.sapi),
        context: if normal {
            "normal"@
        } else {
            "sanitized"@
        },
        channel: match class {
            ClassView::Verified { dir } => Some(dir),
            ClassView::PrivilegedDir { dir } => Some(dir),
            ClassView::BestEffort { reason } => None,
        },
        coverage: coverage(normal, class, t.probe.env_honored, state, expected),
        configured: value,
        observed: if materialized {
            value
        } else {
            None
        },
        observed_state: if materialized {
            "materialized"@
        } else {
            "n/a"@
        },
        pending_restart: false,
        run_state: None,
    }
}

/// The one static row of an ambient FPM target.
pub open spec fn external_row(ini: IniStore, t: TargetView, key: Option<Seq<char>>) -> RowView {
    RowView {
        provider: provider_name(t.id.provider),
        version: t.id.version,
        sapi: sapi_name(t.id.sapi),
        context: "external"@,
        channel: None,
        coverage: EXTERNAL_FPM_COVERAGE@,
        configured: configured(ini, t.id.version, key),
        observed: None,
        observed_state: "n/a"@,
        pending_restart: false,
        run_state: None,
    }
}

/// The rows of one target: one static row for ambient FPM, none for Hearth's
/// own FPM (its one launch surface is the service), one per context else.
pub open spec fn target_rows(
    ini: IniStore,
    t: TargetView,
    key: Option<Seq<char>>,
    states: Seq<(Seq<char>, FileStateView)>,
) -> Seq<RowView> {
    if t.id.sapi == PhpSapi::Fpm {
        if t.id.provider != PhpProvider::Hearth {
            seq![external_row(ini, t, key)]
        } else {
            Seq::empty()
        }
    } else {
        seq![
            context_row(ini, t, true, key, states),
            context_row(ini, t, false, key, states),
        ]
    }
}

/// The rows of the first `n` targets.
pub open spec fn targets_rows(
    ini: IniStore,
    targets: Seq<TargetView>,
    n: int,
    key: Option<Seq<char>>,
    states: Seq<(Seq<char>, FileStateView)>,
) -> Seq<RowView>
    decreases n,
{
    if n <= 0 {
        Seq::empty()
    } else {
        targets_rows(ini, targets, n - 1, key, states) + target_rows(
            ini,
            targets[n - 1],
            key,
            states,
        )
    }
}

/// What is said of Hearth's own supervised FPM, by TYPED ownership: Owned =
/// Herd's domain, nothing; Unowned = a truthful supervised/LAUNCH-BLOCKED
/// text; Unknown = LOUDLY that, never as if ownership were proven Unowned.
pub open spec fn service_coverage(
    ownership: OwnershipView,
    conf: StateView,
    binary: bool,
    default_php: Seq<char>,
) -> Option<Seq<char>> {
    match ownership {
        OwnershipView::Owned => None,
        OwnershipView::Unowned => Some(
            match conf {
                StateView::Blocked { reason } => "LAUNCH-BLOCKED: "@ + reason,
                _ if !binary => "LAUNCH-BLOCKED: php-fpm binary for "@ + default_php
                    + " not found"@,
                StateView::HearthOwned { conf, conf_sha256, probe_sha256, listen } =>
                    "supervised (scan-dir env at launch; listen: "@ + listen + ")"@,
                StateView::UserManaged { conf } =>
                    "supervised (user-managed fpm config — live observation requires Hearth-generated config; remove/rename it and run --sync to adopt)"@,
            },
        ),
        OwnershipView::Unknown(diag) => Some(
            "OWNERSHIP-UNKNOWN: "@ + diag
                + " — FPM activation fails closed; fix the ownership probe and retry"@,
        ),
    }
}

/// The row of Hearth's own supervised FPM service, if there is one.
pub open spec fn service_rows(
    ini: IniStore,
    default_php: Seq<char>,
    key: Option<Seq<char>>,
    ownership: OwnershipView,
    conf: StateView,
    binary: bool,
    pending_restart: bool,
) -> Seq<RowView> {
    match service_coverage(ownership, conf, binary, default_php) {
        None => Seq::empty(),
        Some(said) => seq![
            RowView {
                provider: "hearth"@,
                version: default_php,
                sapi: "fpm"@,
                context: "launched"@,
                channel: None,
                coverage: said,
                configured: configured(ini, default_php, key),
                observed: None,
                observed_state: "n/a"@,
                pending_restart,
                run_state: None,
            },
        ],
    }
}

/// What Hearth's own FPM service depends on.
#[derive(Debug)]
pub struct FpmFacts {
    pub ownership: FpmOwnership,
    pub conf: FpmConfState,
    /// The binary for the default version, if it was found.
    pub binary: Option<String>,
    /// When the running child was started, in Unix milliseconds, if one runs.
    pub started_at: Option<u64>,
}

/// Whether the running FPM predates the newest materialized configuration: its
/// start is known, and some file was applied later.
pub open spec fn predates(started_at: Option<u64>, m: ManifestView) -> bool {
    started_at is Some && exists|i: int|
        0 <= i < m.files.len() && (#[trigger] m.files[i]).applied_at_unix_ms is Some
            && m.files[i].applied_at_unix_ms->0 > started_at->0
}

/// Whether a restart of the running FPM is pending. A file without an apply
/// time never claims one.
pub fn pending_restart(started_at: Option<u64>, applied: &Manifest) -> (r: bool)
    ensures
        r == predates(started_at, applied@),
{
    let start: u64 = match started_at {
        None => {
            return false;
        },
        Some(t) => t,
    };
    let ghost rows = applied@.files;
    let mut i: usize = 0;
    while i < applied.files.len()
        invariant
            i <= applied.files@.len(),
            rows == applied@.files,
            started_at == Some(start),
            forall|j: int|
                0 <= j < i && (#[trigger] rows[j]).applied_at_unix_ms is Some
                    ==> rows[j].applied_at_unix_ms->0 <= start,
        decreases applied.files@.len() - i,
    {
        assert(rows[i as int] == applied.files@[i as int]@);
        match applied.files[i].applied_at_unix_ms {
            Some(t) => {
                if t > start {
                    return true;
                }
            },
            None => {},
        }
        i = i + 1;
    }
    false
}

/// One row per (target, context), plus the truthful Hearth-FPM service row.
pub open spec fn all_rows(
    ini: IniStore,
    default_php: Seq<char>,
    targets: Seq<TargetView>,
    key: Option<Seq<char>>,
    states: Seq<(Seq<char>, FileStateView)>,
    f: FpmFacts,
    m: ManifestView,
) -> Seq<RowView> {
    targets_rows(ini, targets, targets.len() as int, key, states) + service_rows(
        ini,
        default_php,
        key,
        f.ownership@,
        f.conf@,
        f.binary is Some,
        predates(f.started_at, m),
    )
}

fn configured_value(directives: &StrMap<String>, key: Option<&str>) -> (r: Option<String>)
    requires
        directives.wf(),
    ensures
        text::opt_text(r) == match opt_str(key) {
            Some(k) if directives@.dom().contains(k) => Some(directives@[k]),
            _ => None,
        },
{
    match key {
        None => None,
        Some(k) => match directives.get(k) {
            Some(v) => Some(v.clone()),
            None => None,
        },
    }
}

fn build_context_row(
    php_ini: &PhpIniSettings,
    t: &PhpTarget,
    normal: bool,
    key: Option<&str>,
    states: &Vec<(String, FileState)>,
) -> (r: PhpTargetRow)
    requires
        php_ini.wf(),
    ensures
        r@ == context_row(php_ini@, t@, normal, opt_str(key), states_view(states@)),
{
    let directives: StrMap<String> = php_ini.effective_for(t.id.version.as_str());
    let expected: bool = !directives.is_empty();
    let value: Option<String> = configured_value(&directives, key);
    let class: &ChannelClass = if normal {
        &t.normal_channel
    } else {
        &t.sanitized_channel
    };
    let channel: Option<String> = match class {
        ChannelClass::Verified { dir } => Some(dir.clone()),
        ChannelClass::PrivilegedDir { dir } => Some(dir.clone()),
        ChannelClass::BestEffort { reason: _ } => None,
    };
    let state: Option<&FileState> = match class {
        ChannelClass::Verified { dir } => {
            let file: String = path::join(dir.as_str(), CHANNEL_FILE_NAME);
            state_at(states, file.as_str())
        },
        _ => None,
    };
    let said: String = coverage_label(normal, class, t.probe.env_honored, state, expected);
    let applied: bool = match state {
        Some(FileState::Applied) => true,
        _ => false,
    };
    let verified: bool = match class {
        ChannelClass::Verified { dir: _ } => true,
        _ => false,
    };
    let materialized: bool = value.is_some() && expected && verified && applied;
    let observed: Option<String> = if materialized {
        text::dup_opt(&value)
    } else {
        None
    };
    PhpTargetRow {
        provider: provider_str(t.id.provider).to_owned(),
        version: t.id.version.clone(),
        sapi: sapi_str(t.id.sapi).to_owned(),
        context: if normal {
            "normal".to_owned()
        } else {
            "sanitized".to_owned()
        },
        channel,
        coverage: said,
        configured: value,
        observed,
        observed_state: if materialized {
            "materialized".to_owned()
        } else {
            "n/a".to_owned()
        },
        pending_restart: false,
        run_state: None,
    }
}

fn push_row(rows: &mut Vec<PhpTargetRow>, row: PhpTargetRow)
    ensures
        row_views(final(rows)@) == row_views(old(rows)@).push(row@),
{
    rows.push(row);
    proof {
        assert(row_views(rows@) =~= row_views(old(rows)@).push(row@));
    }
}

fn push_target_rows(
    rows: &mut Vec<PhpTargetRow>,
    php_ini: &PhpIniSettings,
    t: &PhpTarget,
    key: Option<&str>,
    states: &Vec<(String, FileState)>,
)
    requires
        php_ini.wf(),
    ensures
        row_views(final(rows)@) == row_views(old(rows)@) + target_rows(
            php_ini@,
            t@,
            opt_str(key),
            states_view(states@),
        ),
{
    if t.id.sapi == PhpSapi::Fpm {
        if t.id.provider != PhpProvider::Hearth {
            let directives: StrMap<String> = php_ini.effective_for(t.id.version.as_str());
            let row = PhpTargetRow {
                provider: provider_str(t.id.provider).to_owned(),
                version: t.id.version.clone(),
                sapi: sapi_str(t.id.sapi).to_owned(),
                context: "external".to_owned(),
                channel: None,
                coverage: EXTERNAL_FPM_COVERAGE.to_owned(),
                configured: configured_value(&directives, key),
                observed: None,
                observed_state: "n/a".to_owned(),
                pending_restart: false,
                run_state: None,
            };
            push_row(rows, row);
        }
    } else {
        push_row(rows, build_context_row(php_ini, t, true, key, states));
        push_row(rows, build_context_row(php_ini, t, false, key, states));
    }
    proof {
        assert(row_views(rows@) =~= row_views(old(rows)@) + target_rows(
            php_ini@,
            t@,
            opt_str(key),
            states_view(states@),
        ));
    }
}

fn service_text(f: &FpmFacts, default_php: &str) -> (r: Option<String>)
    ensures
        text::opt_text(r) == service_coverage(
            f.ownership@,
            f.conf@,
            f.binary is Some,
            default_php@,
        ),
{
    match &f.ownership {
        FpmOwnership::Owned => None,
        FpmOwnership::Unowned => Some(
            match &f.conf {
                FpmConfState::Blocked { reason } => text::cat2("LAUNCH-BLOCKED: ", reason.as_str()),
                conf => {
                    if f.binary.is_none() {
                        text::cat3(
                            "LAUNCH-BLOCKED: php-fpm binary for ",
                            default_php,
                            " not found",
                        )
                    } else {
                        match conf {
                            FpmConfState::HearthOwned {
                                conf: _,
                                conf_sha256: _,
                                probe_sha256: _,
                                listen,
                            } => text::cat3(
                                "supervised (scan-dir env at launch; listen: ",
                                listen.as_str(),
                                ")",
                            ),
                            _ =>
                                "supervised (user-managed fpm config — live observation requires Hearth-generated config; remove/rename it and run --sync to adopt)".to_owned(),
                        }
                    }
                },
            },
        ),
        FpmOwnership::Unknown(diag) => Some(
            text::cat3(
                "OWNERSHIP-UNKNOWN: ",
                diag.as_str(),
                " — FPM activation fails closed; fix the ownership probe and retry",
            ),
        ),
    }
}

/// One row per (target, context), plus the truthful Hearth-FPM service row.
/// Coverage = classification ⊓ channel-file outcome; env credit only where the
/// canary passed. The service row is marked when the running FPM predates the
/// newest materialized configuration.
pub fn build_rows(
    php_ini: &PhpIniSettings,
    default_php: &str,
    targets: &Vec<PhpTarget>,
    key: Option<&str>,
    states: &Vec<(String, FileState)>,
    f: &FpmFacts,
    applied: &Manifest,
) -> (r: Vec<PhpTargetRow>)
    requires
        php_ini.wf(),
    ensures
        row_views(r@) == all_rows(
            php_ini@,
            default_php@,
            target_views(targets@),
            opt_str(key),
            states_view(states@),
            *f,
            applied@,
        ),
{
    let mut rows: Vec<PhpTargetRow> = Vec::new();
    let ghost all = target_views(targets@);
    let mut i: usize = 0;
    proof {
        assert(row_views(rows@) =~= Seq::empty());
    }
    while i < targets.len()
        invariant
            i <= targets.len(),
            php_ini.wf(),
            all == target_views(targets@),
            row_views(rows@) == targets_rows(
                php_ini@,
                all,
                i as int,
                opt_str(key),
                states_view(states@),
            ),
        decreases targets.len() - i,
    {
        assert(all[i as int] == targets@[i as int]@);
        push_target_rows(&mut rows, php_ini, &targets[i], key, states);
        i = i + 1;
    }
    let ghost before = row_views(rows@);
    match service_text(f, default_php) {
        None => {
            proof {
                assert(before =~= before + Seq::<RowView>::empty());
            }
        },
        Some(said) => {
            let directives: StrMap<String> = php_ini.effective_for(default_php);
            let row = PhpTargetRow {
                provider: "hearth".to_owned(),
                version: default_php.to_owned(),
                sapi: "fpm".to_owned(),
                context: "launched".to_owned(),
                channel: None,
                coverage: said,
                configured: configured_value(&directives, key),
                observed: None,
                observed_state: "n/a".to_owned(),
                pending_restart: pending_restart(f.started_at, applied),
                run_state: None,
            };
            push_row(&mut rows, row);
            proof {
                assert(before.push(row@) =~= before + seq![row@]);
            }
        },
    }
    rows
}

// ---- launch probes ----
/// An effective-value probe that is to be made.
#[derive(Debug)]
pub enum LaunchProbe {
    /// `-r 'echo ini_get("<key>");'` with the CLI target at this position,
    /// under the EXACT environment of the context.
    Cli { target: usize, normal: bool },
    /// `-i` with the FPM binary under the exact service environment.
    Fpm { binary: String },
}

pub enum LaunchProbeView {
    Cli { target: int, normal: bool },
    Fpm { binary: Seq<char> },
}

impl View for LaunchProbe {
    type V = LaunchProbeView;

    open spec fn view(&self) -> LaunchProbeView {
        match self {
            LaunchProbe::Cli { target, normal } => LaunchProbeView::Cli {
                target: *target as int,
                normal: *normal,
            },
            LaunchProbe::Fpm { binary } => LaunchProbeView::Fpm { binary: binary@ },
        }
    }
}

pub open spec fn probe_views(v: Seq<LaunchProbe>) -> Seq<LaunchProbeView> {
    v.map_values(|p: LaunchProbe| p@)
}

/// The probes of the first `n` targets: both contexts of each CLI whose
/// identity is verified, and nothing else.
pub open spec fn cli_probes(targets: Seq<TargetView>, n: int) -> Seq<LaunchProbeView>
    decreases n,
{
    if n <= 0 {
        Seq::empty()
    } else {
        let before = cli_probes(targets, n - 1);
        let t = targets[n - 1];
        if t.id.sapi == PhpSapi::Cli && t.identity_verified {
            before.push(LaunchProbeView::Cli { target: n - 1, normal: true }).push(
                LaunchProbeView::Cli { target: n - 1, normal: false },
            )
        } else {
            before
        }
    }
}

/// The probe of the supervised FPM: only while it is registrable under PROVEN
/// Unowned ownership.
pub open spec fn fpm_probe(f: FpmFacts) -> Seq<LaunchProbeView> {
    match (f.ownership@, f.conf@, f.binary) {
        (OwnershipView::Unowned, StateView::Blocked { reason }, _) => Seq::empty(),
        (OwnershipView::Unowned, _, Some(binary)) => seq![
            LaunchProbeView::Fpm { binary: binary@ },
        ],
        _ => Seq::empty(),
    }
}

/// The probes to be made for a key. A key that is not accepted is never
/// embedded in a command.
pub open spec fn planned(key: Seq<char>, targets: Seq<TargetView>, f: FpmFacts) -> Seq<
    LaunchProbeView,
> {
    if ini_guard::key_accepted(key) {
        cli_probes(targets, targets.len() as int) + fpm_probe(f)
    } else {
        Seq::empty()
    }
}

/// Launch-probed effective values for freshly built rows: which probes to
/// make.
///
/// Only the Hearth-supervised, registrable FPM service is probed. Ambient
/// external FPM is never probed: no ambient launch context can be
/// authenticated, so its static unverified row stands. An unverified identity
/// is never executed — not even for an effective-value probe.
pub fn plan_launch_probes(key: &str, targets: &Vec<PhpTarget>, f: &FpmFacts) -> (r: Vec<
    LaunchProbe,
>)
    ensures
        probe_views(r@) == planned(key@, target_views(targets@), *f),
{
    let mut out: Vec<LaunchProbe> = Vec::new();
    let ghost all = target_views(targets@);
    proof {
        assert(probe_views(out@) =~= Seq::empty());
    }
    if ini_guard::validate_key(key).is_err() {
        return out;
    }
    let mut i: usize = 0;
    while i < targets.len()
        invariant
            i <= targets.len(),
            all == target_views(targets@),
            probe_views(out@) == cli_probes(all, i as int),
        decreases targets.len() - i,
    {
        let t: &PhpTarget = &targets[i];
        assert(all[i as int] == t@);
        if t.id.sapi == PhpSapi::Cli && t.identity_verified {
            let ghost before = probe_views(out@);
            out.push(LaunchProbe::Cli { target: i, normal: true });
            out.push(LaunchProbe::Cli { target: i, normal: false });
            proof {
                assert(probe_views(out@) =~= before.push(
                    LaunchProbeView::Cli { target: i as int, normal: true },
                ).push(LaunchProbeView::Cli { target: i as int, normal: false }));
            }
        }
        i = i + 1;
    }
    let ghost before = probe_views(out@);
    let blocked: bool = match &f.conf {
        FpmConfState::Blocked { reason: _ } => true,
        _ => false,
    };
    match (&f.ownership, &f.binary) {
        (FpmOwnership::Unowned, Some(binary)) => {
            if !blocked {
                out.push(LaunchProbe::Fpm { binary: binary.clone() });
            }
        },
        _ => {},
    }
    proof {
        assert(probe_views(out@) =~= before + fpm_probe(*f));
    }
    out
}

/// Whether a row is the one that a probe is about.
pub open spec fn is_probed(r: RowView, probe: LaunchProbeView, targets: Seq<TargetView>) -> bool {
    match probe {
        LaunchProbeView::Cli { target, normal } => {
            let t = targets[target];
            &&& r.provider == provider_name(t.id.provider)
            &&& r.version == t.id.version
            &&& r.sapi == "cli"@
            &&& r.context == if normal {
                "normal"@
            } else {
                "sanitized"@
            }
        },
        LaunchProbeView::Fpm { binary } => r.sapi == "fpm"@ && r.context == "launched"@,
    }
}

/// The first row, from `i` on, that a probe is about.
pub open spec fn probed_row(
    rows: Seq<RowView>,
    probe: LaunchProbeView,
    targets: Seq<TargetView>,
    i: int,
) -> Option<int>
    decreases rows.len() - i,
{
    if i < 0 || i >= rows.len() {
        None
    } else if is_probed(rows[i], probe, targets) {
        Some(i)
    } else {
        probed_row(rows, probe, targets, i + 1)
    }
}

/// The rows with what a probe reported. A probe that reported nothing leaves
/// the truthful non-success state untouched.
pub open spec fn noted(
    rows: Seq<RowView>,
    probe: LaunchProbeView,
    targets: Seq<TargetView>,
    value: Option<Seq<char>>,
) -> Seq<RowView> {
    match (value, probed_row(rows, probe, targets, 0)) {
        (Some(v), Some(i)) => rows.update(
            i,
            RowView { observed: Some(v), observed_state: "launch-probed"@, ..rows[i] },
        ),
        _ => rows,
    }
}

fn row_is_probed(r: &PhpTargetRow, probe: &LaunchProbe, targets: &Vec<PhpTarget>) -> (b: bool)
    requires
        match probe {
            LaunchProbe::Cli { target, normal } => *target < targets@.len(),
            _ => true,
        },
    ensures
        b == is_probed(r@, probe@, target_views(targets@)),
{
    match probe {
        LaunchProbe::Cli { target, normal } => {
            let t: &PhpTarget = &targets[*target];
            assert(target_views(targets@)[*target as int] == t@);
            let context: &str = if *normal {
                "normal"
            } else {
                "sanitized"
            };
            text::same(r.provider.as_str(), provider_str(t.id.provider)) && text::same(
                r.version.as_str(),
                t.id.version.as_str(),
            ) && text::same(r.sapi.as_str(), "cli") && text::same(r.context.as_str(), context)
        },
        LaunchProbe::Fpm { binary: _ } => text::same(r.sapi.as_str(), "fpm") && text::same(
            r.context.as_str(),
            "launched",
        ),
    }
}

/// Records what a probe reported.
pub fn note_launch_probe(
    rows: &mut Vec<PhpTargetRow>,
    probe: &LaunchProbe,
    targets: &Vec<PhpTarget>,
    value: Option<String>,
)
    requires
        match probe {
            LaunchProbe::Cli { target, normal } => *target < targets@.len(),
            _ => true,
        },
    ensures
        row_views(final(rows)@) == noted(
            row_views(old(rows)@),
            probe@,
            target_views(targets@),
            text::opt_text(value),
        ),
{
    let v: String = match value {
        None => {
            return;
        },
        Some(v) => v,
    };
    let ghost all = row_views(rows@);
    let ghost tv = target_views(targets@);
    let mut i: usize = 0;
    while i < rows.len()
        invariant
            i <= rows.len(),
            *rows == *old(rows),
            all == row_views(rows@),
            tv == target_views(targets@),
            match probe {
                LaunchProbe::Cli { target, normal } => *target < targets@.len(),
                _ => true,
            },
            probed_row(all, probe@, tv, 0) == probed_row(all, probe@, tv, i as int),
            noted(all, probe@, tv, Some(v@)) == noted(
                row_views(old(rows)@),
                probe@,
                target_views(targets@),
                text::opt_text(value),
            ),
        decreases rows.len() - i,
    {
        assert(all[i as int] == rows@[i as int]@);
        if row_is_probed(&rows[i], probe, targets) {
            rows[i].observed = Some(v);
            rows[i].observed_state = "launch-probed".to_owned();
            proof {
                assert(row_views(rows@) =~= noted(all, probe@, tv, Some(v@)));
            }
            return;
        }
        i = i + 1;
    }
}

// ---- laws ----
/// An ambient FPM target has exactly one row, which claims nothing: no
/// channel, nothing observed, and the static text.
pub proof fn ambient_fpm_is_never_managed(
    ini: IniStore,
    t: TargetView,
    key: Option<Seq<char>>,
    states: Seq<(Seq<char>, FileStateView)>,
)
    requires
        t.id.sapi == PhpSapi::Fpm,
        t.id.provider != PhpProvider::Hearth,
    ensures
        target_rows(ini, t, key, states).len() == 1,
        target_rows(ini, t, key, states)[0].coverage == EXTERNAL_FPM_COVERAGE@,
        target_rows(ini, t, key, states)[0].channel is None,
        target_rows(ini, t, key, states)[0].observed is None,
{
}

pub open spec fn valueless(rows: Seq<RowView>) -> bool {
    forall|i: int|
        0 <= i < rows.len() ==> (#[trigger] rows[i]).configured is None && rows[i].observed is None
            && rows[i].observed_state == "n/a"@
}

proof fn keyless_targets(
    ini: IniStore,
    targets: Seq<TargetView>,
    n: int,
    states: Seq<(Seq<char>, FileStateView)>,
)
    ensures
        valueless(targets_rows(ini, targets, n, None, states)),
    decreases n,
{
    if n > 0 {
        keyless_targets(ini, targets, n - 1, states);
    }
}

/// A report without a key fakes no values: no row has one, configured or
/// observed.
pub proof fn keyless_report_has_no_values(
    ini: IniStore,
    default_php: Seq<char>,
    targets: Seq<TargetView>,
    states: Seq<(Seq<char>, FileStateView)>,
    f: FpmFacts,
    m: ManifestView,
)
    ensures
        valueless(all_rows(ini, default_php, targets, None, states, f, m)),
{
    keyless_targets(ini, targets, targets.len() as int, states);
}

/// A value counts as materialized only where the channel is verified and its
/// file is known to be applied, and then it is the configured value; a blocked
/// or pending file is said so.
pub proof fn materialized_means_applied(
    ini: IniStore,
    t: TargetView,
    normal: bool,
    key: Option<Seq<char>>,
    states: Seq<(Seq<char>, FileStateView)>,
)
    ensures
        ({
            let r = context_row(ini, t, normal, key, states);
            let class = if normal {
                t.normal_channel
            } else {
                t.sanitized_channel
            };
            r.observed is Some ==> class is Verified && class_state(class, states) == Some(
                FileStateView::Applied,
            ) && r.observed == r.configured && r.observed_state == "materialized"@
        }),
{
}

/// Whether a file has the content that the store asks for in the channel of one
/// of the first `n` targets.
pub open spec fn carries_store(
    ini: IniStore,
    targets: Seq<TargetView>,
    n: int,
    d: Disk,
    p: Seq<char>,
) -> bool {
    exists|i: int|
        0 <= i < n && (#[trigger] targets[i]).write_channel is Some && path::key(
            channel_file(targets[i].write_channel->0),
        ) == path::key(p) && facts(d, p).hash == Ok::<Seq<char>, Seq<char>>(
            desired_sha(ini, targets[i].id.version),
        )
}

/// A report that writes nothing counts a channel file as applied only where
/// the file on disk carries what the store asks for.
pub proof fn reported_applied_is_on_disk(
    ini: IniStore,
    targets: Seq<TargetView>,
    n: int,
    m: ManifestView,
    d: Disk,
    p: Seq<char>,
)
    requires
        n <= targets.len(),
        state_of(confirmed_states(m, d, expected_states(ini, targets, n, m)), p) == Some(
            FileStateView::Applied,
        ),
    ensures
        carries_store(ini, targets, n, d, p),
    decreases n,
{
    let all = expected_states(ini, targets, n, m);
    let shown = confirmed_states(m, d, all);
    if n > 0 {
        let before = expected_states(ini, targets, n - 1, m);
        let t = targets[n - 1];
        if all == before {
            reported_applied_is_on_disk(ini, targets, n - 1, m, d, p);
        } else {
            let file = channel_file(t.write_channel->0);
            assert(shown.drop_last() =~= confirmed_states(m, d, before)) by {
                assert(all.drop_last() =~= before);
            }
            if path::key(file) == path::key(p) {
                facts_by_key(d.seen, file, p);
            } else {
                reported_applied_is_on_disk(ini, targets, n - 1, m, d, p);
            }
        }
    }
}

/// A label says exactly what was verified: nothing, that the channel file
/// carries the configured value, or that a launched binary reported the value.
pub open spec fn labelled(r: RowView) -> bool {
    ||| r.observed is None && r.observed_state == "n/a"@
    ||| r.observed is Some && r.observed == r.configured && r.observed_state == "materialized"@
    ||| r.observed is Some && r.observed_state == "launch-probed"@
}

pub open spec fn all_labelled(rows: Seq<RowView>) -> bool {
    forall|i: int| 0 <= i < rows.len() ==> labelled(#[trigger] rows[i])
}

pub open spec fn none_probed(rows: Seq<RowView>) -> bool {
    forall|i: int|
        0 <= i < rows.len() ==> (#[trigger] rows[i]).observed_state != "launch-probed"@
}

proof fn labels_of_targets(
    ini: IniStore,
    targets: Seq<TargetView>,
    n: int,
    key: Option<Seq<char>>,
    states: Seq<(Seq<char>, FileStateView)>,
)
    ensures
        all_labelled(targets_rows(ini, targets, n, key, states)),
        none_probed(targets_rows(ini, targets, n, key, states)),
    decreases n,
{
    reveal_strlit("n/a");
    reveal_strlit("materialized");
    reveal_strlit("launch-probed");
    assert("n/a"@.len() != "launch-probed"@.len());
    assert("materialized"@.len() != "launch-probed"@.len());
    if n > 0 {
        labels_of_targets(ini, targets, n - 1, key, states);
    }
}

/// Before anything is launched no value is called launch-probed, and every
/// label is exact.
pub proof fn built_labels_are_exact(
    ini: IniStore,
    default_php: Seq<char>,
    targets: Seq<TargetView>,
    key: Option<Seq<char>>,
    states: Seq<(Seq<char>, FileStateView)>,
    f: FpmFacts,
    m: ManifestView,
)
    ensures
        all_labelled(all_rows(ini, default_php, targets, key, states, f, m)),
        none_probed(all_rows(ini, default_php, targets, key, states, f, m)),
{
    reveal_strlit("n/a");
    reveal_strlit("launch-probed");
    assert("n/a"@.len() != "launch-probed"@.len());
    labels_of_targets(ini, targets, targets.len() as int, key, states);
}

/// A probe changes at most one row, and only to what the launched binary
/// reported: every label stays exact, and a probe without an answer changes
/// nothing.
pub proof fn probed_labels_are_exact(
    rows: Seq<RowView>,
    probe: LaunchProbeView,
    targets: Seq<TargetView>,
    value: Option<Seq<char>>,
)
    requires
        all_labelled(rows),
    ensures
        all_labelled(noted(rows, probe, targets, value)),
        noted(rows, probe, targets, value).len() == rows.len(),
        value is None ==> noted(rows, probe, targets, value) == rows,
        forall|i: int|
            0 <= i < rows.len() && #[trigger] noted(rows, probe, targets, value)[i] != rows[i]
                ==> is_probed(rows[i], probe, targets) && noted(rows, probe, targets, value)[i] == (
            RowView { observed: value, observed_state: "launch-probed"@, ..rows[i] }),
{
    probed_row_is_probed(rows, probe, targets, 0);
}

proof fn probed_row_is_probed(
    rows: Seq<RowView>,
    probe: LaunchProbeView,
    targets: Seq<TargetView>,
    from: int,
)
    requires
        0 <= from,
    ensures
        probed_row(rows, probe, targets, from) matches Some(i) ==> from <= i < rows.len()
            && is_probed(rows[i], probe, targets),
    decreases rows.len() - from,
{
    if from < rows.len() && !is_probed(rows[from], probe, targets) {
        probed_row_is_probed(rows, probe, targets, from + 1);
    }
}

/// Whether a probe would execute only what may be executed.
pub open spec fn lawful_probe(p: LaunchProbeView, targets: Seq<TargetView>, f: FpmFacts) -> bool {
    match p {
        LaunchProbeView::Cli { target, normal } => 0 <= target < targets.len()
            && targets[target].id.sapi == PhpSapi::Cli && targets[target].identity_verified,
        LaunchProbeView::Fpm { binary } => f.ownership@ is Unowned && !(f.conf@ is Blocked)
            && text::opt_text(f.binary) == Some(binary),
    }
}

proof fn cli_probes_are_lawful(targets: Seq<TargetView>, n: int, f: FpmFacts, i: int)
    requires
        n <= targets.len(),
        0 <= i < cli_probes(targets, n).len(),
    ensures
        lawful_probe(cli_probes(targets, n)[i], targets, f),
    decreases n,
{
    if n > 0 && i < cli_probes(targets, n - 1).len() {
        cli_probes_are_lawful(targets, n - 1, f, i);
    }
}

/// Nothing is executed to observe a value but CLI binaries of verified
/// identity and Hearth's own registrable FPM under proven Unowned ownership:
/// never an unverified binary, never ambient FPM, and nothing at all for a key
/// that is not accepted.
pub proof fn only_verified_binaries_are_probed(
    key: Seq<char>,
    targets: Seq<TargetView>,
    f: FpmFacts,
    i: int,
)
    requires
        0 <= i < planned(key, targets, f).len(),
    ensures
        ini_guard::key_accepted(key),
        lawful_probe(planned(key, targets, f)[i], targets, f),
{
    let n = targets.len() as int;
    if i < cli_probes(targets, n).len() {
        cli_probes_are_lawful(targets, n, f, i);
    }
}

} // verus!
