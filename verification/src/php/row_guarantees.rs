//! What a php-config report promises, said in plain terms: which rows there
//! are, what they say is configured and observed, and what is launched to find
//! out.

use crate::config::{effective, IniStore};
use crate::fs::{self, Disk};
use crate::path;
use crate::php::fpm::StateView;
use crate::php::ini_guard::key_accepted;
use crate::php::manifest::{self, EntryState, LastOutcome, ManifestView, OutcomeView};
use crate::php::reconcile::{hex, rendered, sha256, ActionView};
use crate::php::rows::{
    all_rows, cli_probes, confirmed_state, configured, context_row, coverage, expected_states,
    fpm_probe, is_probed, manifest_state, noted, planned, predates, probed_row, reported_states,
    service_rows, state_of, target_rows, targets_rows, wired_files, with_failures, FileStateView,
    FpmFacts, LaunchProbeView,
};
use crate::php::targets::{ClassView, PhpProvider, PhpSapi, TargetView};
use crate::service::supervisor::OwnershipView;
use crate::socket::{FileResultView, FileView, RowView};
use crate::strmap::listing;
use vstd::prelude::*;

verus! {

// ---- which rows there are ----
/// What a provider is called in a report.
pub open spec fn called(p: PhpProvider) -> Seq<char> {
    match p {
        PhpProvider::Hearth => "hearth"@,
        PhpProvider::Herd => "herd"@,
        PhpProvider::Homebrew => "homebrew"@,
    }
}

/// The value in force of a key: the override of the version, or else the
/// global one.
pub open spec fn in_force(ini: IniStore, version: Seq<char>, key: Seq<char>) -> Option<Seq<char>> {
    if ini.overrides.dom().contains(version) && ini.overrides[version].dom().contains(key) {
        Some(ini.overrides[version][key])
    } else if ini.global.dom().contains(key) {
        Some(ini.global[key])
    } else {
        None
    }
}

/// Whether a row is the one of a target in a context.
pub open spec fn is_row_of(
    r: RowView,
    ini: IniStore,
    t: TargetView,
    context: Seq<char>,
    class: ClassView,
    key: Option<Seq<char>>,
) -> bool {
    &&& r.provider == called(t.id.provider)
    &&& r.version == t.id.version
    &&& r.sapi == "cli"@
    &&& r.context == context
    &&& r.channel == match class {
        ClassView::Verified { dir } => Some(dir),
        ClassView::PrivilegedDir { dir } => Some(dir),
        ClassView::BestEffort { reason } => None,
    }
    &&& key matches Some(k) ==> r.configured == in_force(ini, t.id.version, k)
    &&& key is None ==> r.configured is None
    &&& !r.pending_restart
}

/// Every command-line target has a row for each of its two contexts, and every
/// FPM that is not Hearth's one as an external one.
pub proof fn every_target_has_its_rows(
    ini: IniStore,
    default_php: Seq<char>,
    targets: Seq<TargetView>,
    key: Option<Seq<char>>,
    states: Seq<(Seq<char>, FileStateView)>,
    f: FpmFacts,
    m: ManifestView,
    k: int,
)
    requires
        0 <= k < targets.len(),
    ensures
        ({
            let rows = all_rows(ini, default_php, targets, key, states, f, m);
            let t = targets[k];
            &&& t.id.sapi == PhpSapi::Cli ==> (exists|i: int|
                0 <= i < rows.len() && is_row_of(
                    #[trigger] rows[i],
                    ini,
                    t,
                    "normal"@,
                    t.normal_channel,
                    key,
                )) && (exists|i: int|
                0 <= i < rows.len() && is_row_of(
                    #[trigger] rows[i],
                    ini,
                    t,
                    "sanitized"@,
                    t.sanitized_channel,
                    key,
                ))
            &&& t.id.sapi == PhpSapi::Fpm && t.id.provider != PhpProvider::Hearth ==> exists|i: int|
                0 <= i < rows.len() && (#[trigger] rows[i]).provider == called(t.id.provider)
                    && rows[i].version == t.id.version && rows[i].sapi == "fpm"@ && rows[i].context
                    == "external"@ && rows[i].channel is None && rows[i].observed is None
        }),
{
    let rows = all_rows(ini, default_php, targets, key, states, f, m);
    let front = targets_rows(ini, targets, targets.len() as int, key, states);
    let t = targets[k];
    let mine = target_rows(ini, t, key, states);
    let at = rows_begin(ini, targets, targets.len() as int, key, states, k);
    if t.id.sapi == PhpSapi::Cli {
        assert(front[at + 0] == mine[0]);
        assert(front[at + 1] == mine[1]);
        assert(rows[at] == front[at]);
        assert(rows[at + 1] == front[at + 1]);
        assert(is_row_of(rows[at], ini, t, "normal"@, t.normal_channel, key));
        assert(is_row_of(rows[at + 1], ini, t, "sanitized"@, t.sanitized_channel, key));
    } else if t.id.provider != PhpProvider::Hearth {
        assert(front[at + 0] == mine[0]);
        assert(rows[at] == front[at]);
        assert(rows[at].context == "external"@);
    }
}

proof fn rows_begin(
    ini: IniStore,
    targets: Seq<TargetView>,
    n: int,
    key: Option<Seq<char>>,
    states: Seq<(Seq<char>, FileStateView)>,
    k: int,
) -> (at: int)
    requires
        0 <= k < n <= targets.len(),
    ensures
        0 <= at,
        at + target_rows(ini, targets[k], key, states).len() <= targets_rows(
            ini,
            targets,
            n,
            key,
            states,
        ).len(),
        forall|i: int|
            0 <= i < target_rows(ini, targets[k], key, states).len() ==> #[trigger] targets_rows(
                ini,
                targets,
                n,
                key,
                states,
            )[at + i] == target_rows(ini, targets[k], key, states)[i],
    decreases n,
{
    let before = targets_rows(ini, targets, n - 1, key, states);
    let all = targets_rows(ini, targets, n, key, states);
    if k == n - 1 {
        before.len() as int
    } else {
        let at = rows_begin(ini, targets, n - 1, key, states, k);
        let mine = target_rows(ini, targets[k], key, states);
        assert forall|i: int| 0 <= i < mine.len() implies #[trigger] all[at + i] == mine[i] by {
            assert(all[at + i] == before[at + i]);
        }
        at
    }
}

/// A report has two rows per command-line target, one per foreign FPM, and one
/// for Hearth's own FPM unless Herd owns it; there are no others.
pub proof fn there_are_no_other_rows(
    ini: IniStore,
    default_php: Seq<char>,
    targets: Seq<TargetView>,
    key: Option<Seq<char>>,
    states: Seq<(Seq<char>, FileStateView)>,
    f: FpmFacts,
    m: ManifestView,
)
    ensures
        all_rows(ini, default_php, targets, key, states, f, m).len() == row_count(
            targets,
            targets.len() as int,
        ) + if f.ownership@ is Owned {
            0int
        } else {
            1
        },
{
    count_rows(ini, targets, targets.len() as int, key, states);
}

/// How many rows the first `n` targets have.
pub open spec fn row_count(targets: Seq<TargetView>, n: int) -> int
    decreases n,
{
    if n <= 0 {
        0
    } else {
        let t = targets[n - 1];
        row_count(targets, n - 1) + if t.id.sapi == PhpSapi::Cli {
            2int
        } else if t.id.provider == PhpProvider::Hearth {
            0
        } else {
            1
        }
    }
}

proof fn count_rows(
    ini: IniStore,
    targets: Seq<TargetView>,
    n: int,
    key: Option<Seq<char>>,
    states: Seq<(Seq<char>, FileStateView)>,
)
    ensures
        targets_rows(ini, targets, n, key, states).len() == row_count(targets, n),
    decreases n,
{
    if n > 0 {
        count_rows(ini, targets, n - 1, key, states);
    }
}

// ---- what a row says ----
/// A value is materialized, and told as observed, exactly where it is
/// configured, the context's channel is verified, and the channel's file is
/// applied.
pub proof fn materialized_exactly_where_applied(
    ini: IniStore,
    t: TargetView,
    normal: bool,
    key: Seq<char>,
    states: Seq<(Seq<char>, FileStateView)>,
)
    ensures
        ({
            let r = context_row(ini, t, normal, Some(key), states);
            let class = if normal {
                t.normal_channel
            } else {
                t.sanitized_channel
            };
            let value = in_force(ini, t.id.version, key);
            let applied = class matches ClassView::Verified { dir } && state_of(
                states,
                path::joined(dir, "zz-hearth.ini"@),
            ) == Some(FileStateView::Applied);
            &&& value is Some && applied ==> r.observed == value && r.observed_state
                == "materialized"@
            &&& !(value is Some && applied) ==> r.observed is None && r.observed_state == "n/a"@
        }),
{
    if in_force(ini, t.id.version, key) is Some {
        assert(effective(ini, t.id.version).dom().contains(key));
    }
}

/// What is said of a verified channel: that it is managed, with the
/// environment's part in it for the normal context, and whether its file is
/// blocked or still to be written; a privileged directory and a best effort
/// are said to be unmanaged.
pub proof fn coverage_is_said(
    normal: bool,
    dir: Seq<char>,
    env_honored: bool,
    state: Option<FileStateView>,
    expected: bool,
    reason: Seq<char>,
)
    ensures
        ({
            let said = coverage(normal, ClassView::Verified { dir }, env_honored, state, expected);
            let base = if !normal {
                "managed (channel)"@
            } else if env_honored {
                "managed (channel+env)"@
            } else {
                "managed (channel; env ignored)"@
            };
            &&& !expected || state is None || state == Some(FileStateView::Applied) ==> said == base
            &&& expected && state == Some(FileStateView::SyncPending) ==> said == base
                + " (sync pending)"@
            &&& expected && (state matches Some(FileStateView::Blocked(_))) ==> said
                == "managed* — channel blocked: "@ + path::joined(dir, "zz-hearth.ini"@)
        }),
        coverage(normal, ClassView::PrivilegedDir { dir }, env_honored, state, expected)
            == "UNMANAGED: privileged-dir"@,
        coverage(normal, ClassView::BestEffort { reason }, env_honored, state, expected)
            == "unmanaged: best-effort ("@ + reason + ")"@,
{
}

/// The row of Hearth's own FPM: blocked for the reason that its configuration
/// gives or for want of a binary, supervised otherwise, and unknown where
/// ownership is; none while Herd owns FPM.
pub proof fn service_row_is_truthful(
    ini: IniStore,
    default_php: Seq<char>,
    targets: Seq<TargetView>,
    key: Option<Seq<char>>,
    states: Seq<(Seq<char>, FileStateView)>,
    f: FpmFacts,
    m: ManifestView,
)
    ensures
        !(f.ownership@ is Owned) ==> {
            let rows = all_rows(ini, default_php, targets, key, states, f, m);
            let r = rows.last();
            &&& rows.len() > 0
            &&& r.provider == "hearth"@ && r.version == default_php && r.sapi == "fpm"@
            &&& r.context == "launched"@ && r.channel is None && r.observed is None
            &&& key matches Some(k) ==> r.configured == in_force(ini, default_php, k)
            &&& r.pending_restart <==> (f.started_at is Some && exists|i: int|
                0 <= i < m.files.len() && (#[trigger] m.files[i]).applied_at_unix_ms is Some
                    && f.started_at->0 < m.files[i].applied_at_unix_ms->0)
            &&& f.ownership@ is Unowned ==> {
                &&& f.conf@ matches StateView::Blocked { reason } ==> r.coverage
                    == "LAUNCH-BLOCKED: "@ + reason
                &&& !(f.conf@ is Blocked) && f.binary is None ==> r.coverage
                    == "LAUNCH-BLOCKED: php-fpm binary for "@ + default_php + " not found"@
                &&& f.binary is Some ==> (f.conf@ matches StateView::HearthOwned {
                    conf,
                    conf_sha256,
                    probe_sha256,
                    listen,
                } ==> r.coverage == "supervised (scan-dir env at launch; listen: "@ + listen + ")"@)
            }
            &&& f.ownership@ matches OwnershipView::Unknown(diag) ==> r.coverage
                == "OWNERSHIP-UNKNOWN: "@ + diag
                + " — FPM activation fails closed; fix the ownership probe and retry"@
        },
        f.ownership@ is Owned ==> service_rows(
            ini,
            default_php,
            key,
            f.ownership@,
            f.conf@,
            f.binary is Some,
            predates(f.started_at, m),
        ).len() == 0,
{
    let rows = all_rows(ini, default_php, targets, key, states, f, m);
    let own = service_rows(
        ini,
        default_php,
        key,
        f.ownership@,
        f.conf@,
        f.binary is Some,
        predates(f.started_at, m),
    );
    if !(f.ownership@ is Owned) {
        assert(own.len() == 1);
        assert(rows.last() == own[0]);
        if predates(f.started_at, m) {
            let i = choose|i: int|
                0 <= i < m.files.len() && (#[trigger] m.files[i]).applied_at_unix_ms is Some
                    && m.files[i].applied_at_unix_ms->0 > f.started_at->0;
            assert(m.files[i].applied_at_unix_ms is Some);
        }
        if f.started_at is Some && exists|i: int|
            0 <= i < m.files.len() && (#[trigger] m.files[i]).applied_at_unix_ms is Some
                && f.started_at->0 < m.files[i].applied_at_unix_ms->0 {
            let i = choose|i: int|
                0 <= i < m.files.len() && (#[trigger] m.files[i]).applied_at_unix_ms is Some
                    && f.started_at->0 < m.files[i].applied_at_unix_ms->0;
            assert(m.files[i].applied_at_unix_ms->0 > f.started_at->0);
        }
    }
}

// ---- states of files ----
/// A file is applied by the manifest where its row is settled, was neither
/// refused nor failed last, and has the hash of what the store asks for; a
/// refusal or failure blocks it; anything else is still to be written.
pub proof fn file_state_is_by_its_row(m: ManifestView, file: Seq<char>, desired: Seq<char>, i: int)
    ensures
        manifest::is_slot(m.files, file, i) ==> {
            let e = m.files[i];
            let s = manifest_state(m, file, desired);
            &&& e.last_outcome == LastOutcome::Refused || e.last_outcome == LastOutcome::Failed
                ==> s is Blocked
            &&& e.last_outcome != LastOutcome::Refused && e.last_outcome != LastOutcome::Failed ==> (
            s is Applied <==> e.state == EntryState::Applied && e.sha256 == desired)
            &&& e.last_outcome != LastOutcome::Refused && e.last_outcome != LastOutcome::Failed
                ==> !(s is Blocked)
        },
        (forall|j: int| 0 <= j < m.files.len() ==> path::key((#[trigger] m.files[j]).path) != path::key(file))
            ==> manifest_state(m, file, desired) is SyncPending,
{
    if manifest::is_slot(m.files, file, i) {
        manifest::slot_is(m.files, file, i);
    }
}

/// Every target that may be written for, and whose version has directives, has
/// the state of its file told.
pub proof fn every_expected_file_has_a_state(
    ini: IniStore,
    targets: Seq<TargetView>,
    n: int,
    m: ManifestView,
    k: int,
)
    requires
        0 <= k < n <= targets.len(),
        targets[k].write_channel is Some,
        effective(ini, targets[k].id.version) != Map::<Seq<char>, Seq<char>>::empty(),
    ensures
        state_of(
            expected_states(ini, targets, n, m),
            path::joined(targets[k].write_channel->0, "zz-hearth.ini"@),
        ) is Some,
    decreases n,
{
    let p = path::joined(targets[k].write_channel->0, "zz-hearth.ini"@);
    let before = expected_states(ini, targets, n - 1, m);
    let all = expected_states(ini, targets, n, m);
    if k < n - 1 {
        every_expected_file_has_a_state(ini, targets, n - 1, m, k);
    }
    if all != before {
        assert(all.drop_last() =~= before);
    }
}

/// The first target that writes a file decides what it should hold: the state
/// of the file is that by the hash of the target's directives, rendered.
pub proof fn expected_state_is_by_the_first_writer(
    ini: IniStore,
    targets: Seq<TargetView>,
    n: int,
    m: ManifestView,
    k: int,
)
    requires
        0 <= k < n <= targets.len(),
        targets[k].write_channel is Some,
        effective(ini, targets[k].id.version) != Map::<Seq<char>, Seq<char>>::empty(),
        forall|j: int|
            0 <= j < k && (#[trigger] targets[j]).write_channel is Some ==> path::key(
                path::joined(targets[j].write_channel->0, "zz-hearth.ini"@),
            ) != path::key(path::joined(targets[k].write_channel->0, "zz-hearth.ini"@)),
    ensures
        ({
            let p = path::joined(targets[k].write_channel->0, "zz-hearth.ini"@);
            state_of(expected_states(ini, targets, n, m), p) == Some(
                manifest_state(
                    m,
                    p,
                    hex(
                        sha256(
                            vstd::utf8::encode_utf8(
                                rendered(listing(effective(ini, targets[k].id.version))),
                            ),
                        ),
                    ),
                ),
            )
        }),
    decreases n,
{
    let p = path::joined(targets[k].write_channel->0, "zz-hearth.ini"@);
    let before = expected_states(ini, targets, n - 1, m);
    let all = expected_states(ini, targets, n, m);
    if k == n - 1 {
        no_state_yet(ini, targets, n - 1, m, p);
        assert(all.last().0 == p);
    } else {
        expected_state_is_by_the_first_writer(ini, targets, n - 1, m, k);
        if all != before {
            assert(all.drop_last() =~= before);
            let q = all.last().0;
            assert(state_of(before, q) is None);
            if path::key(q) == path::key(p) {
                same_state(before, p, q);
            }
        }
    }
}

proof fn same_state(states: Seq<(Seq<char>, FileStateView)>, p: Seq<char>, q: Seq<char>)
    requires
        path::key(p) == path::key(q),
    ensures
        state_of(states, p) == state_of(states, q),
    decreases states.len(),
{
    if states.len() > 0 {
        same_state(states.drop_last(), p, q);
    }
}

proof fn no_state_yet(
    ini: IniStore,
    targets: Seq<TargetView>,
    n: int,
    m: ManifestView,
    p: Seq<char>,
)
    requires
        0 <= n <= targets.len(),
        forall|j: int|
            0 <= j < n && (#[trigger] targets[j]).write_channel is Some ==> path::key(
                path::joined(targets[j].write_channel->0, "zz-hearth.ini"@),
            ) != path::key(p),
    ensures
        state_of(expected_states(ini, targets, n, m), p) is None,
    decreases n,
{
    if n > 0 {
        no_state_yet(ini, targets, n - 1, m, p);
        let before = expected_states(ini, targets, n - 1, m);
        let all = expected_states(ini, targets, n, m);
        if all != before {
            assert(all.drop_last() =~= before);
            assert(targets[n - 1].write_channel is Some);
        }
    }
}

/// What the disk does not bear out is not applied; every other state stays.
pub proof fn disk_can_only_take_back(m: ManifestView, d: Disk, p: Seq<char>, s: FileStateView, i: int)
    ensures
        s is Blocked || s is SyncPending ==> confirmed_state(m, d, p, s) == s,
        manifest::is_slot(m.files, p, i) ==> (confirmed_state(m, d, p, s) is Applied <==> s
            is Applied && fs::facts(d, p).hash == Ok::<Seq<char>, Seq<char>>(m.files[i].sha256)),
        s is Applied && !(confirmed_state(m, d, p, s) is Applied) ==> confirmed_state(m, d, p, s)
            is SyncPending,
{
    if manifest::is_slot(m.files, p, i) {
        manifest::slot_is(m.files, p, i);
    }
}

/// After a reconcile a file that was refused or failed is blocked for the
/// reason given, and any other is applied; what is reported to the user is
/// what was done.
pub proof fn reported_states_are_the_outcomes(actions: Seq<ActionView>, i: int)
    requires
        0 <= i < actions.len(),
    ensures
        ({
            let s = reported_states(actions);
            let w = wired_files(actions);
            let o = actions[i].outcome;
            &&& s.len() == actions.len() && w.len() == actions.len()
            &&& s[i].0 == actions[i].path && w[i].path == actions[i].path
            &&& o matches OutcomeView::Refused { reason } ==> s[i].1 == FileStateView::Blocked(
                reason,
            ) && w[i].result == (FileResultView::Refused { reason })
            &&& o matches OutcomeView::Failed { error } ==> s[i].1 == FileStateView::Blocked(error)
                && w[i].result == (FileResultView::Failed { error })
            &&& o is Written ==> s[i].1 is Applied && w[i].result is Written
            &&& o is Unchanged ==> s[i].1 is Applied && w[i].result is Unchanged
            &&& o is Deleted ==> s[i].1 is Applied && w[i].result is Deleted
        }),
{
}

/// A channel directory that could not be created blocks its path.
pub proof fn failed_directories_are_blocked(
    states: Seq<(Seq<char>, FileStateView)>,
    failures: Seq<FileView>,
    i: int,
)
    requires
        0 <= i < failures.len(),
    ensures
        failures[i].result matches FileResultView::Failed { error } ==> with_failures(
            states,
            failures,
        ).contains((failures[i].path, FileStateView::Blocked(error))),
    decreases failures.len(),
{
    if let FileResultView::Failed { error } = failures[i].result {
        let want = (failures[i].path, FileStateView::Blocked(error));
        let before = with_failures(states, failures.drop_last());
        let all = with_failures(states, failures);
        if i == failures.len() - 1 {
            assert(all[before.len() as int] == want);
        } else {
            assert(failures.drop_last()[i] == failures[i]);
            failed_directories_are_blocked(states, failures.drop_last(), i);
            let k = choose|k: int| 0 <= k < before.len() && before[k] == want;
            assert(all[k] == want);
        }
    }
}

// ---- what is launched ----
/// For a key that the guard accepts, every verified command-line binary is
/// launched in both of its contexts, and Hearth's own FPM where it may be and
/// can be; for any other key nothing is.
pub proof fn every_verified_binary_is_probed(
    key: Seq<char>,
    targets: Seq<TargetView>,
    f: FpmFacts,
    k: int,
)
    ensures
        key_accepted(key) && 0 <= k < targets.len() && targets[k].id.sapi == PhpSapi::Cli
            && targets[k].identity_verified ==> planned(key, targets, f).contains(
            LaunchProbeView::Cli { target: k, normal: true },
        ) && planned(key, targets, f).contains(LaunchProbeView::Cli { target: k, normal: false }),
        key_accepted(key) && f.ownership@ is Unowned && !(f.conf@ is Blocked) ==> (f.binary matches Some(
            b,
        ) ==> planned(key, targets, f).contains(LaunchProbeView::Fpm { binary: b@ })),
        !key_accepted(key) ==> planned(key, targets, f).len() == 0,
{
    let all = planned(key, targets, f);
    let front = cli_probes(targets, targets.len() as int);
    if key_accepted(key) {
        if 0 <= k < targets.len() && targets[k].id.sapi == PhpSapi::Cli && targets[k].identity_verified {
            let at = cli_probe_at(targets, targets.len() as int, k);
            assert(all[at] == front[at]);
            assert(all[at + 1] == front[at + 1]);
        }
        if f.ownership@ is Unowned && !(f.conf@ is Blocked) && f.binary is Some {
            assert(all[front.len() as int] == fpm_probe(f)[0]);
        }
    }
}

proof fn cli_probe_at(targets: Seq<TargetView>, n: int, k: int) -> (at: int)
    requires
        0 <= k < n <= targets.len(),
        targets[k].id.sapi == PhpSapi::Cli,
        targets[k].identity_verified,
    ensures
        0 <= at,
        at + 1 < cli_probes(targets, n).len(),
        cli_probes(targets, n)[at] == (LaunchProbeView::Cli { target: k, normal: true }),
        cli_probes(targets, n)[at + 1] == (LaunchProbeView::Cli { target: k, normal: false }),
    decreases n,
{
    if k == n - 1 {
        cli_probes(targets, n - 1).len() as int
    } else {
        cli_probe_at(targets, n - 1, k)
    }
}

/// What a launched binary reported is told in the first row of its target and
/// context, as probed; no other row changes.
pub proof fn probed_value_is_told(
    rows: Seq<RowView>,
    targets: Seq<TargetView>,
    k: int,
    normal: bool,
    value: Seq<char>,
    i: int,
)
    requires
        0 <= k < targets.len(),
        0 <= i < rows.len(),
        of_context(rows[i], targets[k], normal),
        forall|j: int| 0 <= j < i ==> !of_context(#[trigger] rows[j], targets[k], normal),
    ensures
        noted(rows, LaunchProbeView::Cli { target: k, normal }, targets, Some(value))
            == rows.update(
            i,
            RowView { observed: Some(value), observed_state: "launch-probed"@, ..rows[i] },
        ),
{
    let probe = LaunchProbeView::Cli { target: k, normal };
    assert forall|j: int| 0 <= j < rows.len() implies is_probed(#[trigger] rows[j], probe, targets)
        == of_context(rows[j], targets[k], normal) by {}
    first_probed(rows, probe, targets, 0, i);
}

/// Whether a row is that of a command-line target in a context.
pub open spec fn of_context(r: RowView, t: TargetView, normal: bool) -> bool {
    &&& r.provider == called(t.id.provider)
    &&& r.version == t.id.version
    &&& r.sapi == "cli"@
    &&& r.context == if normal {
        "normal"@
    } else {
        "sanitized"@
    }
}

proof fn first_probed(
    rows: Seq<RowView>,
    probe: LaunchProbeView,
    targets: Seq<TargetView>,
    from: int,
    i: int,
)
    requires
        0 <= from <= i < rows.len(),
        is_probed(rows[i], probe, targets),
        forall|j: int| from <= j < i ==> !is_probed(#[trigger] rows[j], probe, targets),
    ensures
        probed_row(rows, probe, targets, from) == Some(i),
    decreases i - from,
{
    if from < i {
        first_probed(rows, probe, targets, from + 1, i);
    }
}

/// What Hearth's own FPM reported is told in its row.
pub proof fn probed_fpm_value_is_told(
    rows: Seq<RowView>,
    targets: Seq<TargetView>,
    binary: Seq<char>,
    value: Seq<char>,
    i: int,
)
    requires
        0 <= i < rows.len(),
        rows[i].sapi == "fpm"@ && rows[i].context == "launched"@,
        forall|j: int|
            0 <= j < i ==> !((#[trigger] rows[j]).sapi == "fpm"@ && rows[j].context == "launched"@),
    ensures
        noted(rows, LaunchProbeView::Fpm { binary }, targets, Some(value)) == rows.update(
            i,
            RowView { observed: Some(value), observed_state: "launch-probed"@, ..rows[i] },
        ),
{
    first_probed(rows, LaunchProbeView::Fpm { binary }, targets, 0, i);
}

/// The latest state that is recorded for a file, under any spelling, is the one
/// that counts.
pub proof fn latest_state_counts(
    states: Seq<(Seq<char>, FileStateView)>,
    p: Seq<char>,
    s: FileStateView,
    q: Seq<char>,
)
    ensures
        path::key(p) == path::key(q) ==> state_of(states.push((p, s)), q) == Some(s),
        path::key(p) != path::key(q) ==> state_of(states.push((p, s)), q) == state_of(states, q),
        state_of(Seq::empty(), q) is None,
{
    assert(states.push((p, s)).drop_last() =~= states);
}

/// A foreign FPM, and one with the user's own configuration, are told as what
/// they are.
pub proof fn foreign_configurations_are_told(
    ini: IniStore,
    t: TargetView,
    key: Option<Seq<char>>,
    states: Seq<(Seq<char>, FileStateView)>,
    conf: Seq<char>,
    default_php: Seq<char>,
)
    ensures
        t.id.sapi == PhpSapi::Fpm && t.id.provider != PhpProvider::Hearth ==> target_rows(
            ini,
            t,
            key,
            states,
        ).len() == 1 && target_rows(ini, t, key, states)[0].coverage
            == "unverified: ambient/external FPM launch context cannot be authenticated — Hearth never writes on its behalf and never executes it; use Hearth's supervised FPM for managed/live-observed coverage"@,
        service_rows(
            ini,
            default_php,
            key,
            OwnershipView::Unowned,
            StateView::UserManaged { conf },
            true,
            false,
        )[0].coverage
            == "supervised (user-managed fpm config — live observation requires Hearth-generated config; remove/rename it and run --sync to adopt)"@,
{
}

} // verus!
