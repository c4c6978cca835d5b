//! What a php-config command promises, said in plain terms: what may be set,
//! what setting it does, in which order a run goes, and what it tells.

use crate::config::{effective, IniStore};
use crate::path;
use crate::php::assembly::{missing_channels, probeable, target_of};
use crate::php::engine::{
    blank, engine_begin, engine_next, fpm_files, gated, mutation_begin, observation_begin, probing,
    reconciled, report_of, restart_choice, restart_told, rowed, settled, switch_begin, switch_next,
    switch_told, targeted, EngineHost, EngineJobView, EngineReplyView, EngineStageView, EngineView,
    RestartChoiceView, SwitchReplyView, SwitchView, World,
};
use crate::php::fpm::{MaterializeView, StateView};
use crate::php::ini_guard::{
    denied, fault_said, key_accepted, key_fault, value_accepted, value_fault, IniFault, DENIED_KEYS,
};
use crate::php::mutation::{mutated, mutation_refusal, scope_version, version_refusal};
use crate::php::reconcile::ActionView;
use crate::php::roots::RootsView;
use crate::php::rows::{
    all_rows, confirmed_states, expected_states, noted, planned, reported_states, wired,
    wired_files, with_failures,
};
use crate::php::targets::{discoveries, unprobed, ProbeView};
use crate::scan;
use crate::service::supervisor::{OwnershipView, ReplaceOutcomeView, RestartOutcomeView};
use crate::socket::{
    hard_lines, ConfigActionView, ConfigOutcomeView, FileResultView, FileView, FpmOutcomeView,
    ScopeView,
};
use crate::text;
use vstd::prelude::*;

verus! {

// ---- what may be set ----
/// Whether a character may start a key.
pub open spec fn starts_key(c: char) -> bool {
    ('a' <= c && c <= 'z') || ('A' <= c && c <= 'Z') || c == '_'
}

/// Whether a character may stand in a key.
pub open spec fn goes_in_key(c: char) -> bool {
    starts_key(c) || ('0' <= c && c <= '9') || c == '.'
}

/// A key is accepted exactly where it is a name of letters, digits,
/// underscores and dots that starts with a letter or underscore, has at most
/// 128 characters, and is none of those that load or execute code, in any
/// case.
pub proof fn keys_are_accepted_by_rule(k: Seq<char>)
    ensures
        key_fault(k) is None <==> {
            let low = text::ascii_lower(k);
            &&& 0 < k.len() <= 128
            &&& starts_key(k[0])
            &&& forall|i: int| 0 < i < k.len() ==> goes_in_key(#[trigger] k[i])
            &&& low != "extension"@ && low != "zend_extension"@ && low != "extension_dir"@
            &&& low != "auto_prepend_file"@ && low != "auto_append_file"@ && low != "sendmail_path"@
        },
        key_fault(k) is None <==> key_accepted(k),
{
    let low = text::ascii_lower(k);
    assert(denied(k) <==> low == "extension"@ || low == "zend_extension"@ || low
        == "extension_dir"@ || low == "auto_prepend_file"@ || low == "auto_append_file"@ || low
        == "sendmail_path"@) by {
        assert(DENIED_KEYS@[0]@ == "extension"@);
        assert(DENIED_KEYS@[1]@ == "zend_extension"@);
        assert(DENIED_KEYS@[2]@ == "extension_dir"@);
        assert(DENIED_KEYS@[3]@ == "auto_prepend_file"@);
        assert(DENIED_KEYS@[4]@ == "auto_append_file"@);
        assert(DENIED_KEYS@[5]@ == "sendmail_path"@);
    }
}

/// A value is accepted exactly where it has at most 1024 characters, none of
/// them a control character, and does not start with `[` behind white space.
pub proof fn values_are_accepted_by_rule(v: Seq<char>)
    ensures
        value_fault(v) is None <==> {
            &&& v.len() <= 1024
            &&& forall|i: int|
                0 <= i < v.len() ==> '\u{1f}' < #[trigger] v[i] && (v[i] < '\u{7f}' || '\u{9f}'
                    < v[i])
            &&& forall|i: int|
                0 <= i < v.len() && #[trigger] v[i] == '[' ==> exists|j: int|
                    0 <= j < i && !text::whitespace(#[trigger] v[j])
        },
        value_fault(v) is None <==> value_accepted(v),
{
}

/// A set or unset is refused exactly where the key is not accepted, the value
/// that is to be set is not, or the version that it names is not made of digits
/// and dots with a dot among them.
pub proof fn mutations_are_refused_by_rule(
    scope: ScopeView,
    key: Seq<char>,
    value: Option<Seq<char>>,
)
    ensures
        mutation_refusal(scope, key, value) is None <==> {
            &&& key_accepted(key)
            &&& value matches Some(v) ==> value_accepted(v)
            &&& scope matches ScopeView::Version { version } ==> version.contains('.') && (forall|
                i: int,
            |
                0 <= i < version.len() ==> ('0' <= #[trigger] version[i] && version[i] <= '9')
                    || version[i] == '.')
        },
{
    keys_are_accepted_by_rule(key);
    if let Some(v) = value {
        values_are_accepted_by_rule(v);
    }
}

// ---- what setting does ----
/// A set that is accepted is saved before anything else, and puts its value in
/// force: for every version without an override of the key where the scope is
/// global, for the version named, or for the active one; it changes nothing
/// else.
pub proof fn accepted_set_is_in_force(
    scope: ScopeView,
    key: Seq<char>,
    value: Seq<char>,
    store: IniStore,
    default_php: Seq<char>,
    asked: Seq<char>,
    other: Seq<char>,
)
    requires
        mutation_refusal(scope, key, Some(value)) is None,
    ensures
        ({
            let run = mutation_begin(scope, key, Some(value), store, default_php);
            let own = store.overrides.dom().contains(asked) && store.overrides[asked].dom().contains(
                key,
            );
            let after = effective(run.store, asked);
            let before = effective(store, asked);
            let here = match scope {
                ScopeView::Global => !own,
                ScopeView::Version { version } => version == asked,
                ScopeView::Active => default_php == asked,
            };
            &&& run.stage == (EngineStageView::Saving { prior: store })
            &&& run.job == (EngineJobView::Mutate { key })
            &&& here ==> after.dom().contains(key) && after[key] == value
            &&& !here ==> (after.dom().contains(key) <==> before.dom().contains(key)) && (
            before.dom().contains(key) ==> after[key] == before[key])
            &&& other != key ==> (after.dom().contains(other) <==> before.dom().contains(other)) && (
            before.dom().contains(other) ==> after[other] == before[other])
        }),
{
}

/// An unset that is accepted takes the value of its scope away: a global one
/// leaves every version its override, one for a version leaves it the global
/// value; it changes nothing else.
pub proof fn accepted_unset_takes_away(
    scope: ScopeView,
    key: Seq<char>,
    store: IniStore,
    default_php: Seq<char>,
    asked: Seq<char>,
    other: Seq<char>,
)
    requires
        mutation_refusal(scope, key, None) is None,
    ensures
        ({
            let run = mutation_begin(scope, key, None, store, default_php);
            let own = store.overrides.dom().contains(asked) && store.overrides[asked].dom().contains(
                key,
            );
            let shared = store.global.dom().contains(key);
            let after = effective(run.store, asked);
            let before = effective(store, asked);
            let here = match scope {
                ScopeView::Global => false,
                ScopeView::Version { version } => version == asked,
                ScopeView::Active => default_php == asked,
            };
            &&& run.stage == (EngineStageView::Saving { prior: store })
            &&& scope is Global ==> (after.dom().contains(key) <==> own) && (own ==> after[key]
                == store.overrides[asked][key])
            &&& here ==> (after.dom().contains(key) <==> shared) && (shared ==> after[key]
                == store.global[key])
            &&& !(scope is Global) && !here ==> (after.dom().contains(key)
                <==> before.dom().contains(key)) && (before.dom().contains(key) ==> after[key]
                == before[key])
            &&& other != key ==> (after.dom().contains(other) <==> before.dom().contains(other)) && (
            before.dom().contains(other) ==> after[other] == before[other])
        }),
{
    let version = scope_version(scope, default_php);
    let after = mutated(store, version, key, None);
    if let Some(v) = version {
        if store.overrides.dom().contains(v) {
            let left = store.overrides[v].remove(key);
            if left == Map::<Seq<char>, Seq<char>>::empty() {
                assert(!left.dom().contains(other));
                assert(other != key ==> !store.overrides[v].dom().contains(other));
            }
        }
    }
}

// ---- how a run goes ----
/// Each command starts its own kind of run: setting and unsetting with the
/// save, showing and status by looking, a sync with the guard of the
/// manifest's directory, and unmanaging with the channel files.
pub proof fn commands_start_their_runs(
    scope: ScopeView,
    key: Seq<char>,
    value: Seq<char>,
    asked: Option<Seq<char>>,
    token: Option<Seq<char>>,
    store: IniStore,
    default_php: Seq<char>,
    roots: RootsView,
    w: World,
)
    ensures
        engine_begin(
            ConfigActionView::SetValue { scope, key, value },
            store,
            default_php,
            roots,
            w,
        ) == mutation_begin(scope, key, Some(value), store, default_php),
        engine_begin(ConfigActionView::Unset { scope, key }, store, default_php, roots, w)
            == mutation_begin(scope, key, None, store, default_php),
        engine_begin(ConfigActionView::Show { key: asked }, store, default_php, roots, w)
            == observation_begin(asked, false, None, store, default_php, roots, w),
        engine_begin(ConfigActionView::Status { key: asked, token }, store, default_php, roots, w)
            == observation_begin(asked, true, token, store, default_php, roots, w),
        ({
            let v = engine_begin(ConfigActionView::Sync, store, default_php, roots, w);
            v.stage is Guarding && v.job == (EngineJobView::Sync { fpm: true }) && v.store == store
        }),
        ({
            let v = engine_begin(ConfigActionView::Unmanage, store, default_php, roots, w);
            v.stage is RemovingIni && v.job is Unmanage && v.store == store
        }),
{
}

/// A look is refused only where it asks for a key that is not accepted.
pub proof fn look_is_refused_by_key(
    key: Option<Seq<char>>,
    echo: bool,
    token: Option<Seq<char>>,
    store: IniStore,
    default_php: Seq<char>,
    roots: RootsView,
    w: World,
)
    ensures
        ({
            let v = observation_begin(key, echo, token, store, default_php, roots, w);
            &&& key matches Some(k) ==> (!key_accepted(k) ==> report_of(v) is Err)
            &&& key is None || key_accepted(key->0) ==> v == settled(
                EngineView {
                    job: EngineJobView::Observe { key, echo, token },
                    store,
                    default_php,
                    ids: Seq::empty(),
                    targets: Seq::empty(),
                    failures: Seq::empty(),
                    files: Seq::empty(),
                    states: Seq::empty(),
                    rows: Seq::empty(),
                    probes: Seq::empty(),
                    stage: EngineStageView::Reconciling,
                },
                roots,
                w,
            )
        }),
{
    if let Some(k) = key {
        keys_are_accepted_by_rule(k);
    }
}

/// A sync goes by its steps: the guard, the recovery of both journals, the
/// migration, and then the channels; any of them that fails ends it.
pub proof fn sync_goes_step_by_step(
    v: EngineView,
    e: Seq<char>,
    store: IniStore,
    h: EngineHost,
    w: World,
)
    requires
        v.job == (EngineJobView::Sync { fpm: true }),
    ensures
        v.stage is Guarding ==> engine_next(v, EngineReplyView::Did(Ok(())), h, w).stage
            is RecoveringIni,
        v.stage is RecoveringIni ==> engine_next(v, EngineReplyView::Did(Ok(())), h, w).stage
            is RecoveringFpm,
        v.stage is RecoveringFpm ==> engine_next(v, EngineReplyView::Did(Ok(())), h, w).stage
            is Migrating,
        v.stage is Migrating ==> engine_next(v, EngineReplyView::Migrated(Ok(store)), h, w)
            == settled(EngineView { store, ..v }, h.roots, w),
        v.stage is Guarding || v.stage is RecoveringIni || v.stage is RecoveringFpm ==> report_of(
            engine_next(v, EngineReplyView::Did(Err(e)), h, w),
        ) is Err,
        v.stage is Migrating ==> report_of(
            engine_next(v, EngineReplyView::Migrated(Err(e)), h, w),
        ) is Err,
{
}

/// Whatever was found becomes a target, in its order: what may be executed
/// waits for its probe, and anything else is classified at once.
pub proof fn every_binary_becomes_a_target(
    v: EngineView,
    at: int,
    roots: RootsView,
    w: World,
    k: int,
)
    requires
        0 <= at <= v.ids.len(),
        v.targets.len() == at,
        !(v.job is Observe),
    ensures
        ({
            let next = probing(v, at, roots, w);
            &&& next.ids == v.ids
            &&& next.stage matches EngineStageView::Probing { at: n } ==> {
                &&& at <= n < v.ids.len()
                &&& next.targets.len() == n
                &&& probeable(v.ids[n], roots, w.disk@)
            }
            &&& !(next.stage is Probing) ==> next.stage is Reconciling && next.targets.len()
                == v.ids.len()
            &&& 0 <= k < at ==> next.targets[k] == v.targets[k]
            &&& at <= k < next.targets.len() ==> !probeable(v.ids[k], roots, w.disk@)
                && next.targets[k] == target_of(v.ids[k], unprobed(), roots, w.disk@)
        }),
    decreases v.ids.len() - at,
{
    if at < v.ids.len() && !probeable(v.ids[at], roots, w.disk@) {
        let u = EngineView {
            targets: v.targets.push(target_of(v.ids[at], unprobed(), roots, w.disk@)),
            ..v
        };
        every_binary_becomes_a_target(u, at + 1, roots, w, k);
        if k == at {
            every_binary_becomes_a_target(u, at + 1, roots, w, at);
        }
    }
}

/// A probe that comes in makes the target of the binary that it was asked of.
pub proof fn probe_makes_its_target(
    v: EngineView,
    at: int,
    info: ProbeView,
    h: EngineHost,
    w: World,
)
    requires
        v.stage == (EngineStageView::Probing { at }),
        0 <= at < v.ids.len(),
        v.targets.len() == at,
        !(v.job is Observe),
    ensures
        ({
            let next = engine_next(v, EngineReplyView::Probed(info), h, w);
            &&& next.targets.len() > at
            &&& next.targets[at] == target_of(v.ids[at], info, h.roots, w.disk@)
            &&& forall|k: int| 0 <= k < at ==> #[trigger] next.targets[k] == v.targets[k]
        }),
{
    let u = EngineView {
        targets: v.targets.push(target_of(v.ids[at], info, h.roots, w.disk@)),
        ..v
    };
    let next = engine_next(v, EngineReplyView::Probed(info), h, w);
    every_binary_becomes_a_target(u, at + 1, h.roots, w, at);
    assert forall|k: int| 0 <= k < at implies #[trigger] next.targets[k] == v.targets[k] by {
        every_binary_becomes_a_target(u, at + 1, h.roots, w, k);
    }
}

/// A channel directory that could not be created is kept as a failure of that
/// directory, and the run goes on with the next.
pub proof fn refused_directory_is_a_failure(
    v: EngineView,
    dirs: Seq<Seq<char>>,
    at: int,
    e: Seq<char>,
    h: EngineHost,
    w: World,
)
    requires
        v.stage == (EngineStageView::Creating { dirs, at }),
        0 <= at < dirs.len() - 1,
    ensures
        ({
            let next = engine_next(v, EngineReplyView::Did(Err(e)), h, w);
            &&& next.stage == (EngineStageView::Creating { dirs, at: at + 1 })
            &&& next.failures == v.failures.push(
                FileView {
                    path: dirs[at],
                    result: FileResultView::Failed {
                        error: "channel dir creation refused: "@ + e,
                    },
                },
            )
        }),
        engine_next(v, EngineReplyView::Did(Ok(())), h, w).stage == (EngineStageView::Creating {
            dirs,
            at: at + 1,
        }),
        engine_next(v, EngineReplyView::Did(Ok(())), h, w).failures == v.failures,
{
}

/// What a reconcile did is told in full, with the directories that could not
/// be created; a sync goes on with the FPM files.
pub proof fn reconciled_files_are_told(
    v: EngineView,
    actions: Seq<ActionView>,
    h: EngineHost,
    w: World,
)
    requires
        v.stage is Reconciling,
    ensures
        ({
            let next = engine_next(v, EngineReplyView::Reconciled(actions), h, w);
            &&& next.files == wired_files(actions) + v.failures
            &&& next.states == with_failures(reported_states(actions), v.failures)
            &&& v.job == (EngineJobView::Sync { fpm: true }) ==> next.stage is Materializing
            &&& v.job == (EngineJobView::Sync { fpm: false }) || v.job is Mutate ==> next.stage
                is Observing || next.stage is Done
        }),
{
    assert(engine_next(v, EngineReplyView::Reconciled(actions), h, w) == reconciled(v, actions, w));
}

/// The FPM files of a sync are told with what was done to each, unless the
/// configuration is the user's.
pub proof fn materialized_files_are_told(
    v: EngineView,
    m: MaterializeView,
    h: EngineHost,
    w: World,
)
    requires
        v.stage is Materializing,
    ensures
        ({
            let next = engine_next(v, EngineReplyView::Materialized(m), h, w);
            &&& m.state is UserManaged ==> next.files == v.files
            &&& !(m.state is UserManaged) ==> next.files == v.files + seq![
                FileView {
                    path: path::joined(h.config_dir, "fpm/php-fpm.conf"@),
                    result: wired(m.conf),
                },
                FileView {
                    path: path::joined(h.config_dir, "fpm/hearth-probe.php"@),
                    result: wired(m.probe),
                },
            ]
        }),
{
    let u = EngineView { files: v.files + fpm_files(h.config_dir, m), ..v };
    assert(engine_next(v, EngineReplyView::Materialized(m), h, w) == rowed(u, w));
    assert(rowed(u, w).files == u.files);
    if m.state is UserManaged {
        assert(u.files =~= v.files);
    }
}

/// Unmanaging removes the channel files, then the FPM files, and tells both.
pub proof fn unmanaging_removes_both(
    v: EngineView,
    actions: Seq<ActionView>,
    e: Seq<char>,
    h: EngineHost,
    w: World,
)
    ensures
        v.stage is RemovingIni ==> {
            let next = engine_next(v, EngineReplyView::Removed(Ok(actions)), h, w);
            next.stage is RemovingFpm && next.files == wired_files(actions)
        },
        v.stage is RemovingFpm ==> {
            let next = engine_next(v, EngineReplyView::Removed(Ok(actions)), h, w);
            next.stage is Done && next.files == v.files + wired_files(actions) && report_of(next)
                is Ok
        },
        v.stage is RemovingIni || v.stage is RemovingFpm ==> report_of(
            engine_next(v, EngineReplyView::Removed(Err(e)), h, w),
        ) == Err::<ConfigOutcomeView, Seq<char>>(e),
{
}

/// The report of a run holds its rows and files, and says that something was
/// persisted only of a set or unset; a run that failed has no report but its
/// error.
pub proof fn report_is_what_the_run_found(v: EngineView)
    ensures
        v.stage matches EngineStageView::Done { result } ==> (result is Ok <==> report_of(v)
            is Ok) && (result matches Err(e) ==> report_of(v) == Err::<
            ConfigOutcomeView,
            Seq<char>,
        >(e)),
        report_of(v) matches Ok(o) ==> o.rows == v.rows && o.files == v.files && o.persisted
            == if v.job is Mutate {
            Some(true)
        } else {
            None
        },
{
}

// ---- after a run ----
/// A report passes where no file was refused or failed, and only there; what
/// does not pass is told by all of these.
pub proof fn hard_failures_stop_launches(o: ConfigOutcomeView, e: Seq<char>)
    ensures
        gated(Err(e)) == Err::<ConfigOutcomeView, Seq<char>>(e),
        gated(Ok(o)) is Ok <==> forall|i: int|
            0 <= i < o.files.len() ==> !((#[trigger] o.files[i]).result is Refused)
                && !(o.files[i].result is Failed),
        gated(Ok(o)) matches Ok(p) ==> p == o,
{
    if forall|i: int|
        0 <= i < o.files.len() ==> !((#[trigger] o.files[i]).result is Refused)
            && !(o.files[i].result is Failed) {
        clean_files_have_no_lines(o.files);
    }
    if gated(Ok(o)) is Ok {
        assert forall|i: int| 0 <= i < o.files.len() implies !((#[trigger] o.files[i]).result
            is Refused) && !(o.files[i].result is Failed) by {
            crate::php::engine::hard_failures_never_pass(o, i);
        }
    }
}

proof fn clean_files_have_no_lines(files: Seq<FileView>)
    requires
        forall|i: int|
            0 <= i < files.len() ==> !((#[trigger] files[i]).result is Refused)
                && !(files[i].result is Failed),
    ensures
        hard_lines(files).len() == 0,
    decreases files.len(),
{
    if files.len() > 0 {
        let rest = files.drop_last();
        assert forall|i: int| 0 <= i < rest.len() implies !((#[trigger] rest[i]).result is Refused)
            && !(rest[i].result is Failed) by {
            assert(rest[i] == files[i]);
        }
        clean_files_have_no_lines(rest);
        assert(files[files.len() - 1] == files.last());
    }
}

/// FPM is restarted where it is registered and Hearth's to restart, and only
/// there; otherwise it is told why not.
pub proof fn fpm_is_restarted_where_registered(
    ownership: OwnershipView,
    registered: bool,
    conf: StateView,
)
    ensures
        restart_choice(ownership, registered, conf) is Restart <==> ownership is Unowned
            && registered,
        ownership is Owned && registered ==> restart_choice(ownership, registered, conf)
            == RestartChoiceView::Report(FpmOutcomeView::SkippedHerdOwned),
        ownership is Owned && !registered ==> restart_choice(ownership, registered, conf)
            == RestartChoiceView::Report(FpmOutcomeView::NotRegistered { herd_hint: true }),
        ownership matches OwnershipView::Unknown(reason) ==> restart_choice(
            ownership,
            registered,
            conf,
        ) == RestartChoiceView::Report(FpmOutcomeView::SkippedOwnershipUnknown { reason }),
        ownership is Unowned && !registered ==> (conf matches StateView::Blocked { reason }
            ==> restart_choice(ownership, registered, conf) == RestartChoiceView::Report(
            FpmOutcomeView::LaunchBlocked { reason },
        )),
        ownership is Unowned && !registered && !(conf is Blocked) ==> restart_choice(
            ownership,
            registered,
            conf,
        ) == RestartChoiceView::Report(FpmOutcomeView::NotRegistered { herd_hint: false }),
{
}

/// What became of a restart is told: only a stop or start that failed is a
/// failure.
pub proof fn restart_is_told(o: RestartOutcomeView)
    ensures
        restart_told(o) is Restarted <==> o is Restarted,
        restart_told(o) is Failed <==> o is StopFailed || o is StartFailed,
        restart_told(o) is SkippedHerdOwned <==> o is SkippedOwned,
        o matches RestartOutcomeView::SkippedOwnershipUnknown(reason) ==> restart_told(o) == (
        FpmOutcomeView::SkippedOwnershipUnknown { reason }),
        o is NotRegistered ==> restart_told(o) == (FpmOutcomeView::NotRegistered {
            herd_hint: false,
        }),
{
}

/// A switch of the PHP version is taken up exactly where the version is well
/// formed and installed in some form; then it is saved, then synced, and FPM is
/// replaced only after a sync without hard failures.
pub proof fn switch_goes_step_by_step(
    version: Seq<char>,
    cli: bool,
    fpm: bool,
    e: Seq<char>,
    o: ConfigOutcomeView,
    outcome: ReplaceOutcomeView,
    conf: StateView,
)
    ensures
        switch_begin(version, cli, fpm) is Saving <==> version.contains('.') && (forall|i: int|
            0 <= i < version.len() ==> ('0' <= #[trigger] version[i] && version[i] <= '9')
                || version[i] == '.') && (cli || fpm),
        !(switch_begin(version, cli, fpm) is Saving) ==> switch_begin(version, cli, fpm) is Done
            && switch_begin(version, cli, fpm)->result is Err,
        switch_next(version, SwitchView::Saving, SwitchReplyView::Saved(Ok(()))) is Syncing,
        ({
            let next = switch_next(version, SwitchView::Saving, SwitchReplyView::Saved(Err(e)));
            next is Done && next->result is Err
        }),
        ({
            let next = switch_next(version, SwitchView::Syncing, SwitchReplyView::Synced(Ok(o)));
            let clean = forall|i: int|
                0 <= i < o.files.len() ==> !((#[trigger] o.files[i]).result is Refused)
                    && !(o.files[i].result is Failed);
            &&& clean ==> next is Replacing
            &&& !clean ==> next is Done && next->result is Err
        }),
        ({
            let next = switch_next(version, SwitchView::Syncing, SwitchReplyView::Synced(Err(e)));
            next is Done && next->result is Err
        }),
        switch_next(
            version,
            SwitchView::Replacing,
            SwitchReplyView::Replaced { outcome, conf },
        ) == (SwitchView::Done { result: switch_told(version, outcome, conf) }),
{
    hard_failures_stop_launches(o, e);
}

/// A switch whose FPM could not be stopped or started is an error; any other
/// is told as a success that names the version.
pub proof fn switch_is_told(version: Seq<char>, o: ReplaceOutcomeView, conf: StateView)
    ensures
        switch_told(version, o, conf) is Err <==> o is StopFailed || o is StartFailed,
        switch_told(version, o, conf) matches Ok(said) ==> ("Switched to PHP "@
            + version).is_prefix_of(said),
        o is Replaced ==> switch_told(version, o, conf) == Ok::<Seq<char>, Seq<char>>(
            "Switched to PHP "@ + version + "; php-fpm restarted"@,
        ),
        o is SkippedOwned ==> switch_told(version, o, conf) == Ok::<Seq<char>, Seq<char>>(
            "Switched to PHP "@ + version + "; php-fpm untouched (Herd manages PHP-FPM)"@,
        ),
{
    let head = "Switched to PHP "@ + version;
    if let Ok(said) = switch_told(version, o, conf) {
        assert(said.take(head.len() as int) =~= head);
    }
}

// ---- what a run is made of ----
/// A run looks for every binary that the roots name; one that may write creates
/// the channels that are missing first.
pub proof fn run_looks_for_every_binary(v: EngineView, roots: RootsView, w: World)
    ensures
        ({
            let ids = discoveries(30, roots.hearth, roots.herd, roots.homebrew, w.disk@);
            let dirs = missing_channels(ids, ids.len() as int, v.store, roots.hearth, w.disk@);
            let start = EngineView { ids, targets: Seq::empty(), probes: Seq::empty(), ..v };
            &&& v.job is Observe ==> settled(v, roots, w) == probing(start, 0, roots, w)
            &&& !(v.job is Observe) && dirs.len() > 0 ==> settled(v, roots, w) == (EngineView {
                stage: EngineStageView::Creating { dirs, at: 0 },
                ..start
            })
            &&& !(v.job is Observe) && dirs.len() == 0 ==> settled(v, roots, w) == probing(
                start,
                0,
                roots,
                w,
            )
        }),
{
}

/// The rows of a report are those of the store, the targets and the states of
/// the run, for the key that it asks for; the launches that follow are those
/// planned for the key.
pub proof fn rows_are_built_for_the_key(v: EngineView, w: World)
    ensures
        ({
            let key = match v.job {
                EngineJobView::Mutate { key } => Some(key),
                EngineJobView::Observe { key, echo, token } => key,
                EngineJobView::Sync { fpm } => None,
                EngineJobView::Unmanage => None,
            };
            let r = rowed(v, w);
            &&& r.rows == all_rows(
                v.store,
                v.default_php,
                v.targets,
                key,
                v.states,
                w.fpm,
                w.manifest@,
            )
            &&& key matches Some(k) ==> r.probes == planned(k, v.targets, w.fpm)
            &&& key is None ==> r.probes.len() == 0
            &&& r.probes.len() > 0 ==> r.stage == (EngineStageView::Observing { at: 0 })
            &&& r.probes.len() == 0 ==> r.stage == (EngineStageView::Done { result: Ok(()) })
            &&& r.files == v.files && r.store == v.store
        }),
{
}

/// A look tells the states of the files by the manifest, as far as the disk
/// bears them out; a run that writes goes on to reconcile.
pub proof fn look_tells_states_by_manifest_and_disk(v: EngineView, w: World)
    ensures
        v.job is Observe ==> targeted(v, w) == rowed(
            EngineView {
                states: confirmed_states(
                    w.manifest@,
                    w.disk@,
                    expected_states(v.store, v.targets, v.targets.len() as int, w.manifest@),
                ),
                ..v
            },
            w,
        ),
        !(v.job is Observe) ==> targeted(v, w) == (EngineView {
            stage: EngineStageView::Reconciling,
            ..v
        }),
{
}

/// What a launch reported is noted in its row, and the next launch follows;
/// behind the last the run is done.
pub proof fn launches_are_noted_in_turn(
    v: EngineView,
    at: int,
    value: Option<Seq<char>>,
    h: EngineHost,
    w: World,
)
    requires
        v.stage == (EngineStageView::Observing { at }),
        0 <= at < v.probes.len(),
    ensures
        ({
            let n = engine_next(v, EngineReplyView::Observed(value), h, w);
            &&& n.rows == noted(v.rows, v.probes[at], v.targets, value)
            &&& at + 1 < v.probes.len() ==> n.stage == (EngineStageView::Observing { at: at + 1 })
            &&& at + 1 == v.probes.len() ==> n.stage == (EngineStageView::Done { result: Ok(()) })
            &&& n.files == v.files && n.store == v.store
        }),
{
}

/// A save that fails puts the store back and is told; nothing is reconciled.
pub proof fn failed_save_is_told(v: EngineView, prior: IniStore, e: Seq<char>, h: EngineHost, w: World)
    requires
        v.stage == (EngineStageView::Saving { prior }),
    ensures
        ({
            let n = engine_next(v, EngineReplyView::Did(Err(e)), h, w);
            n.store == prior && report_of(n) == Err::<ConfigOutcomeView, Seq<char>>(
                "failed to persist config: "@ + e,
            )
        }),
        engine_next(v, EngineReplyView::Did(Ok(())), h, w) == settled(v, h.roots, w),
{
}

// ---- what is told ----
/// A refused key is told with the key and the rule, a denied one with its
/// danger, a refused value with the rule, and a version with what is expected.
pub proof fn refusals_tell_the_rule(key: Seq<char>, reason: Seq<char>, version: Seq<char>)
    ensures
        fault_said(IniFault::InvalidKey { key, reason }) == "invalid PHP INI directive key '"@ + key
            + "': "@ + reason,
        fault_said(IniFault::DeniedKey { key }) == "PHP INI directive '"@ + key
            + "' is denied: it can load or execute code and must never be set through Hearth"@,
        fault_said(IniFault::InvalidValue { reason }) == "invalid PHP INI value: "@ + reason,
        version_refusal(version) == "invalid PHP version `"@ + version
            + "` — expected e.g. 8.4"@,
{
}

/// Which rule a key or value breaks: the syntax first, then the length, then
/// the denylist; for a value the length, then control characters, then the
/// section.
pub proof fn faults_name_the_rule(k: Seq<char>, v: Seq<char>)
    ensures
        key_fault(k) matches Some(f) ==> match f {
            IniFault::InvalidKey { key, reason } => key == k,
            IniFault::DeniedKey { key } => key == k && 0 < k.len() <= 128,
            IniFault::InvalidValue { reason } => false,
        },
        k.len() == 0 ==> key_fault(k) is Some && key_fault(k)->0 is InvalidKey,
        v.len() > 1024 ==> value_fault(v) == Some(
            IniFault::InvalidValue { reason: "values are limited to 1024 characters"@ },
        ),
        value_fault(v) matches Some(f) ==> f is InvalidValue,
{
}

/// A mutation that is refused tells the fault of its key, or else of its
/// value, or else of its version, and leaves the store alone.
pub proof fn refused_mutation_tells_why(
    scope: ScopeView,
    key: Seq<char>,
    value: Option<Seq<char>>,
    store: IniStore,
    default_php: Seq<char>,
)
    ensures
        mutation_refusal(scope, key, value) matches Some(e) ==> {
            let run = mutation_begin(scope, key, value, store, default_php);
            &&& report_of(run) == Err::<ConfigOutcomeView, Seq<char>>(e)
            &&& run.store == store
            &&& key_fault(key) matches Some(f) ==> e == fault_said(f)
            &&& key_fault(key) is None ==> (value matches Some(v) ==> (value_fault(v) matches Some(
                f,
            ) ==> e == fault_said(f)))
            &&& key_fault(key) is None && (value is None || value_fault(value->0) is None) ==> (
            scope matches ScopeView::Version { version } && e == version_refusal(version))
        },
{
}

/// What does not pass is told as a hard failure with every line of it.
pub proof fn hard_failures_are_told_together(o: ConfigOutcomeView)
    ensures
        gated(Ok(o)) matches Err(e) ==> e
            == "php-config reconciliation hard failure — PHP launch/restart aborted (canonical config remains persisted): "@
            + scan::glued(hard_lines(o.files), "; "@),
{
}

/// A switch whose FPM could not be built tells why, and whether the old
/// registration went; one whose FPM could not be stopped or started tells the
/// error.
pub proof fn switch_tells_what_went_wrong(
    version: Seq<char>,
    reason: Seq<char>,
    removed_stale: bool,
    error: Seq<char>,
    conf: StateView,
)
    ensures
        reason != "launch-blocked: missing fpm config — see todo #2343"@ ==> switch_told(
            version,
            ReplaceOutcomeView::BuildFailed { reason, removed_stale },
            conf,
        ) == Ok::<Seq<char>, Seq<char>>(
            "Switched to PHP "@ + version + "; php-fpm not registered: "@ + reason + ""@ + if removed_stale {
                "; previous php-fpm registration removed"@
            } else {
                ""@
            },
        ),
        switch_told(version, ReplaceOutcomeView::StopFailed { error }, conf) == Err::<
            Seq<char>,
            Seq<char>,
        >(
            "switched to PHP "@ + version
                + " (persisted), but stopping the previous php-fpm failed: "@ + error
                + " — the previous php-fpm remains supervised for retry"@,
        ),
        switch_told(version, ReplaceOutcomeView::StartFailed { error }, conf) == Err::<
            Seq<char>,
            Seq<char>,
        >("switched to PHP "@ + version + ", but php-fpm start failed: "@ + error),
        restart_told(RestartOutcomeView::StopFailed { error }) == (FpmOutcomeView::Failed {
            message: "php-fpm stop failed: "@ + error,
        }),
        restart_told(RestartOutcomeView::StartFailed { error }) == (FpmOutcomeView::Failed {
            message: "php-fpm start failed: "@ + error,
        }),
{
}

/// A run that starts has found and done nothing yet; one that syncs for a switch
/// leaves the FPM journal and files alone.
pub proof fn runs_start_empty(
    job: EngineJobView,
    store: IniStore,
    default_php: Seq<char>,
    stage: EngineStageView,
    v: EngineView,
    h: EngineHost,
    w: World,
)
    ensures
        ({
            let b = blank(job, store, default_php, stage);
            &&& b.job == job && b.store == store && b.default_php == default_php && b.stage == stage
            &&& b.ids.len() == 0 && b.targets.len() == 0 && b.failures.len() == 0
            &&& b.files.len() == 0 && b.states.len() == 0 && b.rows.len() == 0
            &&& b.probes.len() == 0
        }),
        v.job == (EngineJobView::Sync { fpm: false }) && v.stage is RecoveringIni ==> engine_next(
            v,
            EngineReplyView::Did(Ok(())),
            h,
            w,
        ).stage is Migrating,
{
}

} // verus!
