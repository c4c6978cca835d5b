//! What reconciling and migrating promise, said in plain terms: every writable
//! channel gets its file, and no setting of a legacy file is lost.

use crate::config::{effective, IniStore};
use crate::path;
use crate::php::artifact::ArtifactView;
use crate::php::batch::{JobView, Policy};
use crate::php::ini_guard::{fault_said, key_accepted, key_fault, value_accepted, value_fault};
use crate::php::manifest::{EntryView, OutcomeView};
use crate::php::migration::{
    all_directives, backup_of, file_parsed, import_all, import_file, import_files, import_one,
    migration_begin, migration_next, retired, section_directives, Import, LegacyView,
    MigrationReplyView, MigrationStageView, MigrationView, SkippedDirectiveView,
};
use crate::php::reconcile::{
    channel_actions, channel_job, channel_jobs, channels, hex, placed, removal_actions, rendered,
    report_of, same_channel, unmanage_verdict, unwritable, ActionView, GroupView, SkippedView,
};
use crate::php::targets::{PhpProvider, TargetView};
use crate::php::txn::TxnView;
use crate::strmap::{self, listing};
use crate::text;
use vstd::prelude::*;

verus! {

// ---- the plan ----
/// Every target that may be written for has its channel in the plan: one of
/// its version, in its directory.
pub proof fn every_writable_target_is_planned(targets: Seq<TargetView>, k: int)
    requires
        0 <= k < targets.len(),
        targets[k].write_channel is Some,
    ensures
        exists|i: int|
            0 <= i < channels(targets).len() && (#[trigger] channels(targets)[i]).version
                == targets[k].id.version && path::key(channels(targets)[i].dir) == path::key(
                targets[k].write_channel->0,
            ),
    decreases targets.len(),
{
    let t = targets.last();
    let before = channels(targets.drop_last());
    let all = channels(targets);
    if k == targets.len() - 1 {
        let g = GroupView {
            version: t.id.version,
            dir: t.write_channel->0,
            provider: t.id.provider,
        };
        let i = place_of(before, g);
        assert(all[i].version == targets[k].id.version);
    } else {
        assert(targets.drop_last()[k] == targets[k]);
        every_writable_target_is_planned(targets.drop_last(), k);
        let i = choose|i: int|
            0 <= i < before.len() && (#[trigger] before[i]).version == targets[k].id.version
                && path::key(before[i].dir) == path::key(targets[k].write_channel->0);
        if t.write_channel is Some {
            let g = GroupView {
                version: t.id.version,
                dir: t.write_channel->0,
                provider: t.id.provider,
            };
            let j = still_there(before, g, i);
            assert(all[j] == before[i]);
        } else {
            assert(all[i] == before[i]);
        }
    }
}

proof fn place_of(list: Seq<GroupView>, g: GroupView) -> (i: int)
    ensures
        0 <= i < placed(list, g).len(),
        placed(list, g)[i].version == g.version,
        path::key(placed(list, g)[i].dir) == path::key(g.dir),
    decreases list.len(),
{
    if list.len() == 0 || same_channel(list[0], g) || crate::php::reconcile::channel_lt(g, list[0]) {
        0
    } else {
        let i = place_of(list.drop_first(), g);
        assert(placed(list, g)[i + 1] == placed(list.drop_first(), g)[i]);
        i + 1
    }
}

proof fn still_there(list: Seq<GroupView>, g: GroupView, i: int) -> (j: int)
    requires
        0 <= i < list.len(),
    ensures
        0 <= j < placed(list, g).len(),
        placed(list, g)[j] == list[i],
    decreases list.len(),
{
    if same_channel(list[0], g) {
        i
    } else if crate::php::reconcile::channel_lt(g, list[0]) {
        assert(placed(list, g)[i + 1] == list[i]);
        i + 1
    } else if i == 0 {
        0
    } else {
        let j = still_there(list.drop_first(), g, i - 1);
        assert(placed(list, g)[j + 1] == placed(list.drop_first(), g)[j]);
        j + 1
    }
}

/// Every channel of the plan is that of a target: its version, its directory,
/// and the provider of the first target that writes there.
pub proof fn planned_channels_are_of_targets(targets: Seq<TargetView>, i: int)
    requires
        0 <= i < channels(targets).len(),
    ensures
        exists|k: int|
            0 <= k < targets.len() && (#[trigger] targets[k]).write_channel == Some(
                channels(targets)[i].dir,
            ) && targets[k].id.version == channels(targets)[i].version && targets[k].id.provider
                == channels(targets)[i].provider,
    decreases targets.len(),
{
    let t = targets.last();
    let before = channels(targets.drop_last());
    let c = channels(targets)[i];
    if targets.len() > 0 {
        let rest = targets.drop_last();
        if t.write_channel is Some {
            let g = GroupView {
                version: t.id.version,
                dir: t.write_channel->0,
                provider: t.id.provider,
            };
            let j = source(before, g, i);
            if c == g {
                assert(targets[targets.len() - 1].id.version == c.version);
            } else {
                planned_channels_are_of_targets(rest, j);
                let k = choose|k: int|
                    0 <= k < rest.len() && (#[trigger] rest[k]).write_channel == Some(c.dir)
                        && rest[k].id.version == c.version && rest[k].id.provider == c.provider;
                assert(targets[k].id.version == c.version);
            }
        } else {
            planned_channels_are_of_targets(rest, i);
            let k = choose|k: int|
                0 <= k < rest.len() && (#[trigger] rest[k]).write_channel == Some(c.dir)
                    && rest[k].id.version == c.version && rest[k].id.provider == c.provider;
            assert(targets[k].id.version == c.version);
        }
    }
}

proof fn source(list: Seq<GroupView>, g: GroupView, i: int) -> (j: int)
    requires
        0 <= i < placed(list, g).len(),
    ensures
        placed(list, g)[i] == g || (0 <= j < list.len() && list[j] == placed(list, g)[i]),
    decreases list.len(),
{
    if list.len() == 0 {
        0
    } else if same_channel(list[0], g) {
        i
    } else if crate::php::reconcile::channel_lt(g, list[0]) {
        i - 1
    } else if i == 0 {
        0
    } else {
        let j = source(list.drop_first(), g, i - 1);
        assert(placed(list, g)[i] == placed(list.drop_first(), g)[i - 1]);
        if placed(list, g)[i] != g {
            assert(list[j + 1] == list.drop_first()[j]);
        }
        j + 1
    }
}

/// The targets that are passed over are exactly those that may not be written
/// for, in their order and with what was found of their channels.
pub proof fn skipped_targets_are_the_unwritable(targets: Seq<TargetView>)
    ensures
        unwritable(targets) == targets.filter(|t: TargetView| t.write_channel is None).map_values(
            |t: TargetView|
                SkippedView {
                    id: t.id,
                    normal_channel: t.normal_channel,
                    sanitized_channel: t.sanitized_channel,
                },
        ),
    decreases targets.len(),
{
    reveal(Seq::filter);
    let closed = |t: TargetView| t.write_channel is None;
    let shown = |t: TargetView|
        SkippedView {
            id: t.id,
            normal_channel: t.normal_channel,
            sanitized_channel: t.sanitized_channel,
        };
    if targets.len() > 0 {
        skipped_targets_are_the_unwritable(targets.drop_last());
        let kept = targets.drop_last().filter(closed);
        if closed(targets.last()) {
            assert(targets.filter(closed) == kept.push(targets.last()));
            assert(kept.push(targets.last()).map_values(shown) =~= kept.map_values(shown).push(
                shown(targets.last()),
            ));
        } else {
            assert(targets.filter(closed) == kept);
        }
    } else {
        assert(targets.filter(closed).map_values(shown) =~= Seq::empty());
    }
}

// ---- the files ----
/// Every target that may be written for, and whose version has directives,
/// gets its channel file written: `zz-hearth.ini` in a spelling of its
/// directory, with the directives in force for its version.
pub proof fn every_writable_target_is_written(ini: IniStore, targets: Seq<TargetView>, k: int)
    requires
        0 <= k < targets.len(),
        targets[k].write_channel is Some,
    ensures
        exists|i: int|
            0 <= i < channel_jobs(ini, channels(targets)).len() && match (
            #[trigger] channel_jobs(ini, channels(targets))[i]) {
                JobView::Apply { spec, content, sha256 } => {
                    &&& effective(ini, targets[k].id.version) != Map::<Seq<char>, Seq<char>>::empty()
                    &&& writes_for(spec, content, ini, targets[k])
                },
                JobView::Remove { path: p } => {
                    &&& effective(ini, targets[k].id.version) == Map::<Seq<char>, Seq<char>>::empty()
                    &&& is_channel_file(p, targets[k].write_channel->0)
                },
            },
{
    every_writable_target_is_planned(targets, k);
    let i = choose|i: int|
        0 <= i < channels(targets).len() && (#[trigger] channels(targets)[i]).version
            == targets[k].id.version && path::key(channels(targets)[i].dir) == path::key(
            targets[k].write_channel->0,
        );
    let jobs = channel_jobs(ini, channels(targets));
    let g = channels(targets)[i];
    assert(jobs[i] == channel_job(ini, g));
    assert(is_channel_file(path::joined(g.dir, "zz-hearth.ini"@), targets[k].write_channel->0));
}

/// Whether a path is `zz-hearth.ini` below some spelling of a directory.
pub open spec fn is_channel_file(p: Seq<char>, dir: Seq<char>) -> bool {
    exists|at: Seq<char>|
        path::key(at) == path::key(dir) && p == #[trigger] path::joined(at, "zz-hearth.ini"@)
}

/// Whether a write is the one that a target is owed.
pub open spec fn writes_for(
    spec: ArtifactView,
    content: Seq<char>,
    ini: IniStore,
    t: TargetView,
) -> bool {
    &&& is_channel_file(spec.final_path, t.write_channel->0)
    &&& spec.php_version == t.id.version
    &&& spec.mode == 0o644
    &&& content == rendered(listing(effective(ini, t.id.version)))
}

/// The file of a channel is hashed as it is written, under the name of its
/// provider's channels.
pub proof fn channel_file_is_hashed_as_written(ini: IniStore, g: GroupView)
    ensures
        channel_job(ini, g) matches JobView::Apply { spec, content, sha256 } ==> {
            &&& sha256 == crate::php::reconcile::hex(
                crate::php::reconcile::sha256(vstd::utf8::encode_utf8(content)),
            )
            &&& g.provider == PhpProvider::Hearth ==> spec.channel == "hearth"@
            &&& g.provider == PhpProvider::Herd ==> spec.channel == "herd-user"@
            &&& g.provider == PhpProvider::Homebrew ==> spec.channel == "homebrew"@
        },
{
}

/// The header of a channel file, and then one assignment per directive, each
/// in a line of its own and in the order of the list.
pub proof fn channel_file_is_header_and_assignments(
    list: Seq<(Seq<char>, Seq<char>)>,
    key: Seq<char>,
    value: Seq<char>,
)
    ensures
        rendered(Seq::empty())
            == "; managed by hearth — do not edit. `hearth php config` regenerates this file.\n; hearth-owned: v1\n"@,
        rendered(list.push((key, value))) == rendered(list) + key + "="@ + value + "\n"@,
{
    reveal_strlit("=");
    reveal_strlit("\n");
    let none = Seq::<(Seq<char>, Seq<char>)>::empty();
    assert(rendered(none)
        =~= "; managed by hearth — do not edit. `hearth php config` regenerates this file.\n; hearth-owned: v1\n"@);
    assert(list.push((key, value)).drop_last() =~= list);
    assert(rendered(list.push((key, value))) =~= rendered(list) + key + "="@ + value + "\n"@);
}

/// What is listed of a map are its entries, each once, by name.
pub proof fn listing_is_the_map(m: Map<Seq<char>, Seq<char>>, s: Seq<(Seq<char>, Seq<char>)>)
    requires
        strmap::sorted(s),
        strmap::to_map(s) == m,
    ensures
        listing(m) == s,
        forall|k: Seq<char>| #[trigger]
            m.dom().contains(k) ==> exists|i: int| 0 <= i < s.len() && s[i] == (k, m[k]),
        forall|i: int|
            0 <= i < s.len() ==> m.dom().contains((#[trigger] s[i]).0) && m[s[i].0] == s[i].1,
        forall|i: int, j: int|
            0 <= i < j < s.len() ==> text::lt((#[trigger] s[i]).0, (#[trigger] s[j]).0),
{
    strmap::listing_of_sorted(s);
    strmap::to_map_entries(s);
    assert forall|k: Seq<char>| #[trigger] m.dom().contains(k) implies exists|i: int|
        0 <= i < s.len() && s[i] == (k, m[k]) by {
        let i = choose|i: int| 0 <= i < s.len() && s[i].0 == k;
        assert(s[i] == (k, m[k]));
    }
}

/// The value in force for a version is its override, and where there is none
/// the global one; nothing else is in force.
pub proof fn value_in_force(store: IniStore, version: Seq<char>, key: Seq<char>)
    ensures
        ({
            let own = store.overrides.dom().contains(version)
                && store.overrides[version].dom().contains(key);
            let shared = store.global.dom().contains(key);
            let all = effective(store, version);
            &&& all.dom().contains(key) <==> own || shared
            &&& own ==> all[key] == store.overrides[version][key]
            &&& !own && shared ==> all[key] == store.global[key]
        }),
{
}

// ---- the report ----
/// Every channel is reported with its file and outcome, but for a removal that
/// had nothing to do; the manifest's own failure is reported alone.
pub proof fn every_outcome_is_reported(
    groups: Seq<GroupView>,
    jobs: Seq<JobView>,
    outcomes: Seq<OutcomeView>,
    n: int,
    i: int,
)
    requires
        0 <= i < n <= groups.len(),
        n <= jobs.len(),
        n <= outcomes.len(),
    ensures
        !(jobs[i] is Remove && outcomes[i] is Unchanged) ==> exists|k: int|
            0 <= k < channel_actions(groups, jobs, outcomes, n).len() && (
            #[trigger] channel_actions(groups, jobs, outcomes, n)[k]).path == path::joined(
                groups[i].dir,
                "zz-hearth.ini"@,
            ) && channel_actions(groups, jobs, outcomes, n)[k].php_version == groups[i].version
                && channel_actions(groups, jobs, outcomes, n)[k].outcome == outcomes[i],
    decreases n,
{
    let before = channel_actions(groups, jobs, outcomes, n - 1);
    let all = channel_actions(groups, jobs, outcomes, n);
    if !(jobs[i] is Remove && outcomes[i] is Unchanged) {
        if i == n - 1 {
            assert(all[before.len() as int].outcome == outcomes[i]);
        } else {
            every_outcome_is_reported(groups, jobs, outcomes, n - 1, i);
            let k = choose|k: int|
                0 <= k < before.len() && (#[trigger] before[k]).path == path::joined(
                    groups[i].dir,
                    "zz-hearth.ini"@,
                ) && before[k].php_version == groups[i].version && before[k].outcome == outcomes[i];
            assert(all[k] == before[k]);
        }
    }
}

/// A reconciliation reports as many files as had something done to them.
pub proof fn nothing_else_is_reported(
    groups: Seq<GroupView>,
    jobs: Seq<JobView>,
    outcomes: Seq<OutcomeView>,
    n: int,
    k: int,
)
    requires
        0 <= n <= groups.len(),
        n <= jobs.len(),
        n <= outcomes.len(),
        0 <= k < channel_actions(groups, jobs, outcomes, n).len(),
    ensures
        exists|i: int|
            0 <= i < n && !(jobs[i] is Remove && outcomes[i] is Unchanged) && channel_actions(
                groups,
                jobs,
                outcomes,
                n,
            )[k].path == path::joined((#[trigger] groups[i]).dir, "zz-hearth.ini"@)
                && channel_actions(groups, jobs, outcomes, n)[k].outcome == outcomes[i],
        channel_actions(groups, jobs, outcomes, n).len() <= n,
    decreases n,
{
    let before = channel_actions(groups, jobs, outcomes, n - 1);
    let all = channel_actions(groups, jobs, outcomes, n);
    if n > 0 {
        if k < before.len() {
            nothing_else_is_reported(groups, jobs, outcomes, n - 1, k);
            let i = choose|i: int|
                0 <= i < n - 1 && !(jobs[i] is Remove && outcomes[i] is Unchanged) && before[k].path
                    == path::joined((#[trigger] groups[i]).dir, "zz-hearth.ini"@)
                    && before[k].outcome == outcomes[i];
            assert(all[k] == before[k]);
            assert(groups[i].dir == groups[i].dir);
        } else {
            assert(groups[n - 1].dir == groups[n - 1].dir);
            if before.len() > 0 {
                nothing_else_is_reported(groups, jobs, outcomes, n - 1, 0);
            }
        }
    }
}

/// Unmanaging reports every file that it did something about, with what it did.
pub proof fn every_removal_is_reported(
    rows: Seq<EntryView>,
    outcomes: Seq<OutcomeView>,
    n: int,
    i: int,
)
    requires
        0 <= i < n <= rows.len(),
        n <= outcomes.len(),
    ensures
        !(outcomes[i] is Unchanged) ==> removal_actions(rows, outcomes, n).contains(
            ActionView {
                path: rows[i].path,
                php_version: rows[i].php_version,
                channel: rows[i].channel,
                outcome: outcomes[i],
            },
        ),
    decreases n,
{
    let before = removal_actions(rows, outcomes, n - 1);
    let all = removal_actions(rows, outcomes, n);
    let a = ActionView {
        path: rows[i].path,
        php_version: rows[i].php_version,
        channel: rows[i].channel,
        outcome: outcomes[i],
    };
    if !(outcomes[i] is Unchanged) {
        if i == n - 1 {
            assert(all[before.len() as int] == a);
        } else {
            every_removal_is_reported(rows, outcomes, n - 1, i);
            let k = choose|k: int| 0 <= k < before.len() && before[k] == a;
            assert(all[k] == a);
        }
    }
}

// ---- migration ----
/// How many keys sections hold together.
pub open spec fn total(sections: Seq<(Seq<char>, Seq<(Seq<char>, Option<Seq<char>>)>)>) -> int
    decreases sections.len(),
{
    if sections.len() == 0 {
        0
    } else {
        total(sections.drop_last()) + sections.last().1.len()
    }
}

/// Every key of every section is among the directives of a file, with its
/// value or an empty one, and there are no others.
pub proof fn every_key_is_a_directive(
    sections: Seq<(Seq<char>, Seq<(Seq<char>, Option<Seq<char>>)>)>,
    i: int,
    j: int,
)
    requires
        0 <= i < sections.len(),
        0 <= j < sections[i].1.len(),
    ensures
        all_directives(sections).contains(
            (
                sections[i].1[j].0,
                match sections[i].1[j].1 {
                    Some(v) => v,
                    None => Seq::<char>::empty(),
                },
            ),
        ),
        all_directives(sections).len() == total(sections),
    decreases sections.len(),
{
    let all = all_directives(sections);
    let before = all_directives(sections.drop_last());
    let here = section_directives(sections.last().1);
    directives_add_up(sections);
    let want = (
        sections[i].1[j].0,
        match sections[i].1[j].1 {
            Some(v) => v,
            None => Seq::<char>::empty(),
        },
    );
    if i == sections.len() - 1 {
        assert(here[j] == want);
        assert(all[before.len() + j] == want);
    } else {
        assert(sections.drop_last()[i] == sections[i]);
        every_key_is_a_directive(sections.drop_last(), i, j);
        let k = choose|k: int| 0 <= k < before.len() && before[k] == want;
        assert(all[k] == want);
    }
}

proof fn directives_add_up(sections: Seq<(Seq<char>, Seq<(Seq<char>, Option<Seq<char>>)>)>)
    ensures
        all_directives(sections).len() == total(sections),
    decreases sections.len(),
{
    if sections.len() > 0 {
        directives_add_up(sections.drop_last());
    }
}

/// Whether a version has an override of a key.
pub open spec fn overridden(store: IniStore, version: Seq<char>, key: Seq<char>) -> bool {
    store.overrides.dom().contains(version) && store.overrides[version].dom().contains(key)
}

/// Whether the import of a directive is reported as skipped.
pub open spec fn reported_skipped(
    skipped: Seq<SkippedDirectiveView>,
    version: Seq<char>,
    key: Seq<char>,
) -> bool {
    exists|k: int|
        0 <= k < skipped.len() && (#[trigger] skipped[k]).version == version && skipped[k].key
            == key
}

/// Whether a directive of a legacy file is accounted for: one that the guard
/// accepts is an override of its version now, any other is reported.
pub open spec fn accounted(
    t: Import,
    version: Seq<char>,
    key: Seq<char>,
    value: Seq<char>,
) -> bool {
    if key_accepted(key) && value_accepted(value) {
        overridden(t.store, version, key)
    } else {
        reported_skipped(t.skipped, version, key)
    }
}

proof fn later_imports_keep(
    s: Import,
    version: Seq<char>,
    list: Seq<(Seq<char>, Seq<char>)>,
    other: Seq<char>,
    key: Seq<char>,
)
    ensures
        ({
            let t = import_all(s, version, list);
            &&& overridden(s.store, other, key) ==> overridden(t.store, other, key)
                && t.store.overrides[other][key] == s.store.overrides[other][key]
            &&& reported_skipped(s.skipped, other, key) ==> reported_skipped(t.skipped, other, key)
            &&& t.store.global == s.store.global
            &&& other != version ==> (t.store.overrides.dom().contains(other)
                <==> s.store.overrides.dom().contains(other)) && (
            s.store.overrides.dom().contains(other) ==> t.store.overrides[other]
                == s.store.overrides[other])
        }),
    decreases list.len(),
{
    if list.len() > 0 {
        later_imports_keep(s, version, list.drop_last(), other, key);
        one_import_keeps(
            import_all(s, version, list.drop_last()),
            version,
            list.last().0,
            list.last().1,
            other,
            key,
        );
    }
}

proof fn one_import_keeps(
    s: Import,
    version: Seq<char>,
    name: Seq<char>,
    value: Seq<char>,
    other: Seq<char>,
    key: Seq<char>,
)
    ensures
        ({
            let t = import_one(s, version, name, value);
            &&& overridden(s.store, other, key) ==> overridden(t.store, other, key)
                && t.store.overrides[other][key] == s.store.overrides[other][key]
            &&& reported_skipped(s.skipped, other, key) ==> reported_skipped(t.skipped, other, key)
            &&& t.store.global == s.store.global
            &&& other != version ==> (t.store.overrides.dom().contains(other)
                <==> s.store.overrides.dom().contains(other)) && (
            s.store.overrides.dom().contains(other) ==> t.store.overrides[other]
                == s.store.overrides[other])
        }),
{
    let t = import_one(s, version, name, value);
    if reported_skipped(s.skipped, other, key) {
        let k = choose|k: int|
            0 <= k < s.skipped.len() && (#[trigger] s.skipped[k]).version == other
                && s.skipped[k].key == key;
        assert(t.skipped[k] == s.skipped[k]);
    }
}

/// Every directive of a list is accounted for once the list is imported.
pub proof fn every_directive_is_accounted_for(
    s: Import,
    version: Seq<char>,
    list: Seq<(Seq<char>, Seq<char>)>,
    i: int,
)
    requires
        0 <= i < list.len(),
    ensures
        accounted(import_all(s, version, list), version, list[i].0, list[i].1),
    decreases list.len(),
{
    let before = import_all(s, version, list.drop_last());
    let t = import_all(s, version, list);
    let (key, value) = list[i];
    if i == list.len() - 1 {
        if !(key_accepted(key) && value_accepted(value)) {
            assert(t.skipped[before.skipped.len() as int].key == key);
        }
    } else {
        assert(list.drop_last()[i] == list[i]);
        every_directive_is_accounted_for(s, version, list.drop_last(), i);
        one_import_keeps(before, version, list.last().0, list.last().1, version, key);
    }
}

/// Every key of every section of a legacy file that could be parsed is
/// accounted for: it is an override of the file's version, or it is reported
/// as skipped. A file that could not be parsed is itself reported.
pub proof fn no_legacy_setting_is_lost(
    s: Import,
    version: Seq<char>,
    p: Seq<char>,
    sections: Seq<(Seq<char>, Seq<(Seq<char>, Option<Seq<char>>)>)>,
    why: Seq<char>,
    i: int,
    j: int,
)
    ensures
        0 <= i < sections.len() && 0 <= j < sections[i].1.len() ==> accounted(
            import_file(s, version, p, Ok(sections)),
            version,
            sections[i].1[j].0,
            match sections[i].1[j].1 {
                Some(v) => v,
                None => Seq::<char>::empty(),
            },
        ),
        reported_skipped(
            import_file(s, version, p, Err(why)).skipped,
            version,
            Seq::<char>::empty(),
        ),
        import_file(s, version, p, Err(why)).store == s.store,
{
    let bad = import_file(s, version, p, Err(why));
    assert(bad.skipped[s.skipped.len() as int].version == version);
    if 0 <= i < sections.len() && 0 <= j < sections[i].1.len() {
        every_key_is_a_directive(sections, i, j);
        let all = all_directives(sections);
        let want = (
            sections[i].1[j].0,
            match sections[i].1[j].1 {
                Some(v) => v,
                None => Seq::<char>::empty(),
            },
        );
        let k = choose|k: int| 0 <= k < all.len() && all[k] == want;
        every_directive_is_accounted_for(s, version, all, k);
    }
}

proof fn later_files_keep(
    s: Import,
    files: Seq<LegacyView>,
    version: Seq<char>,
    key: Seq<char>,
)
    ensures
        ({
            let t = import_files(s, files);
            &&& overridden(s.store, version, key) ==> overridden(t.store, version, key)
                && t.store.overrides[version][key] == s.store.overrides[version][key]
            &&& reported_skipped(s.skipped, version, key) ==> reported_skipped(
                t.skipped,
                version,
                key,
            )
            &&& t.store.global == s.store.global
        }),
    decreases files.len(),
{
    if files.len() > 0 {
        later_files_keep(s, files.drop_last(), version, key);
        one_file_keeps(import_files(s, files.drop_last()), files.last(), version, key);
    }
}

proof fn one_file_keeps(s: Import, f: LegacyView, version: Seq<char>, key: Seq<char>)
    ensures
        ({
            let t = import_file(s, f.version, f.path, file_parsed(f.input));
            &&& overridden(s.store, version, key) ==> overridden(t.store, version, key)
                && t.store.overrides[version][key] == s.store.overrides[version][key]
            &&& reported_skipped(s.skipped, version, key) ==> reported_skipped(
                t.skipped,
                version,
                key,
            )
            &&& t.store.global == s.store.global
        }),
{
    let t = import_file(s, f.version, f.path, file_parsed(f.input));
    match file_parsed(f.input) {
        Ok(sections) => {
            later_imports_keep(s, f.version, all_directives(sections), version, key);
        },
        Err(why) => {
            if reported_skipped(s.skipped, version, key) {
                let k = choose|k: int|
                    0 <= k < s.skipped.len() && (#[trigger] s.skipped[k]).version == version
                        && s.skipped[k].key == key;
                assert(t.skipped[k] == s.skipped[k]);
            }
        },
    }
}

/// A migration of several files accounts for every key of every section of
/// every file, keeps the overrides that were there, and never touches the
/// global values.
pub proof fn migration_loses_nothing(
    store: IniStore,
    files: Seq<LegacyView>,
    f: int,
    i: int,
    j: int,
    version: Seq<char>,
    key: Seq<char>,
)
    requires
        0 <= f < files.len(),
    ensures
        ({
            let t = migration_begin(store, files).staged;
            &&& file_parsed(files[f].input) matches Ok(sections) ==> (0 <= i < sections.len() && 0
                <= j < sections[i].1.len() ==> accounted(
                t,
                files[f].version,
                sections[i].1[j].0,
                match sections[i].1[j].1 {
                    Some(v) => v,
                    None => Seq::<char>::empty(),
                },
            ))
            &&& file_parsed(files[f].input) is Err ==> reported_skipped(
                t.skipped,
                files[f].version,
                Seq::<char>::empty(),
            )
            &&& overridden(store, version, key) ==> overridden(t.store, version, key)
                && t.store.overrides[version][key] == store.overrides[version][key]
            &&& t.store.global == store.global
        }),
{
    let s = Import { store, imported: Seq::empty(), skipped: Seq::empty() };
    later_files_keep(s, files, version, key);
    file_is_accounted_for(s, files, f, i, j);
}

proof fn file_is_accounted_for(s: Import, files: Seq<LegacyView>, f: int, i: int, j: int)
    requires
        0 <= f < files.len(),
    ensures
        ({
            let t = import_files(s, files);
            &&& file_parsed(files[f].input) matches Ok(sections) ==> (0 <= i < sections.len() && 0
                <= j < sections[i].1.len() ==> accounted(
                t,
                files[f].version,
                sections[i].1[j].0,
                match sections[i].1[j].1 {
                    Some(v) => v,
                    None => Seq::<char>::empty(),
                },
            ))
            &&& file_parsed(files[f].input) is Err ==> reported_skipped(
                t.skipped,
                files[f].version,
                Seq::<char>::empty(),
            )
        }),
    decreases files.len(),
{
    let before = import_files(s, files.drop_last());
    let last = files.last();
    let sections = match file_parsed(files[f].input) {
        Ok(x) => x,
        Err(_) => Seq::empty(),
    };
    let why = match file_parsed(files[f].input) {
        Ok(_) => Seq::empty(),
        Err(e) => e,
    };
    if f == files.len() - 1 {
        no_legacy_setting_is_lost(before, last.version, last.path, sections, why, i, j);
    } else {
        assert(files.drop_last()[f] == files[f]);
        file_is_accounted_for(s, files.drop_last(), f, i, j);
        one_file_keeps(before, last, files[f].version, Seq::empty());
        if 0 <= i < sections.len() && 0 <= j < sections[i].1.len() {
            one_file_keeps(before, last, files[f].version, sections[i].1[j].0);
        }
    }
}

/// The first value of a key that the guard accepts is the one that a version
/// without an override of the key gets.
pub proof fn first_accepted_value_is_imported(
    s: Import,
    version: Seq<char>,
    list: Seq<(Seq<char>, Seq<char>)>,
    i: int,
)
    requires
        0 <= i < list.len(),
        key_accepted(list[i].0),
        value_accepted(list[i].1),
        !overridden(s.store, version, list[i].0),
        forall|j: int|
            0 <= j < i ==> (#[trigger] list[j]).0 != list[i].0 || !value_accepted(list[j].1),
    ensures
        ({
            let t = import_all(s, version, list);
            overridden(t.store, version, list[i].0) && t.store.overrides[version][list[i].0]
                == list[i].1 && t.imported.contains((version, list[i].0))
        }),
    decreases list.len(),
{
    let before = import_all(s, version, list.drop_last());
    let t = import_all(s, version, list);
    let key = list[i].0;
    if i == list.len() - 1 {
        not_imported_yet(s, version, list.drop_last(), key);
        assert(t.imported[before.imported.len() as int] == (version, key));
    } else {
        let rest = list.drop_last();
        assert(rest[i] == list[i]);
        assert forall|j: int| 0 <= j < i implies (#[trigger] rest[j]).0 != rest[i].0
            || !value_accepted(rest[j].1) by {
            assert(rest[j] == list[j]);
        }
        first_accepted_value_is_imported(s, version, rest, i);
        one_import_keeps(before, version, list.last().0, list.last().1, version, key);
        let k = choose|k: int| 0 <= k < before.imported.len() && before.imported[k] == (version, key);
        assert(t.imported[k] == (version, key));
    }
}

proof fn not_imported_yet(
    s: Import,
    version: Seq<char>,
    list: Seq<(Seq<char>, Seq<char>)>,
    key: Seq<char>,
)
    requires
        !overridden(s.store, version, key),
        forall|j: int| 0 <= j < list.len() ==> (#[trigger] list[j]).0 != key || !value_accepted(list[j].1),
    ensures
        !overridden(import_all(s, version, list).store, version, key),
    decreases list.len(),
{
    if list.len() > 0 {
        let rest = list.drop_last();
        assert forall|j: int| 0 <= j < rest.len() implies (#[trigger] rest[j]).0 != key
            || !value_accepted(rest[j].1) by {
            assert(rest[j] == list[j]);
        }
        not_imported_yet(s, version, rest, key);
        assert(list[list.len() - 1] == list.last());
    }
}

/// Nothing but what the list names is imported: a key that no accepted
/// directive sets stays as it was, and so does every other version.
pub proof fn nothing_else_is_imported(
    s: Import,
    version: Seq<char>,
    list: Seq<(Seq<char>, Seq<char>)>,
    other: Seq<char>,
    key: Seq<char>,
)
    ensures
        ({
            let t = import_all(s, version, list);
            &&& !overridden(s.store, version, key) && (forall|j: int|
                0 <= j < list.len() ==> (#[trigger] list[j]).0 != key || !value_accepted(
                    list[j].1,
                )) ==> !overridden(t.store, version, key)
            &&& other != version ==> (overridden(t.store, other, key) <==> overridden(
                s.store,
                other,
                key,
            ))
            &&& overridden(s.store, other, key) ==> t.store.overrides[other][key]
                == s.store.overrides[other][key]
            &&& t.store.global == s.store.global
        }),
{
    later_imports_keep(s, version, list, other, key);
    if !overridden(s.store, version, key) && (forall|j: int|
        0 <= j < list.len() ==> (#[trigger] list[j]).0 != key || !value_accepted(list[j].1)) {
        not_imported_yet(s, version, list, key);
    }
}

/// A legacy file is retired where it could be parsed, and only there; the
/// files come in their order.
pub proof fn parsed_files_are_retired(files: Seq<LegacyView>)
    ensures
        retired(files) == files.filter(|f: LegacyView| file_parsed(f.input) is Ok).map_values(
            |f: LegacyView| f.path,
        ),
    decreases files.len(),
{
    reveal(Seq::filter);
    let fine = |f: LegacyView| file_parsed(f.input) is Ok;
    let at = |f: LegacyView| f.path;
    if files.len() > 0 {
        parsed_files_are_retired(files.drop_last());
        let kept = files.drop_last().filter(fine);
        if fine(files.last()) {
            assert(files.filter(fine) == kept.push(files.last()));
            assert(kept.push(files.last()).map_values(at) =~= kept.map_values(at).push(
                files.last().path,
            ));
        } else {
            assert(files.filter(fine) == kept);
        }
    } else {
        assert(files.filter(fine).map_values(at) =~= Seq::empty());
    }
}

/// What is imported is saved before anything is retired, and a retired file
/// keeps its directory under the name of a backup.
pub proof fn retired_files_become_backups(
    store: IniStore,
    files: Seq<LegacyView>,
    legacy: Seq<char>,
    attempt: nat,
)
    ensures
        retired(files).len() > 0 && migration_begin(store, files).staged.store != store
            ==> migration_begin(store, files).stage == (MigrationStageView::Saving { prior: store }),
        retired(files).len() > 0 && migration_begin(store, files).staged.store == store
            ==> migration_begin(store, files).stage == (MigrationStageView::Retiring {
            at: 0,
            attempt: 0,
        }),
        migration_begin(store, files).to_retire == retired(files),
        backup_of(legacy, attempt) == path::joined(
            path::dir_of(legacy),
            if attempt == 0 {
                "php.ini.migrated.bak"@
            } else {
                "php.ini.migrated.bak."@ + text::decimal(attempt)
            },
        ),
{
}

// ---- the whole report ----
/// A transaction that failed is reported as one failure of the manifest; one
/// that ended reports every channel, the targets passed over, and rows that
/// could not be pruned.
pub proof fn report_is_of_the_whole(
    groups: Seq<GroupView>,
    skipped: Seq<SkippedView>,
    t: TxnView,
    manifest_path: Seq<char>,
)
    ensures
        t.stage is Failed ==> ({
            let r = report_of(groups, skipped, t, manifest_path);
            &&& r.files.len() == 1 && r.files[0].path == manifest_path
            &&& r.files[0].outcome is Failed
            &&& r.skipped.len() == 0
        }),
        !(t.stage is Failed) && groups.len() == t.batch.jobs.len() && t.batch.outcomes.len()
            == groups.len() ==> ({
            let r = report_of(groups, skipped, t, manifest_path);
            let all = channel_actions(
                groups,
                t.batch.jobs,
                t.batch.outcomes,
                groups.len() as int,
            );
            &&& r.skipped == skipped
            &&& t.prune_error is None ==> r.files == all
            &&& t.prune_error is Some ==> r.files.len() == all.len() + 1 && r.files.drop_last()
                == all && r.files.last().path == manifest_path && r.files.last().outcome is Failed
        }),
{
    let r = report_of(groups, skipped, t, manifest_path);
    let all = channel_actions(groups, t.batch.jobs, t.batch.outcomes, groups.len() as int);
    if !(t.stage is Failed) && t.prune_error is Some && groups.len() == t.batch.jobs.len()
        && t.batch.outcomes.len() == groups.len() {
        assert(r.files.drop_last() =~= all);
    }
}

/// Unmanaging that ended tells every removal; one whose transaction failed, or
/// that a fault of the journal cut short, tells that.
pub proof fn unmanaging_is_told(t: TxnView)
    ensures
        t.stage is Failed ==> unmanage_verdict(t) is Err,
        !(t.stage is Failed) && t.batch.outcomes.len() == t.rows_before.len() && (forall|i: int|
            0 <= i < t.batch.outcomes.len() ==> !((#[trigger] t.batch.outcomes[i]) is Failed))
            ==> unmanage_verdict(t) == Ok::<Seq<ActionView>, Seq<char>>(
            removal_actions(t.rows_before, t.batch.outcomes, t.rows_before.len() as int),
        ),
        !(t.stage is Failed) && t.batch.policy == Policy::StopOnJournalFault
            && t.batch.outcomes.len() > 0 ==> (t.batch.outcomes.last() matches OutcomeView::Failed {
            error,
        } ==> ("could not journal pending delete:"@.is_prefix_of(error)
            || "channel file removed but manifest finalization failed:"@.is_prefix_of(error)
            ==> unmanage_verdict(t) == Err::<Seq<ActionView>, Seq<char>>(error))),
{
    if t.batch.outcomes.len() > 0 {
        assert(t.batch.outcomes[t.batch.outcomes.len() - 1] == t.batch.outcomes.last());
    }
}

// ---- hashes ----
/// The value of a hexadecimal digit.
pub open spec fn nibble(c: char) -> int {
    if '0' <= c && c <= '9' {
        c as int - '0' as int
    } else {
        c as int - 'a' as int + 10
    }
}

/// A byte string is written as two lower-case hexadecimal digits per byte, the
/// higher one first.
pub proof fn hashes_are_in_hexadecimal(bytes: Seq<u8>, i: int)
    requires
        0 <= i < bytes.len(),
    ensures
        hex(bytes).len() == 2 * bytes.len(),
        nibble(hex(bytes)[2 * i]) * 16 + nibble(hex(bytes)[2 * i + 1]) == bytes[i],
        ({
            let c = hex(bytes)[2 * i];
            ('0' <= c && c <= '9') || ('a' <= c && c <= 'f')
        }),
        ({
            let c = hex(bytes)[2 * i + 1];
            ('0' <= c && c <= '9') || ('a' <= c && c <= 'f')
        }),
    decreases bytes.len(),
{
    let rest = bytes.drop_last();
    let h = hex(bytes);
    let n = rest.len() as int;
    hex_length(rest);
    hex_length(bytes);
    let b = bytes.last();
    assert(b == (b / 16) * 16 + b % 16);
    if i == n {
        assert(h[2 * n] == crate::php::reconcile::hex_digit(b / 16));
        assert(h[2 * n + 1] == crate::php::reconcile::hex_digit(b % 16));
    } else {
        hashes_are_in_hexadecimal(rest, i);
        assert(rest[i] == bytes[i]);
        assert(h[2 * i] == hex(rest)[2 * i]);
        assert(h[2 * i + 1] == hex(rest)[2 * i + 1]);
    }
}

proof fn hex_length(bytes: Seq<u8>)
    ensures
        hex(bytes).len() == 2 * bytes.len(),
    decreases bytes.len(),
{
    if bytes.len() > 0 {
        hex_length(bytes.drop_last());
    }
}

// ---- the order of channels ----
/// The channels are reconciled by version, and within a version by directory.
pub proof fn channels_go_by_version_and_directory(targets: Seq<TargetView>, i: int, j: int)
    requires
        0 <= i < j < channels(targets).len(),
    ensures
        ({
            let a = channels(targets)[i];
            let b = channels(targets)[j];
            text::lt(a.version, b.version) || (a.version == b.version && path::key_lt(
                path::key(a.dir),
                path::key(b.dir),
            ))
        }),
{
    crate::php::reconcile::channels_are_in_order(targets);
}

// ---- retiring, step by step ----
/// A migration goes by its steps: the save, then for each file a free name and
/// the rename; a step that fails ends it.
pub proof fn migration_goes_step_by_step(v: MigrationView, at: int, attempt: nat, e: Seq<char>)
    ensures
        v.stage is Saving && v.to_retire.len() > 0 ==> migration_next(
            v,
            MigrationReplyView::Did(Ok(())),
        ) == (MigrationView { stage: MigrationStageView::Retiring { at: 0, attempt: 0 }, ..v }),
        v.stage matches MigrationStageView::Saving { prior } ==> ({
            let n = migration_next(v, MigrationReplyView::Did(Err(e)));
            n.staged.store == prior && n.stage == (MigrationStageView::Done { result: Err(e) })
        }),
        v.stage == (MigrationStageView::Retiring { at, attempt }) ==> migration_next(
            v,
            MigrationReplyView::Taken(true),
        ) == (MigrationView {
            stage: MigrationStageView::Retiring { at, attempt: attempt + 1 },
            ..v
        }) && migration_next(v, MigrationReplyView::Taken(false)) == (MigrationView {
            stage: MigrationStageView::Renaming { at, attempt },
            ..v
        }),
        v.stage == (MigrationStageView::Renaming { at, attempt }) && 0 <= at < v.to_retire.len()
            ==> ({
            let n = migration_next(v, MigrationReplyView::Did(Ok(())));
            &&& n.migrated == v.migrated.push(v.to_retire[at])
            &&& at + 1 < v.to_retire.len() ==> n.stage == (MigrationStageView::Retiring {
                at: at + 1,
                attempt: 0,
            })
            &&& at + 1 == v.to_retire.len() ==> n.stage == (MigrationStageView::Done {
                result: Ok(()),
            })
            &&& n.staged == v.staged
        }),
        v.stage is Renaming ==> migration_next(v, MigrationReplyView::Did(Err(e))).stage == (
        MigrationStageView::Done { result: Err(e) }),
{
}

/// Why a directive is skipped is what the guard says of it.
pub proof fn skipped_directives_tell_why(
    s: Import,
    version: Seq<char>,
    key: Seq<char>,
    value: Seq<char>,
)
    ensures
        ({
            let t = import_one(s, version, key, value);
            &&& key_fault(key) matches Some(f) ==> t.store == s.store && t.imported == s.imported
                && t.skipped == s.skipped.push(
                SkippedDirectiveView { version, key, reason: fault_said(f) },
            )
            &&& key_fault(key) is None ==> (value_fault(value) matches Some(f) ==> t.store == s.store
                && t.imported == s.imported && t.skipped == s.skipped.push(
                SkippedDirectiveView { version, key, reason: fault_said(f) },
            ))
            &&& key_fault(key) is None && value_fault(value) is None ==> t.skipped == s.skipped
        }),
{
}

} // verus!
