//! What holds of the FPM artifacts over whole transactions, on a machine that
//! nobody disturbs: a second materialization changes nothing, and unmanaging
//! leaves nothing behind.

use crate::fs::{self, facts_by_key, Disk};
use crate::path::{self, PathKey};
use crate::php::artifact::{
    self, amend, apply_next, deleting_row, ApplyStageView, DirIdentity, RemoveStageView, ReplyView,
};
use crate::php::batch::{
    self, batch_next, batch_start, BatchView, CurrentView, JobView, Policy,
};
use crate::php::channel_dir::channel_verdict;
use crate::php::fpm::{
    artifact_jobs, conf_of, conf_state_of, manifest_of, materialized, probe_of, rows_fault,
    socket_of, MaterializeView, StateView, PRIVATE_MODE, PROBE_SCRIPT_V1,
};
use crate::php::journal::{amend_keeps_slot, finished, in_step, put_is_found};
use crate::php::manifest::{
    self, is_slot, slot, EntryState, EntryView, ManifestView, OutcomeView, MANIFEST_VERSION,
};
use crate::php::preflight::{collision, path_collision};
use crate::php::reconcile::{removal_actions, text_sha, unmanage_verdict, ActionView};
use crate::php::recovery::{resolutions, resolved_rows, SeenView};
use crate::php::txn::{
    self, begun, removals, txn_next, txn_start, waits_for_lock, FinalizeMode, PurposeView,
    TxnReplyView, TxnStageView, TxnView,
};
use vstd::prelude::*;

verus! {

// ---- the machine ----
/// The manifest file, if there is one, and the files that are there, each by
/// the hash of its content.
#[verifier::ext_equal]
pub struct Machine {
    pub manifest: Option<ManifestView>,
    pub files: Map<PathKey, Seq<char>>,
}

pub open spec fn hash_at(x: Machine, p: Seq<char>) -> Option<Seq<char>> {
    if x.files.dom().contains(path::key(p)) {
        Some(x.files[path::key(p)])
    } else {
        None
    }
}

/// What the manifest file is read as.
pub open spec fn loaded(x: Machine) -> ManifestView {
    match x.manifest {
        Some(m) => m,
        None => ManifestView { version: MANIFEST_VERSION, files: Seq::empty() },
    }
}

/// What a machine answers by: a snapshot of it, the identity of the verified
/// directory, and the clock.
pub struct Answers {
    pub disk: Disk,
    pub identity: DirIdentity,
    pub now: Option<u64>,
}

/// What an undisturbed machine answers to the job under way.
pub open spec fn job_reply(x: Machine, current: CurrentView, a: Answers) -> ReplyView {
    match current {
        CurrentView::Apply(run) => match run.stage {
            ApplyStageView::Probe => ReplyView::Hash(hash_at(x, run.spec.final_path)),
            ApplyStageView::CheckDir => ReplyView::Present(true),
            ApplyStageView::Verify => ReplyView::Identity(Ok(a.identity)),
            ApplyStageView::Stamp => ReplyView::Clock(a.now),
            _ => ReplyView::Did(Ok(())),
        },
        CurrentView::Remove(run) => match run.stage {
            RemoveStageView::Probe => ReplyView::Hash(hash_at(x, run.final_path)),
            _ => ReplyView::Did(Ok(())),
        },
        CurrentView::Finished => ReplyView::Did(Ok(())),
    }
}

/// What an undisturbed machine answers to a transaction: whatever is asked for
/// is done, and whatever is looked at is told as it is.
pub open spec fn answer(x: Machine, t: TxnView, a: Answers) -> TxnReplyView {
    match t.stage {
        TxnStageView::Load => TxnReplyView::Loaded(Ok(loaded(x))),
        TxnStageView::Observe => TxnReplyView::Observed(
            Seq::new(
                t.manifest.files.len(),
                |i: int|
                    SeenView {
                        sha256: hash_at(x, t.manifest.files[i].path),
                        unreadable: false,
                        unix_ms: a.now,
                    },
            ),
        ),
        TxnStageView::Preflight => TxnReplyView::Looked(a.disk),
        TxnStageView::Work => TxnReplyView::Artifact(job_reply(x, t.batch.current, a)),
        TxnStageView::Prune => TxnReplyView::Existing(
            Seq::new(
                t.manifest.files.len(),
                |i: int| hash_at(x, t.manifest.files[i].path) is Some,
            ),
        ),
        TxnStageView::FindManifest => TxnReplyView::Found(x.manifest is Some),
        _ => if waits_for_lock(t.stage) {
            TxnReplyView::Lock(Ok(()))
        } else {
            TxnReplyView::Did(Ok(()))
        },
    }
}

/// The machine after a stage of a job was carried out.
pub open spec fn job_done(x: Machine, current: CurrentView, m: ManifestView) -> Machine {
    let saved = Machine { manifest: Some(m), ..x };
    match current {
        CurrentView::Apply(run) => match run.stage {
            ApplyStageView::Journal => saved,
            ApplyStageView::Refusing { reason } => saved,
            ApplyStageView::Failing { error } => saved,
            ApplyStageView::Finish => saved,
            ApplyStageView::Write { identity } => Machine {
                files: x.files.insert(path::key(run.spec.final_path), run.desired_sha),
                ..x
            },
            _ => x,
        },
        CurrentView::Remove(run) => match run.stage {
            RemoveStageView::Release { index, entry } => saved,
            RemoveStageView::Journal => saved,
            RemoveStageView::Failing { error } => saved,
            RemoveStageView::Finish { index, entry } => saved,
            RemoveStageView::Unlink => Machine {
                files: x.files.remove(path::key(run.final_path)),
                ..x
            },
            _ => x,
        },
        CurrentView::Finished => x,
    }
}

/// The machine after a stage of a transaction was carried out.
pub open spec fn done(x: Machine, t: TxnView) -> Machine {
    match t.stage {
        TxnStageView::Work => job_done(x, t.batch.current, t.manifest),
        TxnStageView::SaveRecovered => Machine { manifest: Some(t.manifest), ..x },
        TxnStageView::SavePruned => Machine { manifest: Some(t.manifest), ..x },
        TxnStageView::SaveFinal => Machine { manifest: Some(t.manifest), ..x },
        TxnStageView::UnlinkManifest => Machine { manifest: None, ..x },
        _ => x,
    }
}

/// A transaction on a machine.
pub struct Scene {
    pub t: TxnView,
    pub x: Machine,
}

pub open spec fn advance(s: Scene, a: Answers) -> Scene {
    Scene { t: txn_next(s.t, answer(s.x, s.t, a)), x: done(s.x, s.t) }
}

/// A transaction on an undisturbed machine, after `n` answers.
pub open spec fn ran(s: Scene, a: Answers, n: nat) -> Scene
    decreases n,
{
    if n == 0 {
        s
    } else {
        ran(advance(s, a), a, (n - 1) as nat)
    }
}

/// A snapshot shows a file as the machine has it.
pub open spec fn shows_file(d: Disk, x: Machine, p: Seq<char>) -> bool {
    let f = fs::facts(d, p);
    match hash_at(x, p) {
        Some(h) => f.exists && f.link is Ok && !f.link->Ok_0.is_symlink && f.link->Ok_0.is_file
            && f.hash == Ok::<Seq<char>, Seq<char>>(h),
        None => !f.exists && f.link is Err && f.link->Err_0.0,
    }
}

/// A snapshot shows the artifacts and the manifest file as the machine has
/// them.
pub open spec fn shows(d: Disk, config_dir: Seq<char>, x: Machine) -> bool {
    let f = fs::facts(d, manifest_of(config_dir));
    &&& shows_file(d, x, conf_of(config_dir))
    &&& shows_file(d, x, probe_of(config_dir))
    &&& match x.manifest {
        Some(_) => f.link is Ok && !f.link->Ok_0.is_symlink && f.link->Ok_0.is_file,
        None => f.link is Err && f.link->Err_0.0,
    }
}

/// The state of the FPM configuration of a machine.
pub open spec fn state_of(d: Disk, config_dir: Seq<char>, x: Machine) -> StateView {
    conf_state_of(config_dir, d, Ok(loaded(x)))
}

// ---- what an owned set is ----
/// Exactly the two artifacts are tracked, settled, and on disk as recorded.
spec fn in_order(config_dir: Seq<char>, x: Machine) -> bool {
    let files = loaded(x).files;
    &&& x.manifest is Some
    &&& loaded(x).version == MANIFEST_VERSION
    &&& files.len() == 2
    &&& path::key(conf_of(config_dir)) != path::key(probe_of(config_dir))
    &&& forall|i: int|
        0 <= i < 2 ==> (#[trigger] files[i]).state == EntryState::Applied && hash_at(
            x,
            files[i].path,
        ) == Some(files[i].sha256)
    &&& slot(files, conf_of(config_dir)) is Some
    &&& slot(files, probe_of(config_dir)) is Some
    &&& slot(files, conf_of(config_dir)) != slot(files, probe_of(config_dir))
}

proof fn slot_of(files: Seq<EntryView>, p: Seq<char>)
    requires
        slot(files, p) is Some,
    ensures
        is_slot(files, p, slot(files, p)->0),
{
    let k = choose|k: int| is_slot(files, p, k);
}

proof fn rows_tell_apart(
    files: Seq<EntryView>,
    conf: Seq<char>,
    probe: Seq<char>,
    saw_conf: bool,
    saw_probe: bool,
    k: int,
)
    requires
        rows_fault(files, conf, probe, saw_conf, saw_probe) is None,
        0 <= k < files.len(),
        path::key(files[k].path) == path::key(conf),
    ensures
        path::key(conf) != path::key(probe),
    decreases files.len(),
{
    if k > 0 {
        let e = files[0];
        let is_conf = path::key(e.path) == path::key(conf);
        let (c, p) = if is_conf {
            (true, saw_probe)
        } else {
            (saw_conf, true)
        };
        rows_tell_apart(files.drop_first(), conf, probe, c, p, k - 1);
    }
}

proof fn owned_is_in_order(config_dir: Seq<char>, x: Machine, d: Disk)
    requires
        x.manifest is Some,
        shows(d, config_dir, x),
        state_of(d, config_dir, x) is HearthOwned,
    ensures
        in_order(config_dir, x),
        state_of(d, config_dir, x)->conf_sha256 == loaded(x).files[slot(
            loaded(x).files,
            conf_of(config_dir),
        )->0].sha256,
        state_of(d, config_dir, x)->probe_sha256 == loaded(x).files[slot(
            loaded(x).files,
            probe_of(config_dir),
        )->0].sha256,
{
    let conf = conf_of(config_dir);
    let probe = probe_of(config_dir);
    let files = loaded(x).files;
    let i = slot(files, conf)->0;
    let j = slot(files, probe)->0;
    slot_of(files, conf);
    slot_of(files, probe);
    rows_tell_apart(files, conf, probe, false, false, i);
    facts_by_key(d.seen, files[i].path, conf);
    facts_by_key(d.seen, files[j].path, probe);
    assert forall|k: int| 0 <= k < 2 implies (#[trigger] files[k]).state == EntryState::Applied
        && hash_at(x, files[k].path) == Some(files[k].sha256) by {
        assert(k == i || k == j);
    }
}

// ---- opening and closing ----
proof fn settled_rows_stay(files: Seq<EntryView>, seen: Seq<SeenView>)
    requires
        seen.len() == files.len(),
        forall|i: int| 0 <= i < files.len() ==> (#[trigger] files[i]).state == EntryState::Applied,
    ensures
        resolved_rows(files, seen) == files,
        resolutions(files, seen) == Seq::<(Seq<char>, crate::php::recovery::RecoveryView)>::empty(),
    decreases files.len(),
{
    if files.len() > 0 {
        let rest = files.drop_last();
        assert forall|i: int| 0 <= i < rest.len() implies (#[trigger] rest[i]).state
            == EntryState::Applied by {
            assert(rest[i] == files[i]);
        }
        settled_rows_stay(rest, seen.drop_last());
        assert(files[files.len() - 1] == files.last());
        assert(rest.push(files.last()) =~= files);
    } else {
        assert(files =~= Seq::empty());
    }
}

/// A transaction on settled rows comes to its work with the manifest as it was
/// read.
proof fn opening(x: Machine, a: Answers, purpose: PurposeView)
    requires
        forall|i: int|
            0 <= i < loaded(x).files.len() ==> (#[trigger] loaded(x).files[i]).state
                == EntryState::Applied,
    ensures
        ({
            let start = txn_start(purpose, FinalizeMode::DeleteWhenEmpty);
            let s = ran(Scene { t: start, x }, a, 6);
            let t = TxnView { manifest: loaded(x), ..start };
            &&& s.x == x
            &&& s.t == if purpose is Materialize {
                txn::to(t, TxnStageView::Preflight)
            } else {
                begun(t)
            }
        }),
{
    let start = txn_start(purpose, FinalizeMode::DeleteWhenEmpty);
    let t = TxnView { manifest: loaded(x), ..start };
    let s0 = Scene { t: start, x };
    let s1 = advance(s0, a);
    let s2 = advance(s1, a);
    let s3 = advance(s2, a);
    let s4 = advance(s3, a);
    assert(s4.t == txn::to(t, TxnStageView::Observe));
    let seen = answer(x, s4.t, a)->Observed_0;
    settled_rows_stay(loaded(x).files, seen);
    let s5 = advance(s4, a);
    assert(s5.t =~= txn::to(t, TxnStageView::CheckRecovered));
    let s6 = advance(s5, a);
    assert(s6.x == x);
    six(s0, a);
}

proof fn six(s: Scene, a: Answers)
    ensures
        ran(s, a, 6) == advance(
            advance(advance(advance(advance(advance(s, a), a), a), a), a),
            a,
        ),
{
    reveal_with_fuel(ran, 7);
}

proof fn further(s: Scene, a: Answers, m: nat, n: nat)
    ensures
        ran(ran(s, a, m), a, n) == ran(s, a, m + n),
    decreases m,
{
    if m > 0 {
        further(advance(s, a), a, (m - 1) as nat, n);
    }
}

proof fn five(s: Scene, a: Answers)
    ensures
        ran(s, a, 5) == advance(advance(advance(advance(advance(s, a), a), a), a), a),
{
    reveal_with_fuel(ran, 6);
}

// ---- materializing again ----
proof fn owned_files_do_not_collide(config_dir: Seq<char>, x: Machine, d: Disk, rendered: Seq<char>)
    requires
        in_order(config_dir, x),
        shows(d, config_dir, x),
    ensures
        collision(
            loaded(x),
            txn::job_paths(artifact_jobs(config_dir, rendered)),
            d,
        ) is None,
{
    let conf = conf_of(config_dir);
    let probe = probe_of(config_dir);
    let m = loaded(x);
    let paths = txn::job_paths(artifact_jobs(config_dir, rendered));
    assert(paths =~= seq![conf, probe]);
    slot_of(m.files, conf);
    slot_of(m.files, probe);
    assert(path_collision(m, conf, d) is None);
    assert(path_collision(m, probe, d) is None);
    assert(paths.drop_first() =~= seq![probe]);
    assert(seq![probe].drop_first() =~= Seq::empty());
    assert(collision(m, Seq::empty(), d) is None);
    assert(collision(m, seq![probe], d) is None);
}

/// Materializing again changes nothing: where an earlier materialization left
/// the artifacts of this template owned, and nothing was changed since, both are
/// reported as unchanged, the state stays the same, and so does everything on
/// the machine.
pub proof fn second_materialization_changes_nothing(
    config_dir: Seq<char>,
    rendered: Seq<char>,
    x: Machine,
    a: Answers,
)
    requires
        x.manifest is Some,
        shows(a.disk, config_dir, x),
        state_of(a.disk, config_dir, x) is HearthOwned,
        state_of(a.disk, config_dir, x)->conf_sha256 == text_sha(rendered),
        state_of(a.disk, config_dir, x)->probe_sha256 == text_sha(PROBE_SCRIPT_V1@),
    ensures
        ({
            let start = txn_start(
                PurposeView::Materialize { jobs: artifact_jobs(config_dir, rendered) },
                FinalizeMode::DeleteWhenEmpty,
            );
            let s = ran(Scene { t: start, x }, a, 11);
            let state = state_of(a.disk, config_dir, x);
            &&& s.t.stage is Done
            &&& s.x == x
            &&& materialized(s.t, state) == (MaterializeView {
                conf: OutcomeView::Unchanged,
                probe: OutcomeView::Unchanged,
                state,
            })
        }),
{
    let jobs = artifact_jobs(config_dir, rendered);
    let purpose = PurposeView::Materialize { jobs };
    let start = txn_start(purpose, FinalizeMode::DeleteWhenEmpty);
    let m = loaded(x);
    let conf = conf_of(config_dir);
    let probe = probe_of(config_dir);
    owned_is_in_order(config_dir, x, a.disk);
    opening(x, a, purpose);
    let s0 = Scene { t: start, x };
    let s6 = ran(s0, a, 6);
    owned_files_do_not_collide(config_dir, x, a.disk, rendered);
    slot_of(m.files, conf);
    slot_of(m.files, probe);
    let t = TxnView { manifest: m, ..start };
    let s7 = advance(s6, a);
    assert(s7.t == begun(t));
    let b0 = batch_start(jobs, Policy::StopOnFault);
    assert(s7.t.batch == b0);
    assert(hash_at(x, conf) == Some(text_sha(rendered)));
    assert(hash_at(x, probe) == Some(text_sha(PROBE_SCRIPT_V1@)));
    let s8 = advance(s7, a);
    assert(s8.x == x);
    assert(s8.t.manifest == m);
    assert(s8.t.batch.outcomes =~= seq![OutcomeView::Unchanged]);
    let s9 = advance(s8, a);
    assert(s9.x == x);
    assert(s9.t.manifest == m);
    assert(s9.t.batch.outcomes =~= seq![OutcomeView::Unchanged, OutcomeView::Unchanged]);
    assert(s9.t.stage is CheckWorked);
    let s10 = advance(s9, a);
    assert(s10.t.stage is CheckFinal);
    let s11 = advance(s10, a);
    five(s6, a);
    further(s0, a, 6, 5);
}

// ---- unmanaging ----
proof fn four(s: Scene, a: Answers)
    ensures
        ran(s, a, 4) == advance(advance(advance(advance(s, a), a), a), a),
{
    reveal_with_fuel(ran, 5);
}

/// The batch of removals whose next job is the file at `p`.
spec fn removing(t: TxnView, p: Seq<char>) -> bool {
    &&& t.stage is Work
    &&& t.purpose is Unmanage
    &&& t.batch.policy == Policy::All
    &&& t.batch.current == CurrentView::Remove(
        artifact::RemoveView { final_path: p, stage: RemoveStageView::Probe },
    )
}

/// The removal of an owned file deletes it and its row.
proof fn owned_file_is_removed(s: Scene, a: Answers, p: Seq<char>, i: int)
    requires
        removing(s.t, p),
        slot(s.t.manifest.files, p) == Some(i),
        hash_at(s.x, p) == Some(s.t.manifest.files[i].sha256),
    ensures
        ({
            let m = artifact::without_row(s.t.manifest, i);
            let r = ran(s, a, 4);
            &&& r.x == (Machine { manifest: Some(m), files: s.x.files.remove(path::key(p)) })
            &&& r.t == txn::worked(
                TxnView {
                    batch: batch::settled(s.t.batch, OutcomeView::Deleted),
                    manifest: m,
                    ..s.t
                },
            )
        }),
{
    let m = s.t.manifest;
    let h = m.files[i].sha256;
    let change = |e: EntryView| deleting_row(e, h);
    let journaled = amend(m, p, change);
    let b = s.t.batch;
    slot_of(m.files, p);
    amend_keeps_slot(m, p, change);
    let gone = artifact::without_row(m, i);
    assert(artifact::without_row(journaled, i).files =~= gone.files);
    let at = |stage: RemoveStageView| BatchView {
        current: CurrentView::Remove(artifact::RemoveView { final_path: p, stage }),
        ..b
    };
    let s1 = advance(s, a);
    assert(s1.x == s.x);
    assert(s1.t == (TxnView {
        batch: at(RemoveStageView::Journal),
        manifest: journaled,
        ..s.t
    }));
    let s2 = advance(s1, a);
    assert(s2.x == (Machine { manifest: Some(journaled), ..s.x }));
    assert(s2.t == (TxnView { batch: at(RemoveStageView::Unlink), manifest: journaled, ..s.t }));
    let s3 = advance(s2, a);
    assert(s3.t.manifest == gone);
    assert(s3.t.batch.current is Remove);
    let s4 = advance(s3, a);
    assert(s4.x =~= (Machine { manifest: Some(gone), files: s.x.files.remove(path::key(p)) }));
    assert(s4.t.batch == batch::settled(b, OutcomeView::Deleted));
    four(s, a);
}

/// A machine without the artifacts and their manifest.
pub open spec fn bare(x: Machine, config_dir: Seq<char>) -> Machine {
    Machine {
        manifest: None,
        files: x.files.remove(path::key(conf_of(config_dir))).remove(
            path::key(probe_of(config_dir)),
        ),
    }
}

pub open spec fn removed(e: EntryView) -> ActionView {
    ActionView {
        path: e.path,
        php_version: e.php_version,
        channel: e.channel,
        outcome: OutcomeView::Deleted,
    }
}

/// Unmanaging what a materialization left owned deletes both artifacts and the
/// manifest, touches no other file, and reports exactly the two deletions.
pub proof fn unmanaging_leaves_nothing(config_dir: Seq<char>, x: Machine, a: Answers)
    requires
        x.manifest is Some,
        shows(a.disk, config_dir, x),
        state_of(a.disk, config_dir, x) is HearthOwned,
    ensures
        ({
            let start = txn_start(
                PurposeView::Unmanage { policy: Policy::All },
                FinalizeMode::DeleteWhenEmpty,
            );
            let s = ran(Scene { t: start, x }, a, 18);
            let rows = loaded(x).files;
            &&& s.t.stage is Done
            &&& s.x == bare(x, config_dir)
            &&& rows.len() == 2
            &&& unmanage_verdict(s.t) == Ok::<Seq<ActionView>, Seq<char>>(
                seq![removed(rows[0]), removed(rows[1])],
            )
            &&& (path::key(rows[0].path) == path::key(conf_of(config_dir)) && path::key(
                rows[1].path,
            ) == path::key(probe_of(config_dir))) || (path::key(rows[0].path) == path::key(
                probe_of(config_dir),
            ) && path::key(rows[1].path) == path::key(conf_of(config_dir)))
        }),
{
    let purpose = PurposeView::Unmanage { policy: Policy::All };
    let start = txn_start(purpose, FinalizeMode::DeleteWhenEmpty);
    let m = loaded(x);
    let conf = conf_of(config_dir);
    let probe = probe_of(config_dir);
    owned_is_in_order(config_dir, x, a.disk);
    opening(x, a, purpose);
    slot_of(m.files, conf);
    slot_of(m.files, probe);
    let p0 = m.files[0].path;
    let p1 = m.files[1].path;
    assert(path::key(p0) != path::key(p1));
    let s0 = Scene { t: start, x };
    let s6 = ran(s0, a, 6);
    let jobs = removals(m.files);
    assert(jobs.len() == 2);
    // The first file.
    assert(is_slot(m.files, p0, 0));
    manifest::slot_is(m.files, p0, 0);
    assert(removing(s6.t, p0));
    owned_file_is_removed(s6, a, p0, 0);
    let s10 = ran(s6, a, 4);
    further(s0, a, 6, 4);
    // The second.
    let left = artifact::without_row(m, 0);
    assert(left.files =~= seq![m.files[1]]);
    assert(is_slot(left.files, p1, 0));
    manifest::slot_is(left.files, p1, 0);
    assert(s10.t.batch.outcomes =~= seq![OutcomeView::Deleted]);
    assert(removing(s10.t, p1));
    owned_file_is_removed(s10, a, p1, 0);
    let s14 = ran(s10, a, 4);
    further(s0, a, 10, 4);
    let none = artifact::without_row(left, 0);
    assert(none.files =~= Seq::empty());
    assert(s14.t.batch.outcomes =~= seq![OutcomeView::Deleted, OutcomeView::Deleted]);
    assert(s14.t.stage is CheckWorked);
    // The manifest.
    let s15 = advance(s14, a);
    assert(s15.t.stage is FindManifest);
    let s16 = advance(s15, a);
    assert(s16.t.stage is UnlinkManifest);
    let s17 = advance(s16, a);
    assert(s17.t.stage is CheckFinal);
    let s18 = advance(s17, a);
    four(s14, a);
    further(s0, a, 14, 4);
    assert(s18.x.files =~= bare(x, config_dir).files);
    let outcomes = s18.t.batch.outcomes;
    assert(s18.t.rows_before == m.files);
    assert(removal_actions(m.files, outcomes, 0) =~= Seq::empty());
    assert(removal_actions(m.files, outcomes, 1) =~= seq![removed(m.files[0])]);
    assert(removal_actions(m.files, outcomes, 2) =~= seq![
        removed(m.files[0]),
        removed(m.files[1]),
    ]);
}

/// Unmanaging where nothing is managed does nothing and reports nothing; so does
/// a second unmanaging.
pub proof fn unmanaging_nothing_does_nothing(x: Machine, a: Answers)
    requires
        x.manifest is None,
    ensures
        ({
            let start = txn_start(
                PurposeView::Unmanage { policy: Policy::All },
                FinalizeMode::DeleteWhenEmpty,
            );
            let s = ran(Scene { t: start, x }, a, 9);
            &&& s.t.stage is Done
            &&& s.x == x
            &&& unmanage_verdict(s.t) == Ok::<Seq<ActionView>, Seq<char>>(Seq::empty())
        }),
{
    let purpose = PurposeView::Unmanage { policy: Policy::All };
    let start = txn_start(purpose, FinalizeMode::DeleteWhenEmpty);
    opening(x, a, purpose);
    let s0 = Scene { t: start, x };
    let s6 = ran(s0, a, 6);
    assert(removals(loaded(x).files).len() == 0);
    assert(s6.t.stage is CheckWorked);
    let s7 = advance(s6, a);
    let s8 = advance(s7, a);
    let s9 = advance(s8, a);
    assert(ran(s6, a, 3) == s9) by {
        reveal_with_fuel(ran, 4);
    }
    further(s0, a, 6, 3);
}

// ---- materializing on a fresh directory ----
/// The last component of a path ends as the path does.
proof fn last_part_ends_alike(s: Seq<char>)
    requires
        s.len() > 0,
        s.last() != '/',
        s.last() != '.',
    ensures
        path::parts(s).len() > 0,
        path::parts(s).last().len() > 0,
        path::parts(s).last().last() == s.last(),
{
    let before = path::pieces(s.drop_last());
    let p = path::pieces(s);
    path::pieces_nonempty(s.drop_last());
    assert(p.last() == before.last().push(s.last()));
    assert(p.last() != seq!['.']) by {
        assert(p.last().last() == s.last());
    }
    assert(path::kept(p).last() == p.last());
}

proof fn artifacts_differ(config_dir: Seq<char>)
    ensures
        path::key(conf_of(config_dir)) != path::key(probe_of(config_dir)),
{
    reveal_strlit("fpm/php-fpm.conf");
    reveal_strlit("fpm/hearth-probe.php");
    let conf = conf_of(config_dir);
    let probe = probe_of(config_dir);
    assert(conf.last() == 'f');
    assert(probe.last() == 'p');
    last_part_ends_alike(conf);
    last_part_ends_alike(probe);
}

proof fn eight(s: Scene, a: Answers)
    ensures
        ran(s, a, 8) == advance(
            advance(
                advance(advance(advance(advance(advance(advance(s, a), a), a), a), a), a),
                a,
            ),
            a,
        ),
{
    reveal_with_fuel(ran, 9);
}

/// The batch of writes whose next job is this one.
spec fn writing(t: TxnView, spec: artifact::ArtifactView, sha: Seq<char>) -> bool {
    &&& t.stage is Work
    &&& t.purpose is Materialize
    &&& t.batch.policy == Policy::StopOnFault
    &&& t.batch.current == CurrentView::Apply(
        artifact::ApplyView { spec, desired_sha: sha, stage: ApplyStageView::Probe },
    )
}

/// A file that is not there is written, with a settled row.
proof fn free_file_is_written(s: Scene, a: Answers, spec: artifact::ArtifactView, sha: Seq<char>)
    requires
        writing(s.t, spec, sha),
        hash_at(s.x, spec.final_path) is None,
    ensures
        ({
            let m = finished(spec, sha, s.t.manifest, None, a.now);
            let r = ran(s, a, 8);
            &&& r.x == (Machine {
                manifest: Some(m),
                files: s.x.files.insert(path::key(spec.final_path), sha),
            })
            &&& r.t == txn::worked(
                TxnView {
                    batch: batch::settled(s.t.batch, OutcomeView::Written),
                    manifest: m,
                    ..s.t
                },
            )
        }),
{
    let m = s.t.manifest;
    let b = s.t.batch;
    let p = spec.final_path;
    let journaled = artifact::put(m, artifact::pending_row(spec, sha, None));
    let at = |stage: ApplyStageView| BatchView {
        current: CurrentView::Apply(artifact::ApplyView { spec, desired_sha: sha, stage }),
        ..b
    };
    let to = |stage: ApplyStageView| TxnView { batch: at(stage), manifest: journaled, ..s.t };
    let saved = Machine { manifest: Some(journaled), ..s.x };
    let identity = a.identity;
    let s1 = advance(s, a);
    assert(s1.t == to(ApplyStageView::Journal) && s1.x == s.x);
    let s2 = advance(s1, a);
    assert(s2.t == to(ApplyStageView::CheckDir) && s2.x == saved);
    let s3 = advance(s2, a);
    assert(s3.t == to(ApplyStageView::Verify) && s3.x == saved);
    let s4 = advance(s3, a);
    assert(s4.t == to(ApplyStageView::Write { identity }) && s4.x == saved);
    let s5 = advance(s4, a);
    let written = Machine { files: s.x.files.insert(path::key(p), sha), ..saved };
    assert(s5.t == to(ApplyStageView::Recheck { identity }) && s5.x == written);
    let s6 = advance(s5, a);
    assert(s6.t == to(ApplyStageView::Stamp) && s6.x == written);
    let s7 = advance(s6, a);
    let f = finished(spec, sha, m, None, a.now);
    assert(s7.t.manifest == f && s7.x == written);
    assert(s7.t.batch == at(ApplyStageView::Finish));
    let s8 = advance(s7, a);
    assert(s8.t.batch == batch::settled(b, OutcomeView::Written));
    assert(s8.x =~= (Machine { manifest: Some(f), files: written.files }));
    eight(s, a);
}

/// The snapshot shows a trusted FPM directory.
pub open spec fn trusted(d: Disk, config_dir: Seq<char>) -> bool {
    let dir = path::joined(config_dir, "fpm"@);
    let f = fs::facts(d, dir);
    &&& f.link is Ok && !f.link->Ok_0.is_symlink && f.link->Ok_0.is_dir
    &&& channel_verdict(dir, seq![config_dir], d) is Ok
}

/// What a materialized artifact is recorded as.
spec fn row_of(
    p: Seq<char>,
    channel: Seq<char>,
    sha: Seq<char>,
    now: Option<u64>,
) -> EntryView {
    let spec = artifact::ArtifactView {
        final_path: p,
        channel,
        php_version: "-"@,
        mode: PRIVATE_MODE,
    };
    artifact::applied_row(artifact::pending_row(spec, sha, None), sha, now)
}

proof fn written_state(config_dir: Seq<char>, x: Machine, d: Disk, c: EntryView, p: EntryView)
    requires
        shows(d, config_dir, x),
        trusted(d, config_dir),
        c.path == conf_of(config_dir),
        c.channel == "fpm-conf"@,
        c.php_version == "-"@,
        c.state == EntryState::Applied,
        p.path == probe_of(config_dir),
        p.channel == "fpm-probe"@,
        p.php_version == "-"@,
        p.state == EntryState::Applied,
        x.manifest == Some(ManifestView { version: MANIFEST_VERSION, files: seq![c, p] }),
        hash_at(x, c.path) == Some(c.sha256),
        hash_at(x, p.path) == Some(p.sha256),
    ensures
        state_of(d, config_dir, x) == (StateView::HearthOwned {
            conf: conf_of(config_dir),
            conf_sha256: c.sha256,
            probe_sha256: p.sha256,
            listen: socket_of(config_dir),
        }),
{
    let conf = conf_of(config_dir);
    let probe = probe_of(config_dir);
    let files = seq![c, p];
    artifacts_differ(config_dir);
    assert(files.drop_first() =~= seq![p]);
    assert(seq![p].drop_first() =~= Seq::<EntryView>::empty());
    assert(rows_fault(Seq::<EntryView>::empty(), conf, probe, true, true) is None);
    assert(rows_fault(seq![p], conf, probe, true, false) is None);
    assert(rows_fault(files, conf, probe, false, false) is None);
    assert(is_slot(files, conf, 0));
    manifest::slot_is(files, conf, 0);
    assert(is_slot(files, probe, 1));
    manifest::slot_is(files, probe, 1);
}

/// Materializing on a fresh directory writes both artifacts and leaves them
/// owned: whatever trusted snapshot shows the machine afterwards, the state is
/// owned by Hearth with the hashes of what was written.
pub proof fn first_materialization_owns_its_artifacts(
    config_dir: Seq<char>,
    rendered: Seq<char>,
    x: Machine,
    a: Answers,
)
    requires
        x.manifest is None,
        shows(a.disk, config_dir, x),
        hash_at(x, conf_of(config_dir)) is None,
        hash_at(x, probe_of(config_dir)) is None,
    ensures
        ({
            let start = txn_start(
                PurposeView::Materialize { jobs: artifact_jobs(config_dir, rendered) },
                FinalizeMode::DeleteWhenEmpty,
            );
            let s = ran(Scene { t: start, x }, a, 25);
            &&& s.t.stage is Done
            &&& s.t.refusal is None
            &&& s.t.batch.outcomes == seq![OutcomeView::Written, OutcomeView::Written]
            &&& s.x.manifest is Some
            &&& hash_at(s.x, conf_of(config_dir)) == Some(text_sha(rendered))
            &&& hash_at(s.x, probe_of(config_dir)) == Some(text_sha(PROBE_SCRIPT_V1@))
            &&& forall|d: Disk| #[trigger]
                shows(d, config_dir, s.x) && trusted(d, config_dir) ==> state_of(
                    d,
                    config_dir,
                    s.x,
                ) == (StateView::HearthOwned {
                    conf: conf_of(config_dir),
                    conf_sha256: text_sha(rendered),
                    probe_sha256: text_sha(PROBE_SCRIPT_V1@),
                    listen: socket_of(config_dir),
                })
        }),
{
    let jobs = artifact_jobs(config_dir, rendered);
    let purpose = PurposeView::Materialize { jobs };
    let start = txn_start(purpose, FinalizeMode::DeleteWhenEmpty);
    let conf = conf_of(config_dir);
    let probe = probe_of(config_dir);
    let m = loaded(x);
    let conf_sha = text_sha(rendered);
    let probe_sha = text_sha(PROBE_SCRIPT_V1@);
    artifacts_differ(config_dir);
    opening(x, a, purpose);
    let s0 = Scene { t: start, x };
    let s6 = ran(s0, a, 6);
    let paths = txn::job_paths(jobs);
    assert(paths =~= seq![conf, probe]);
    assert(paths.drop_first() =~= seq![probe]);
    assert(seq![probe].drop_first() =~= Seq::empty());
    assert(collision(m, Seq::empty(), a.disk) is None);
    assert(collision(m, seq![probe], a.disk) is None);
    assert(collision(m, paths, a.disk) is None);
    let s7 = advance(s6, a);
    assert(ran(s6, a, 1) == s7) by {
        reveal_with_fuel(ran, 2);
    }
    further(s0, a, 6, 1);
    let spec0 = jobs[0]->spec;
    let spec1 = jobs[1]->spec;
    // The configuration.
    assert(writing(s7.t, spec0, conf_sha));
    free_file_is_written(s7, a, spec0, conf_sha);
    let s15 = ran(s7, a, 8);
    further(s0, a, 7, 8);
    let c = row_of(conf, "fpm-conf"@, conf_sha, a.now);
    let p = row_of(probe, "fpm-probe"@, probe_sha, a.now);
    pushed_row_is_finished(m, spec0, conf_sha, a.now);
    let m1 = s15.t.manifest;
    assert(m1.files =~= seq![c]);
    assert(s15.t.batch.outcomes =~= seq![OutcomeView::Written]);
    // The probe script.
    assert(writing(s15.t, spec1, probe_sha));
    assert(hash_at(s15.x, probe) is None);
    free_file_is_written(s15, a, spec1, probe_sha);
    let s23 = ran(s15, a, 8);
    further(s0, a, 15, 8);
    pushed_row_is_finished(m1, spec1, probe_sha, a.now);
    let m2 = s23.t.manifest;
    assert(m2.files =~= seq![c, p]);
    assert(s23.t.batch.outcomes =~= seq![OutcomeView::Written, OutcomeView::Written]);
    assert(s23.t.stage is CheckWorked);
    let s24 = advance(s23, a);
    assert(s24.t.stage is CheckFinal);
    let s25 = advance(s24, a);
    assert(ran(s23, a, 2) == s25) by {
        reveal_with_fuel(ran, 3);
    }
    further(s0, a, 23, 2);
    assert forall|d: Disk| #[trigger]
        shows(d, config_dir, s25.x) && trusted(d, config_dir) implies state_of(
        d,
        config_dir,
        s25.x,
    ) == (StateView::HearthOwned {
        conf: conf_of(config_dir),
        conf_sha256: conf_sha,
        probe_sha256: probe_sha,
        listen: socket_of(config_dir),
    }) by {
        written_state(config_dir, s25.x, d, c, p);
    }
}

/// The row of a file that had none is the last one.
proof fn pushed_row_is_finished(
    m: ManifestView,
    spec: artifact::ArtifactView,
    sha: Seq<char>,
    now: Option<u64>,
)
    requires
        forall|i: int|
            0 <= i < m.files.len() ==> path::key((#[trigger] m.files[i]).path) != path::key(
                spec.final_path,
            ),
    ensures
        finished(spec, sha, m, None, now) == (ManifestView {
            version: m.version,
            files: m.files.push(
                artifact::applied_row(artifact::pending_row(spec, sha, None), sha, now),
            ),
        }),
{
    let p = spec.final_path;
    assert(slot(m.files, p) is None) by {
        if slot(m.files, p) is Some {
            slot_of(m.files, p);
        }
    }
    let row = artifact::pending_row(spec, sha, None);
    let journaled = artifact::put(m, row);
    let n = m.files.len() as int;
    assert(is_slot(journaled.files, p, n));
    manifest::slot_is(journaled.files, p, n);
    assert(finished(spec, sha, m, None, now).files =~= m.files.push(
        artifact::applied_row(row, sha, now),
    ));
}

// ---- after any materialization ----
/// A transaction after some replies, whatever they are.
pub open spec fn txn_after(start: TxnView, replies: Seq<TxnReplyView>) -> TxnView
    decreases replies.len(),
{
    if replies.len() == 0 {
        start
    } else {
        txn_next(txn_after(start, replies.drop_last()), replies.last())
    }
}

/// The manifest holds a settled row with this hash for the file.
pub open spec fn current(m: ManifestView, p: Seq<char>, sha: Seq<char>) -> bool {
    match slot(m.files, p) {
        Some(i) => m.files[i].sha256 == sha && m.files[i].state == EntryState::Applied,
        None => false,
    }
}

/// A write or a file found unchanged.
pub open spec fn went_well(o: OutcomeView) -> bool {
    o is Written || o is Unchanged
}

/// What holds of the run of a write, stage by stage.
spec fn write_inv(run: artifact::ApplyView, m: ManifestView) -> bool {
    let p = run.spec.final_path;
    match run.stage {
        ApplyStageView::Probe => true,
        ApplyStageView::Finish => current(m, p, run.desired_sha),
        ApplyStageView::Done { outcome } => went_well(outcome) ==> current(m, p, run.desired_sha),
        ApplyStageView::Refusing { reason } => true,
        ApplyStageView::Failing { error } => true,
        _ => slot(m.files, p) is Some,
    }
}

proof fn row_change_keeps_others(m: ManifestView, i: int, e: EntryView, q: Seq<char>, sha: Seq<char>)
    requires
        0 <= i < m.files.len(),
        path::key(e.path) == path::key(m.files[i].path),
        path::key(e.path) != path::key(q),
        current(m, q, sha),
    ensures
        current(manifest::with_row(m, i, e), q, sha),
{
    let t = manifest::with_row(m, i, e);
    let k = slot(m.files, q)->0;
    slot_of(m.files, q);
    assert(is_slot(t.files, q, k)) by {
        assert forall|j: int| 0 <= j < k implies path::key((#[trigger] t.files[j]).path)
            != path::key(q) by {
            assert(path::key(m.files[j].path) != path::key(q));
        }
    }
    manifest::slot_is(t.files, q, k);
}

proof fn new_row_keeps_others(m: ManifestView, e: EntryView, q: Seq<char>, sha: Seq<char>)
    requires
        path::key(e.path) != path::key(q),
        current(m, q, sha),
    ensures
        current(ManifestView { version: m.version, files: m.files.push(e) }, q, sha),
{
    let t = m.files.push(e);
    let k = slot(m.files, q)->0;
    slot_of(m.files, q);
    assert(is_slot(t, q, k)) by {
        assert forall|j: int| 0 <= j < k implies path::key((#[trigger] t[j]).path) != path::key(
            q,
        ) by {
            assert(t[j] == m.files[j]);
        }
    }
    manifest::slot_is(t, q, k);
}

/// A write keeps what is settled of another file.
proof fn write_keeps_others(
    run: artifact::ApplyView,
    m: ManifestView,
    reply: ReplyView,
    q: Seq<char>,
    sha: Seq<char>,
)
    requires
        path::key(run.spec.final_path) != path::key(q),
        current(m, q, sha),
    ensures
        current(apply_next(run, m, reply).1, q, sha),
{
    let p = run.spec.final_path;
    let t = apply_next(run, m, reply).1;
    match slot(m.files, p) {
        Some(i) => {
            slot_of(m.files, p);
            if t != m {
                let e = t.files[i];
                assert(t == manifest::with_row(m, i, e));
                row_change_keeps_others(m, i, e, q, sha);
            }
        },
        None => {
            if t != m {
                let e = artifact::pending_row(run.spec, run.desired_sha, reply->Hash_0);
                new_row_keeps_others(m, e, q, sha);
            }
        },
    }
}

proof fn write_inv_holds(run: artifact::ApplyView, m: ManifestView, reply: ReplyView)
    requires
        write_inv(run, m),
    ensures
        write_inv(apply_next(run, m, reply).0, apply_next(run, m, reply).1),
{
    let p = run.spec.final_path;
    match (run.stage, reply) {
        (ApplyStageView::Probe, ReplyView::Hash(actual)) => {
            put_is_found(m, artifact::pending_row(run.spec, run.desired_sha, actual));
        },
        (ApplyStageView::Stamp, ReplyView::Clock(clock)) => {
            let change = |e: EntryView| artifact::applied_row(e, run.desired_sha, clock);
            amend_keeps_slot(m, p, change);
            slot_of(m.files, p);
        },
        _ => {},
    }
}

/// What holds of a batch of writes to distinct files.
spec fn writes_inv(b: BatchView, m: ManifestView) -> bool {
    &&& in_step(b)
    &&& b.outcomes.len() <= b.jobs.len()
    &&& forall|k: int|
        0 <= k < b.outcomes.len() && went_well(#[trigger] b.outcomes[k]) ==> current(
            m,
            b.jobs[k]->spec.final_path,
            b.jobs[k]->sha256,
        )
    &&& match b.current {
        CurrentView::Apply(run) => write_inv(run, m),
        CurrentView::Remove(run) => false,
        CurrentView::Finished => true,
    }
}

/// Writes of distinct files.
spec fn distinct_writes(jobs: Seq<JobView>) -> bool {
    &&& forall|k: int| 0 <= k < jobs.len() ==> #[trigger] jobs[k] is Apply
    &&& forall|j: int, k: int|
        0 <= j < k < jobs.len() ==> path::key((#[trigger] jobs[j])->spec.final_path) != path::key(
            (#[trigger] jobs[k])->spec.final_path,
        )
}

proof fn writes_inv_holds(b: BatchView, m: ManifestView, reply: ReplyView)
    requires
        distinct_writes(b.jobs),
        writes_inv(b, m),
    ensures
        writes_inv(batch_next(b, m, reply).0, batch_next(b, m, reply).1),
        batch_next(b, m, reply).0.jobs == b.jobs,
{
    match b.current {
        CurrentView::Apply(run) => {
            let n = b.outcomes.len() as int;
            let (next, m1) = apply_next(run, m, reply);
            let (b1, _) = batch_next(b, m, reply);
            write_inv_holds(run, m, reply);
            assert(b.jobs[n] is Apply);
            assert forall|k: int| 0 <= k < b.outcomes.len() && went_well(#[trigger] b.outcomes[k])
                implies current(m1, b.jobs[k]->spec.final_path, b.jobs[k]->sha256) by {
                assert(b.jobs[k] is Apply);
                write_keeps_others(
                    run,
                    m,
                    reply,
                    b.jobs[k]->spec.final_path,
                    b.jobs[k]->sha256,
                );
            }
            assert forall|k: int| 0 <= k < b1.outcomes.len() && went_well(#[trigger] b1.outcomes[k])
                implies current(m1, b1.jobs[k]->spec.final_path, b1.jobs[k]->sha256) by {
                if k < n {
                    assert(b1.outcomes[k] == b.outcomes[k]);
                }
            }
            if n + 1 < b.jobs.len() {
                assert(b.jobs[n + 1] is Apply);
            }
        },
        _ => {},
    }
}

/// The work of a transaction that prunes nothing has begun.
spec fn begun_stage(stage: TxnStageView) -> bool {
    ||| stage is Work
    ||| stage is CheckWorked
    ||| stage is FindManifest
    ||| stage is UnlinkManifest
    ||| stage is SaveFinal
    ||| stage is CheckFinal
    ||| stage is Done
    ||| stage is Failed
}

/// What holds of a materialization at every stage: its work is that of its
/// jobs, or it has not come to any.
spec fn materializing(t: TxnView, jobs: Seq<JobView>) -> bool {
    &&& t.purpose == PurposeView::Materialize { jobs }
    &&& !(t.stage is Prune) && !(t.stage is SavePruned)
    &&& {
        ||| begun_stage(t.stage) && t.batch.jobs == jobs && writes_inv(t.batch, t.manifest)
        ||| t.batch.outcomes.len() == 0 && t.batch.current is Finished && !(t.stage is Work) && (
        !begun_stage(t.stage) || t.refusal is Some || t.stage is Failed)
    }
}

proof fn materializing_holds(t: TxnView, jobs: Seq<JobView>, reply: TxnReplyView)
    requires
        distinct_writes(jobs),
        jobs.len() > 0,
        materializing(t, jobs),
    ensures
        materializing(txn_next(t, reply), jobs),
{
    match (t.stage, reply) {
        (TxnStageView::Work, TxnReplyView::Artifact(r)) => {
            writes_inv_holds(t.batch, t.manifest, r);
        },
        (TxnStageView::Preflight, TxnReplyView::Looked(d)) => {
            assert(jobs[0] is Apply);
            assert(in_step(batch_start(jobs, Policy::StopOnFault)));
        },
        _ => {},
    }
}

proof fn artifact_jobs_are_distinct(config_dir: Seq<char>, rendered: Seq<char>)
    ensures
        distinct_writes(artifact_jobs(config_dir, rendered)),
{
    artifacts_differ(config_dir);
}

proof fn always_materializing(
    config_dir: Seq<char>,
    rendered: Seq<char>,
    replies: Seq<TxnReplyView>,
)
    ensures
        ({
            let jobs = artifact_jobs(config_dir, rendered);
            let start = txn_start(
                PurposeView::Materialize { jobs },
                FinalizeMode::DeleteWhenEmpty,
            );
            materializing(txn_after(start, replies), jobs)
        }),
    decreases replies.len(),
{
    let jobs = artifact_jobs(config_dir, rendered);
    let start = txn_start(PurposeView::Materialize { jobs }, FinalizeMode::DeleteWhenEmpty);
    if replies.len() > 0 {
        artifact_jobs_are_distinct(config_dir, rendered);
        always_materializing(config_dir, rendered, replies.drop_last());
        materializing_holds(txn_after(start, replies.drop_last()), jobs, replies.last());
    }
}

/// Whatever was replied to a materialization, what it reports as written or
/// unchanged has a settled row with the hash of the current content.
pub proof fn reported_artifacts_are_current(
    config_dir: Seq<char>,
    rendered: Seq<char>,
    replies: Seq<TxnReplyView>,
)
    ensures
        ({
            let start = txn_start(
                PurposeView::Materialize { jobs: artifact_jobs(config_dir, rendered) },
                FinalizeMode::DeleteWhenEmpty,
            );
            let t = txn_after(start, replies);
            &&& t.batch.outcomes.len() > 0 && went_well(t.batch.outcomes[0]) ==> current(
                t.manifest,
                conf_of(config_dir),
                text_sha(rendered),
            )
            &&& t.batch.outcomes.len() > 1 && went_well(t.batch.outcomes[1]) ==> current(
                t.manifest,
                probe_of(config_dir),
                text_sha(PROBE_SCRIPT_V1@),
            )
        }),
{
    let jobs = artifact_jobs(config_dir, rendered);
    always_materializing(config_dir, rendered, replies);
    assert(jobs[0]->spec.final_path == conf_of(config_dir));
    assert(jobs[1]->spec.final_path == probe_of(config_dir));
}

/// Materializing twice: whatever was replied to the first, if it reported both
/// artifacts as written or unchanged and left them owned, and nothing was
/// changed since, the second reports both as unchanged, with the same state, and
/// changes nothing on the machine.
pub proof fn materialization_is_idempotent(
    config_dir: Seq<char>,
    rendered: Seq<char>,
    replies: Seq<TxnReplyView>,
    x: Machine,
    a: Answers,
)
    requires
        ({
            let start = txn_start(
                PurposeView::Materialize { jobs: artifact_jobs(config_dir, rendered) },
                FinalizeMode::DeleteWhenEmpty,
            );
            let first = txn_after(start, replies);
            &&& first.batch.outcomes.len() == 2
            &&& went_well(first.batch.outcomes[0])
            &&& went_well(first.batch.outcomes[1])
            &&& x.manifest == Some(first.manifest)
        }),
        shows(a.disk, config_dir, x),
        state_of(a.disk, config_dir, x) is HearthOwned,
    ensures
        ({
            let start = txn_start(
                PurposeView::Materialize { jobs: artifact_jobs(config_dir, rendered) },
                FinalizeMode::DeleteWhenEmpty,
            );
            let s = ran(Scene { t: start, x }, a, 11);
            let state = state_of(a.disk, config_dir, x);
            &&& s.t.stage is Done
            &&& s.x == x
            &&& materialized(s.t, state) == (MaterializeView {
                conf: OutcomeView::Unchanged,
                probe: OutcomeView::Unchanged,
                state,
            })
        }),
{
    reported_artifacts_are_current(config_dir, rendered, replies);
    owned_is_in_order(config_dir, x, a.disk);
    second_materialization_changes_nothing(config_dir, rendered, x, a);
}

} // verus!
