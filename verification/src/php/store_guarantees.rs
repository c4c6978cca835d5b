//! What the manifest and its files promise, said in plain terms: when a file is
//! written or removed and what is recorded of it, how a transaction goes, and
//! when the lock is taken.

use crate::path;
use crate::php::artifact::{
    apply_next, remove_next, ApplyStageView, ApplyView, ArtifactView, DirIdentity, RemoveStageView,
    RemoveView, ReplyView,
};
use crate::php::batch::{
    batch_task, ends_batch, settled, started, BatchView, CurrentView, JobView, Policy, TaskView,
};
use crate::php::channel_dir::VerifiedView;
use crate::php::journal::put_is_found;
use crate::php::lock::{
    guard_fault, lock_fault, lock_next, lock_path, lock_start, IdentityFactsView, LockErrorView,
    LockReplyView, LockStageView, LockView, TriedView, DEFAULT_MANIFEST_LOCK_WAIT_MS,
};
use crate::php::manifest::{
    self, is_slot, slot, EntryState, EntryView, LastOutcome, ManifestView, OutcomeView,
};
use crate::php::preflight::{collision, path_collision};
use crate::php::recovery::{
    resolution, resolutions, resolved_row, resolved_rows, RecoveryView, SeenView,
};
use crate::php::txn::{
    begun, finish, job_path, pruned, txn_next, txn_said, txn_start, FinalizeMode, PurposeView,
    TxnErrorView, TxnReplyView, TxnStageView, TxnView,
};
use crate::clock;
use crate::fs::{self, Disk, FileMeta};
use vstd::prelude::*;

verus! {

// ---- ownership ----
/// Whether a row vouches for a content: by the hash that it records, or by
/// either of the two that it journals.
pub open spec fn vouches(e: EntryView, hash: Seq<char>) -> bool {
    e.sha256 == hash || e.expected_old_sha256 == Some(hash) || e.desired_sha256 == Some(hash)
}

/// A file is tracked by the first row of its path, where that vouches for its
/// content.
pub proof fn tracking_is_by_path_and_hash(m: ManifestView, p: Seq<char>, hash: Seq<char>, i: int)
    ensures
        is_slot(m.files, p, i) ==> (manifest::tracks(m, p, hash) <==> vouches(m.files[i], hash)),
        (forall|j: int| 0 <= j < m.files.len() ==> path::key((#[trigger] m.files[j]).path) != path::key(p))
            ==> !manifest::tracks(m, p, hash),
{
    if is_slot(m.files, p, i) {
        manifest::slot_is(m.files, p, i);
    }
}

// ---- writing ----
/// What is journaled of a write: the file, the hash that it has, and the one
/// that it will have.
pub open spec fn journals(
    e: EntryView,
    a: ArtifactView,
    desired: Seq<char>,
    actual: Option<Seq<char>>,
) -> bool {
    &&& e.path == a.final_path && e.php_version == a.php_version && e.channel == a.channel
    &&& e.state == EntryState::Pending
    &&& e.expected_old_sha256 == actual
    &&& e.desired_sha256 == Some(desired)
    &&& e.applied_at_unix_ms is None
}

/// A write of a file that is not there, or that the manifest owns with another
/// content, is journaled; one that has the content under a settled row is left
/// alone; any other is refused.
pub proof fn write_starts_by_what_is_there(
    a: ArtifactView,
    desired: Seq<char>,
    m: ManifestView,
    actual: Option<Seq<char>>,
    i: int,
)
    ensures
        ({
            let run = ApplyView { spec: a, desired_sha: desired, stage: ApplyStageView::Probe };
            let (r, t) = apply_next(run, m, ReplyView::Hash(actual));
            let journaled = r.stage is Journal && r.spec == a && r.desired_sha == desired && exists|
                k: int,
            | #[trigger]
                is_slot(t.files, a.final_path, k) && journals(t.files[k], a, desired, actual);
            &&& actual is None ==> journaled
            &&& actual matches Some(hash) ==> {
                let mine = is_slot(m.files, a.final_path, i) && vouches(m.files[i], hash);
                let done = m.files[i].sha256 == desired && m.files[i].state == EntryState::Applied
                    && hash == desired;
                &&& mine && done ==> r.stage == (ApplyStageView::Done {
                    outcome: OutcomeView::Unchanged,
                }) && t == m
                &&& mine && !done ==> journaled
                &&& is_slot(m.files, a.final_path, i) && !vouches(m.files[i], hash) ==> r.stage
                    is Done && r.stage->Done_outcome is Refused && t == m
                &&& (forall|j: int|
                    0 <= j < m.files.len() ==> path::key((#[trigger] m.files[j]).path) != path::key(
                        a.final_path,
                    )) ==> r.stage is Done && r.stage->Done_outcome is Refused && t == m
            }
        }),
{
    let run = ApplyView { spec: a, desired_sha: desired, stage: ApplyStageView::Probe };
    let (r, t) = apply_next(run, m, ReplyView::Hash(actual));
    if is_slot(m.files, a.final_path, i) {
        manifest::slot_is(m.files, a.final_path, i);
    }
    if r.stage is Journal {
        let e = crate::php::artifact::pending_row(a, desired, actual);
        put_is_found(m, e);
        let k = slot(t.files, a.final_path)->0;
        assert(is_slot(t.files, a.final_path, k) && t.files[k] == e) by {
            row_is_found(m, e);
        }
    }
}

proof fn row_is_found(m: ManifestView, e: EntryView)
    ensures
        ({
            let t = crate::php::artifact::put(m, e);
            exists|k: int| #[trigger] is_slot(t.files, e.path, k) && t.files[k] == e && slot(
                t.files,
                e.path,
            ) == Some(k)
        }),
{
    let t = crate::php::artifact::put(m, e);
    match slot(m.files, e.path) {
        Some(i) => {
            let k = choose|k: int| is_slot(m.files, e.path, k);
            assert(is_slot(m.files, e.path, i));
            assert forall|j: int| 0 <= j < i implies path::key((#[trigger] t.files[j]).path)
                != path::key(e.path) by {
                assert(t.files[j] == m.files[j]);
            }
            assert(is_slot(t.files, e.path, i));
            manifest::slot_is(t.files, e.path, i);
        },
        None => {
            let n = m.files.len() as int;
            assert forall|j: int| 0 <= j < n implies path::key((#[trigger] t.files[j]).path)
                != path::key(e.path) by {
                if path::key(m.files[j].path) == path::key(e.path) {
                    let k = least(m.files, e.path, j);
                    assert(is_slot(m.files, e.path, k));
                }
                assert(t.files[j] == m.files[j]);
            }
            assert(is_slot(t.files, e.path, n));
            manifest::slot_is(t.files, e.path, n);
        },
    }
}

proof fn least(files: Seq<EntryView>, p: Seq<char>, j: int) -> (k: int)
    requires
        0 <= j < files.len(),
        path::key(files[j].path) == path::key(p),
    ensures
        is_slot(files, p, k),
    decreases j,
{
    if exists|i: int| 0 <= i < j && path::key((#[trigger] files[i]).path) == path::key(p) {
        let i = choose|i: int| 0 <= i < j && path::key((#[trigger] files[i]).path) == path::key(p);
        least(files, p, i)
    } else {
        j
    }
}

/// A journaled write goes by its steps: the directory is looked for and
/// verified, the file written, the directory checked again, the time taken, and
/// the applied row saved; then it is written.
pub proof fn write_goes_step_by_step(
    run: ApplyView,
    m: ManifestView,
    id: DirIdentity,
    clock: Option<u64>,
    i: int,
)
    ensures
        ({
            let ok = ReplyView::Did(Ok(()));
            &&& run.stage is Journal ==> apply_next(run, m, ok) == (
                ApplyView { stage: ApplyStageView::CheckDir, ..run },
                m,
            )
            &&& run.stage is CheckDir ==> apply_next(run, m, ReplyView::Present(true)) == (
                ApplyView { stage: ApplyStageView::Verify, ..run },
                m,
            )
            &&& run.stage is Verify ==> apply_next(run, m, ReplyView::Identity(Ok(id))) == (
                ApplyView { stage: ApplyStageView::Write { identity: id }, ..run },
                m,
            )
            &&& run.stage == (ApplyStageView::Write { identity: id }) ==> apply_next(run, m, ok) == (
                ApplyView { stage: ApplyStageView::Recheck { identity: id }, ..run },
                m,
            )
            &&& run.stage == (ApplyStageView::Recheck { identity: id }) ==> apply_next(run, m, ok)
                == (ApplyView { stage: ApplyStageView::Stamp, ..run }, m)
            &&& run.stage is Stamp && is_slot(m.files, run.spec.final_path, i) ==> {
                let (r, t) = apply_next(run, m, ReplyView::Clock(clock));
                &&& r == (ApplyView { stage: ApplyStageView::Finish, ..run })
                &&& t.version == m.version
                &&& t.files == m.files.update(
                    i,
                    EntryView {
                        sha256: run.desired_sha,
                        state: EntryState::Applied,
                        expected_old_sha256: None,
                        desired_sha256: None,
                        last_outcome: LastOutcome::Written,
                        applied_at_unix_ms: clock,
                        ..m.files[i]
                    },
                )
            }
            &&& run.stage is Finish ==> apply_next(run, m, ok) == (
                ApplyView {
                    stage: ApplyStageView::Done { outcome: OutcomeView::Written },
                    ..run
                },
                m,
            )
        }),
{
    if is_slot(m.files, run.spec.final_path, i) {
        manifest::slot_is(m.files, run.spec.final_path, i);
    }
}

/// A write that goes wrong never ends as written: a directory that is gone, a
/// write or check that fails, and a save that fails are failures; a directory
/// that is rejected is a refusal. What is recorded says so.
pub proof fn write_that_goes_wrong_is_told(
    run: ApplyView,
    m: ManifestView,
    e: Seq<char>,
    saved: Result<(), Seq<char>>,
    id: DirIdentity,
    i: int,
)
    requires
        is_slot(m.files, run.spec.final_path, i),
    ensures
        run.stage is CheckDir ==> {
            let (r, t) = apply_next(run, m, ReplyView::Present(false));
            r.stage is Failing && t.files[i].last_outcome == LastOutcome::Failed
                && t.files[i].sha256 == m.files[i].sha256
        },
        run.stage is Write || run.stage is Recheck ==> {
            let (r, t) = apply_next(run, m, ReplyView::Did(Err(e)));
            r.stage == (ApplyStageView::Failing { error: e }) && t.files[i].last_outcome
                == LastOutcome::Failed && t.files[i].sha256 == m.files[i].sha256
        },
        run.stage is Verify ==> {
            let (r, t) = apply_next(run, m, ReplyView::Identity(Err(e)));
            r.stage is Refusing && t.files[i].last_outcome == LastOutcome::Refused
                && t.files[i].desired_sha256 is None && t.files[i].sha256 == m.files[i].sha256
        },
        run.stage is Journal || run.stage is Finish ==> {
            let (r, t) = apply_next(run, m, ReplyView::Did(Err(e)));
            r.stage is Done && r.stage->Done_outcome is Failed && t == m
        },
        run.stage is Failing ==> {
            let (r, t) = apply_next(run, m, ReplyView::Did(saved));
            r.stage is Done && r.stage->Done_outcome is Failed && t == m
        },
        run.stage is Refusing ==> {
            let (r, t) = apply_next(run, m, ReplyView::Did(saved));
            r.stage is Done && r.stage->Done_outcome is Refused && t == m
        },
{
    manifest::slot_is(m.files, run.spec.final_path, i);
}

// ---- removing ----
/// A removal of a file that is not there releases its row and is nothing new;
/// one of a file that the manifest owns is journaled; any other is refused.
pub proof fn removal_starts_by_what_is_there(
    p: Seq<char>,
    m: ManifestView,
    actual: Option<Seq<char>>,
    i: int,
)
    ensures
        ({
            let run = RemoveView { final_path: p, stage: RemoveStageView::Probe };
            let (r, t) = remove_next(run, m, ReplyView::Hash(actual));
            let rowless = forall|j: int|
                0 <= j < m.files.len() ==> path::key((#[trigger] m.files[j]).path) != path::key(p);
            &&& actual is None && rowless ==> r.stage == (RemoveStageView::Done {
                outcome: OutcomeView::Unchanged,
            }) && t == m
            &&& actual is None && is_slot(m.files, p, i) ==> r.stage == (RemoveStageView::Release {
                index: i,
                entry: m.files[i],
            }) && t.files == m.files.remove(i)
            &&& actual matches Some(hash) ==> {
                &&& rowless ==> r.stage is Done && r.stage->Done_outcome is Refused && t == m
                &&& is_slot(m.files, p, i) && !vouches(m.files[i], hash) ==> r.stage is Done
                    && r.stage->Done_outcome is Refused && t == m
                &&& is_slot(m.files, p, i) && vouches(m.files[i], hash) ==> r.stage is Journal
                    && t.files == m.files.update(
                    i,
                    EntryView {
                        state: EntryState::Pending,
                        expected_old_sha256: Some(hash),
                        desired_sha256: None,
                        ..m.files[i]
                    },
                )
            }
        }),
{
    if is_slot(m.files, p, i) {
        manifest::slot_is(m.files, p, i);
    }
}

/// A journaled removal goes by its steps: the file is unlinked, its row is
/// released and saved; then it is deleted. A step that fails is a failure, and
/// a row whose release could not be saved is put back.
pub proof fn removal_goes_step_by_step(run: RemoveView, m: ManifestView, e: Seq<char>, i: int)
    ensures
        ({
            let ok = ReplyView::Did(Ok(()));
            let bad = ReplyView::Did(Err(e));
            &&& run.stage is Journal ==> remove_next(run, m, ok) == (
                RemoveView { stage: RemoveStageView::Unlink, ..run },
                m,
            )
            &&& run.stage is Unlink && is_slot(m.files, run.final_path, i) ==> remove_next(run, m, ok)
                == (
                RemoveView {
                    stage: RemoveStageView::Finish { index: i, entry: m.files[i] },
                    ..run
                },
                ManifestView { version: m.version, files: m.files.remove(i) },
            )
            &&& run.stage is Finish ==> remove_next(run, m, ok) == (
                RemoveView {
                    stage: RemoveStageView::Done { outcome: OutcomeView::Deleted },
                    ..run
                },
                m,
            )
            &&& run.stage is Release ==> remove_next(run, m, ok) == (
                RemoveView {
                    stage: RemoveStageView::Done { outcome: OutcomeView::Unchanged },
                    ..run
                },
                m,
            )
            &&& run.stage is Journal ==> remove_next(run, m, bad).0.stage is Done && remove_next(
                run,
                m,
                bad,
            ).0.stage->Done_outcome is Failed && remove_next(run, m, bad).1 == m
            &&& run.stage is Unlink && is_slot(m.files, run.final_path, i) ==> remove_next(
                run,
                m,
                bad,
            ).0.stage == (RemoveStageView::Failing { error: e }) && remove_next(
                run,
                m,
                bad,
            ).1.files[i].last_outcome == LastOutcome::Failed
            &&& run.stage matches RemoveStageView::Finish { index, entry } ==> (0 <= index
                <= m.files.len() ==> remove_next(run, m, bad).1.files == m.files.insert(
                index,
                entry,
            )) && remove_next(run, m, bad).0.stage is Done && remove_next(
                run,
                m,
                bad,
            ).0.stage->Done_outcome is Failed
            &&& run.stage matches RemoveStageView::Release { index, entry } ==> (0 <= index
                <= m.files.len() ==> remove_next(run, m, bad).1.files == m.files.insert(
                index,
                entry,
            )) && remove_next(run, m, bad).0.stage is Done && remove_next(
                run,
                m,
                bad,
            ).0.stage->Done_outcome is Failed
        }),
{
    if is_slot(m.files, run.final_path, i) {
        manifest::slot_is(m.files, run.final_path, i);
    }
}

// ---- batches ----
/// Each job is run as it is given, and what it comes to is recorded in its
/// turn; the next one follows, unless the outcome ends the batch.
pub proof fn jobs_are_run_in_turn(b: BatchView, o: OutcomeView, j: JobView)
    ensures
        settled(b, o).outcomes == b.outcomes.push(o),
        settled(b, o).jobs == b.jobs && settled(b, o).policy == b.policy,
        !ends_batch(b.policy, o) && b.outcomes.len() + 1 < b.jobs.len() ==> settled(b, o).current
            == started(b.jobs[b.outcomes.len() as int + 1]),
        ends_batch(b.policy, o) || b.outcomes.len() + 1 >= b.jobs.len() ==> settled(b, o).current
            is Finished,
        j matches JobView::Apply { spec, content, sha256 } ==> started(j) == CurrentView::Apply(
            ApplyView { spec, desired_sha: sha256, stage: ApplyStageView::Probe },
        ),
        j matches JobView::Remove { path: p } ==> started(j) == CurrentView::Remove(
            RemoveView { final_path: p, stage: RemoveStageView::Probe },
        ),
        !ends_batch(Policy::All, o),
        ends_batch(Policy::StopOnFault, o) <==> o is Refused || o is Failed,
        !(o is Failed) ==> !ends_batch(Policy::StopOnJournalFault, o),
        o matches OutcomeView::Failed { error } ==> (ends_batch(Policy::StopOnJournalFault, o)
            <==> "could not journal pending delete:"@.is_prefix_of(error)
            || "channel file removed but manifest finalization failed:"@.is_prefix_of(error)),
{
}

/// What a batch asks for is what its stage says: the content of the job under
/// way is written at its path and with its mode, and nothing else is written
/// or unlinked.
pub proof fn batch_asks_for_its_job(b: BatchView)
    ensures
        b.current matches CurrentView::Apply(run) ==> {
            let p = run.spec.final_path;
            let n = b.outcomes.len() as int;
            &&& run.stage is Probe ==> batch_task(b) == (TaskView::Hash { path: p })
            &&& run.stage is Journal || run.stage is Refusing || run.stage is Failing || run.stage
                is Finish ==> batch_task(b) is Save
            &&& run.stage is CheckDir ==> batch_task(b) == (TaskView::FindDir {
                dir: path::dir_of(p),
            })
            &&& run.stage is Verify ==> batch_task(b) == (TaskView::VerifyDir {
                dir: path::dir_of(p),
            })
            &&& run.stage is Write && n < b.jobs.len() && b.jobs[n] is Apply ==> batch_task(b) == (
            TaskView::Write {
                dir: path::dir_of(p),
                path: p,
                content: b.jobs[n]->content,
                mode: run.spec.mode,
            })
            &&& run.stage matches ApplyStageView::Recheck { identity } ==> batch_task(b) == (
            TaskView::RecheckDir { dir: path::dir_of(p), identity })
            &&& run.stage is Stamp ==> batch_task(b) is Clock
        },
        b.current matches CurrentView::Remove(run) ==> {
            &&& run.stage is Probe ==> batch_task(b) == (TaskView::Hash { path: run.final_path })
            &&& run.stage is Unlink ==> batch_task(b) == (TaskView::Unlink { path: run.final_path })
            &&& run.stage is Release || run.stage is Journal || run.stage is Failing || run.stage
                is Finish ==> batch_task(b) is Save
        },
        batch_task(b) is Write ==> (b.current matches CurrentView::Apply(run) && run.stage is Write),
        batch_task(b) is Unlink ==> (b.current matches CurrentView::Remove(run) && run.stage
            is Unlink),
{
}

// ---- transactions ----
/// A transaction goes by its steps while the lock holds and everything goes
/// through: lock, load, recovery, work, and the end.
pub proof fn transaction_goes_step_by_step(t: TxnView, m: ManifestView, seen: Seq<SeenView>)
    ensures
        ({
            let held = TxnReplyView::Lock(Ok(()));
            let ok = TxnReplyView::Did(Ok(()));
            &&& t.stage is Acquire ==> txn_next(t, held).stage is CheckLocked
            &&& t.stage is CheckLocked ==> txn_next(t, held).stage is Load
            &&& t.stage is Load ==> txn_next(t, TxnReplyView::Loaded(Ok(m))) == (TxnView {
                manifest: m,
                stage: TxnStageView::CheckLoaded,
                ..t
            })
            &&& t.stage is CheckLoaded ==> txn_next(t, held).stage is Observe
            &&& t.stage is Observe && seen.len() == t.manifest.files.len() ==> {
                let n = txn_next(t, TxnReplyView::Observed(seen));
                &&& n.manifest.files == resolved_rows(t.manifest.files, seen)
                &&& n.recovery == resolutions(t.manifest.files, seen)
                &&& n.stage is SaveRecovered <==> exists|i: int|
                    0 <= i < n.recovery.len() && !((#[trigger] n.recovery[i]).1 is Retry)
                &&& !(n.stage is SaveRecovered) ==> n.stage is CheckRecovered
            }
            &&& t.stage is SaveRecovered ==> txn_next(t, ok).stage is CheckRecovered
            &&& t.stage is CheckRecovered && !(t.purpose is Materialize) ==> txn_next(t, held)
                == begun(t)
            &&& t.stage is CheckRecovered && t.purpose is Materialize ==> txn_next(t, held).stage
                is Preflight
            &&& t.stage is SavePruned ==> txn_next(t, ok).stage is CheckWorked
            &&& t.stage is FindManifest ==> txn_next(t, TxnReplyView::Found(true)).stage
                is UnlinkManifest && txn_next(t, TxnReplyView::Found(false)).stage is CheckFinal
            &&& t.stage is UnlinkManifest || t.stage is SaveFinal ==> txn_next(t, ok).stage
                is CheckFinal
            &&& t.stage is CheckFinal ==> txn_next(t, held).stage is Done
        }),
{
}

/// A transaction whose manifest cannot be read, whose recovery cannot be
/// saved, or whose end fails, is failed for that reason; rows that could not be
/// pruned durably are only told.
pub proof fn transaction_fails_for_a_reason(t: TxnView, e: Seq<char>)
    ensures
        t.stage is Load ==> txn_next(t, TxnReplyView::Loaded(Err(e))).stage == (
        TxnStageView::Failed { error: TxnErrorView::Load(e) }),
        t.stage is SaveRecovered ==> txn_next(t, TxnReplyView::Did(Err(e))).stage == (
        TxnStageView::Failed { error: TxnErrorView::Recovery(e) }),
        t.stage is UnlinkManifest || t.stage is SaveFinal ==> txn_next(
            t,
            TxnReplyView::Did(Err(e)),
        ).stage == (TxnStageView::Failed { error: TxnErrorView::Finalize(e) }),
        t.stage is SavePruned ==> txn_next(t, TxnReplyView::Did(Err(e))).stage is CheckWorked
            && txn_next(t, TxnReplyView::Did(Err(e))).prune_error == Some(e),
{
}

/// The work of a transaction: a reconcile does all its jobs whatever becomes of
/// them, unmanaging removes the file of every row, materializing stops at the
/// first fault, and a recovery does nothing more.
pub proof fn work_is_by_purpose(t: TxnView, i: int)
    ensures
        ({
            let b = begun(t).batch;
            &&& begun(t).rows_before == t.manifest.files && begun(t).manifest == t.manifest
            &&& b.outcomes.len() == 0
            &&& t.purpose matches PurposeView::Reconcile { jobs } ==> b.jobs == jobs && b.policy
                == Policy::All
            &&& t.purpose matches PurposeView::Materialize { jobs } ==> b.jobs == jobs && b.policy
                == Policy::StopOnFault
            &&& t.purpose matches PurposeView::Unmanage { policy } ==> b.policy == policy
                && b.jobs.len() == t.manifest.files.len() && (0 <= i < b.jobs.len() ==> b.jobs[i]
                == (JobView::Remove { path: t.manifest.files[i].path }))
            &&& t.purpose is Recover ==> b.jobs.len() == 0
            &&& b.jobs.len() > 0 ==> begun(t).stage is Work && b.current == started(b.jobs[0])
            &&& b.jobs.len() == 0 && t.purpose is Reconcile ==> begun(t).stage is Prune
            &&& b.jobs.len() == 0 && !(t.purpose is Reconcile) ==> begun(t).stage is CheckWorked
        }),
{
}

/// A row stays exactly where a job produces its file or the file is there.
pub proof fn stale_rows_are_pruned(
    files: Seq<EntryView>,
    jobs: Seq<JobView>,
    there: Seq<bool>,
    i: int,
)
    requires
        there.len() == files.len(),
    ensures
        0 <= i < files.len() && (there[i] || exists|k: int|
            0 <= k < jobs.len() && path::key(job_path(#[trigger] jobs[k])) == path::key(
                files[i].path,
            )) ==> pruned(files, jobs, there).contains(files[i]),
        0 <= i < pruned(files, jobs, there).len() ==> exists|k: int|
            0 <= k < files.len() && #[trigger] files[k] == pruned(files, jobs, there)[i] && (there[k]
                || exists|n: int|
                0 <= n < jobs.len() && path::key(job_path(#[trigger] jobs[n])) == path::key(
                    files[k].path,
                )),
        pruned(files, jobs, there).len() <= files.len(),
    decreases files.len(),
{
    let all = pruned(files, jobs, there);
    if files.len() > 0 {
        let rest = files.drop_last();
        let left = there.drop_last();
        let before = pruned(rest, jobs, left);
        stale_rows_are_pruned(rest, jobs, left, i);
        if 0 <= i < files.len() {
            if i < rest.len() {
                assert(rest[i] == files[i] && left[i] == there[i]);
                if before.contains(files[i]) {
                    let k = choose|k: int| 0 <= k < before.len() && before[k] == files[i];
                    assert(all[k] == files[i]);
                }
            } else {
                if there[i] || crate::php::txn::produces(jobs, files[i].path) {
                    assert(all[before.len() as int] == files[i]);
                }
            }
        }
        if 0 <= i < all.len() {
            if i < before.len() {
                let k = choose|k: int|
                    0 <= k < rest.len() && #[trigger] rest[k] == before[i] && (left[k] || exists|
                        n: int,
                    |
                        0 <= n < jobs.len() && path::key(job_path(#[trigger] jobs[n])) == path::key(
                            rest[k].path,
                        ));
                assert(files[k] == all[i] && there[k] == left[k]);
            } else {
                let k = files.len() - 1;
                assert(files[k] == all[i]);
            }
        }
    }
}

/// How a transaction ends: an unmanaging that was not cut short saves the
/// manifest that it leaves; one that deletes an empty manifest looks for its
/// file; anything else has saved what it did.
pub proof fn transaction_ends_by_purpose(t: TxnView)
    ensures
        t.finalize == FinalizeMode::SaveAlways && t.purpose is Unmanage && t.batch.outcomes.len()
            > 0 && ends_batch(t.batch.policy, t.batch.outcomes.last()) ==> finish(t) is CheckFinal,
        t.finalize == FinalizeMode::DeleteWhenEmpty && t.manifest.files.len() == 0 ==> finish(t)
            is FindManifest,
        t.finalize == FinalizeMode::SaveAlways && t.purpose == (PurposeView::Unmanage {
            policy: Policy::StopOnJournalFault,
        }) && (t.batch.outcomes.len() == 0 || !ends_batch(
            t.batch.policy,
            t.batch.outcomes.last(),
        )) ==> finish(t) is SaveFinal,
        t.finalize == FinalizeMode::SaveAlways && !(t.purpose is Unmanage) ==> finish(t)
            is CheckFinal,
        t.finalize == FinalizeMode::DeleteWhenEmpty && t.manifest.files.len() > 0 && !(t.purpose
            is Unmanage) ==> finish(t) is CheckFinal,
{
}

/// A new transaction has no lock, no rows and no work yet, and waits for the
/// lock.
pub proof fn transaction_starts_with_the_lock(p: PurposeView, f: FinalizeMode)
    ensures
        txn_start(p, f).stage is Acquire,
        txn_start(p, f).purpose == p && txn_start(p, f).finalize == f,
        txn_start(p, f).manifest.files.len() == 0 && txn_start(p, f).manifest.version == 1,
        txn_start(p, f).refusal is None && txn_start(p, f).prune_error is None,
{
}

// ---- recovery ----
/// A pending row is settled by the file: with the new content it is applied,
/// with the old one it stays, a deletion whose file is gone drops it, and
/// anything else is refused and keeps its hash. Other rows stay as they are.
pub proof fn pending_rows_are_settled_by_the_file(e: EntryView, s: SeenView)
    ensures
        e.state != EntryState::Pending ==> resolved_row(e, s) == Some(e) && resolution(e, s)
            is None,
        e.state == EntryState::Pending ==> {
            let new = !s.unreadable && s.sha256 is Some && s.sha256 == e.desired_sha256;
            let gone = !s.unreadable && e.desired_sha256 is None && s.sha256 is None;
            let old = !s.unreadable && s.sha256 == e.expected_old_sha256;
            &&& new ==> resolution(e, s) == Some(RecoveryView::Finalized) && (resolved_row(
                e,
                s,
            ) matches Some(r) && r.state == EntryState::Applied && Some(r.sha256) == s.sha256
                && r.desired_sha256 is None && r.expected_old_sha256 is None && r.last_outcome
                == LastOutcome::Written && r.applied_at_unix_ms == s.unix_ms && r.path == e.path)
            &&& !new && gone ==> resolved_row(e, s) is None && resolution(e, s) == Some(
                RecoveryView::Finalized,
            )
            &&& !new && !gone && old ==> resolved_row(e, s) == Some(e) && resolution(e, s) == Some(
                RecoveryView::Retry,
            )
            &&& !new && !gone && !old ==> resolution(e, s) is Some && resolution(e, s)->0
                is Refused && (resolved_row(e, s) matches Some(r) && r.state == EntryState::Applied
                && r.sha256 == e.sha256 && r.last_outcome == LastOutcome::Refused
                && r.desired_sha256 is None && r.path == e.path)
        },
{
}

/// Every row is resolved by what was seen of its own file.
pub proof fn every_row_is_resolved(files: Seq<EntryView>, seen: Seq<SeenView>, i: int)
    requires
        files.len() == seen.len(),
        0 <= i < files.len(),
    ensures
        resolved_row(files[i], seen[i]) matches Some(e) ==> resolved_rows(files, seen).contains(e),
        resolution(files[i], seen[i]) matches Some(o) ==> resolutions(files, seen).contains(
            (files[i].path, o),
        ),
    decreases files.len(),
{
    let rest = files.drop_last();
    let left = seen.drop_last();
    let rows = resolved_rows(files, seen);
    let said = resolutions(files, seen);
    let rows0 = resolved_rows(rest, left);
    let said0 = resolutions(rest, left);
    if i == files.len() - 1 {
        if let Some(e) = resolved_row(files[i], seen[i]) {
            assert(rows[rows0.len() as int] == e);
        }
        if let Some(o) = resolution(files[i], seen[i]) {
            assert(said[said0.len() as int] == (files[i].path, o));
        }
    } else {
        assert(rest[i] == files[i] && left[i] == seen[i]);
        every_row_is_resolved(rest, left, i);
        if let Some(e) = resolved_row(files[i], seen[i]) {
            let k = choose|k: int| 0 <= k < rows0.len() && rows0[k] == e;
            assert(rows[k] == e);
        }
        if let Some(o) = resolution(files[i], seen[i]) {
            let k = choose|k: int| 0 <= k < said0.len() && said0[k] == (files[i].path, o);
            assert(said[k] == (files[i].path, o));
        }
    }
}

// ---- preflight ----
/// A path is free to be written where nothing is there, or a regular file that
/// its row vouches for; anything else is a collision.
pub proof fn collision_exactly_where_unowned(m: ManifestView, p: Seq<char>, d: Disk, i: int)
    ensures
        ({
            let f = fs::facts(d, p);
            let nothing = f.link is Err && f.link->Err_0.0;
            let regular = f.link is Ok && f.link->Ok_0.is_file && !f.link->Ok_0.is_symlink;
            let rowless = forall|j: int|
                0 <= j < m.files.len() ==> path::key((#[trigger] m.files[j]).path) != path::key(p);
            &&& nothing ==> path_collision(m, p, d) is None
            &&& !nothing && !regular ==> path_collision(m, p, d) is Some
            &&& regular && f.hash is Err ==> path_collision(m, p, d) is Some
            &&& regular && f.hash is Ok && rowless ==> path_collision(m, p, d) is Some
            &&& regular && f.hash is Ok && is_slot(m.files, p, i) ==> (path_collision(m, p, d)
                is None <==> vouches(m.files[i], f.hash->Ok_0))
        }),
{
    if is_slot(m.files, p, i) {
        manifest::slot_is(m.files, p, i);
    }
}

/// A set of paths collides where one of them does.
pub proof fn one_collision_is_enough(m: ManifestView, paths: Seq<Seq<char>>, d: Disk)
    ensures
        collision(m, paths, d) is None <==> forall|i: int|
            0 <= i < paths.len() ==> path_collision(m, #[trigger] paths[i], d) is None,
    decreases paths.len(),
{
    if paths.len() > 0 {
        let rest = paths.drop_first();
        one_collision_is_enough(m, rest, d);
        if collision(m, paths, d) is None {
            assert forall|i: int| 0 <= i < paths.len() implies path_collision(
                m,
                #[trigger] paths[i],
                d,
            ) is None by {
                if i > 0 {
                    assert(rest[i - 1] == paths[i]);
                }
            }
        }
        if forall|i: int| 0 <= i < paths.len() ==> path_collision(m, #[trigger] paths[i], d) is None {
            assert forall|i: int| 0 <= i < rest.len() implies path_collision(
                m,
                #[trigger] rest[i],
                d,
            ) is None by {
                assert(rest[i] == paths[i + 1]);
            }
            assert(path_collision(m, paths[0], d) is None);
        }
    }
}

// ---- the lock ----
/// Whether the guarded directory is still the one that was verified.
pub open spec fn guarded(guard: VerifiedView, f: IdentityFactsView) -> bool {
    &&& f.dir_link is Ok && !f.dir_link->Ok_0.is_symlink && f.dir_link->Ok_0.is_dir
    &&& f.dir_link->Ok_0.dev == guard.dev && f.dir_link->Ok_0.ino == guard.ino
    &&& f.dir_fd is Ok && f.dir_fd->Ok_0.dev == guard.dev && f.dir_fd->Ok_0.ino == guard.ino
}

/// Whether the lock file is still the one that was opened, alone under its
/// name and empty.
pub open spec fn intact(lock: DirIdentity, f: IdentityFactsView) -> bool {
    &&& f.lock_link is Ok && !f.lock_link->Ok_0.is_symlink && f.lock_link->Ok_0.is_file
    &&& f.lock_link->Ok_0.dev == lock.dev && f.lock_link->Ok_0.ino == lock.ino
    &&& f.lock_fd is Ok && f.lock_fd->Ok_0.dev == lock.dev && f.lock_fd->Ok_0.ino == lock.ino
    &&& f.lock_fd->Ok_0.nlink == 1 && f.lock_fd->Ok_0.len == 0
}

/// The checks on the lock's identity pass exactly where the directory and the
/// file are still those that were opened.
pub proof fn identity_checks_are_exact(guard: VerifiedView, lock: DirIdentity, f: IdentityFactsView)
    ensures
        guard_fault(guard, f) is None <==> guarded(guard, f),
        lock_fault(guard, lock, f) is None <==> guarded(guard, f) && intact(lock, f),
{
}

/// The lock is acquired by its steps: the directory is verified, opened and
/// checked; the file is looked at, opened and checked, tried, checked again,
/// given its mode and made durable, and checked once more.
pub proof fn lock_goes_step_by_step(
    s: LockView,
    guard: VerifiedView,
    f: IdentityFactsView,
    m: FileMeta,
    e: Seq<char>,
)
    ensures
        ({
            let ok = LockReplyView::Did(Ok(()));
            let bad = LockReplyView::Did(Err(e));
            let id = LockReplyView::Identity(f);
            let found = LockReplyView::Found(Ok(m));
            &&& s.stage is Guard ==> lock_next(s, LockReplyView::Guarded(Ok(guard))) == (LockView {
                guard,
                stage: LockStageView::OpenDir,
                ..s
            })
            &&& s.stage is OpenDir ==> lock_next(s, ok).stage is CheckDir
            &&& s.stage is CheckDir ==> (lock_next(s, id).stage is Inspect <==> guarded(s.guard, f))
            &&& s.stage is Inspect ==> lock_next(s, LockReplyView::Found(Err(e))).stage is Open
                && !lock_next(s, LockReplyView::Found(Err(e))).existed
            &&& s.stage is Inspect ==> (lock_next(s, found).stage is Open <==> m.is_file
                && !m.is_symlink && m.nlink == 1) && (lock_next(s, found).stage is Open
                ==> lock_next(s, found).existed)
            &&& s.stage is Open ==> (lock_next(s, found).stage is CheckOpened <==> m.is_file
                && m.nlink == 1 && m.len == 0 && m.uid == s.euid)
            &&& s.stage is Open && lock_next(s, found).stage is CheckOpened ==> lock_next(
                s,
                found,
            ).lock == (DirIdentity { dev: m.dev, ino: m.ino })
            &&& s.stage is CheckOpened ==> (lock_next(s, id).stage is Try <==> guarded(s.guard, f)
                && intact(s.lock, f))
            &&& s.stage is Try ==> lock_next(s, LockReplyView::Tried(TriedView::Acquired)).stage
                is CheckHeld
            &&& s.stage is CheckHeld ==> (lock_next(s, id).stage is ReadMode <==> guarded(
                s.guard,
                f,
            ) && intact(s.lock, f))
            &&& s.stage is ReadMode ==> lock_next(s, found).stage == if m.mode & 0o777 == 0o600 {
                LockStageView::SyncFile
            } else {
                LockStageView::FixMode
            }
            &&& s.stage is FixMode ==> lock_next(s, ok).stage is SyncFile
            &&& s.stage is SyncFile ==> lock_next(s, ok).stage == if s.existed {
                LockStageView::CheckSynced
            } else {
                LockStageView::SyncDir
            }
            &&& s.stage is SyncDir ==> lock_next(s, ok).stage is CheckSynced
            &&& s.stage is CheckSynced ==> (lock_next(s, id).stage is ConfirmMode <==> guarded(
                s.guard,
                f,
            ) && intact(s.lock, f))
            &&& s.stage is ConfirmMode ==> (lock_next(s, found).stage is Held <==> m.mode & 0o777
                == 0o600)
            &&& s.stage is OpenDir || s.stage is FixMode || s.stage is SyncFile || s.stage
                is SyncDir ==> lock_next(s, bad).stage == (LockStageView::Failed {
                error: LockErrorView::Io(e),
            })
        }),
{
}

/// A lock that another process holds is tried again until the wait is over,
/// every 25 milliseconds or at its end; then it is busy.
pub proof fn busy_lock_is_waited_for(s: LockView, elapsed_ms: u64)
    requires
        s.stage is Try,
    ensures
        ({
            let n = lock_next(s, LockReplyView::Tried(TriedView::WouldBlock { elapsed_ms }));
            &&& elapsed_ms >= s.wait_ms ==> n.stage == (LockStageView::Failed {
                error: LockErrorView::Busy { manifest_dir: s.manifest_dir, waited_ms: s.wait_ms },
            })
            &&& elapsed_ms < s.wait_ms && s.wait_ms - elapsed_ms >= 25 ==> n.stage == (
            LockStageView::Sleep { ms: 25 })
            &&& elapsed_ms < s.wait_ms && s.wait_ms - elapsed_ms < 25 ==> n.stage == (
            LockStageView::Sleep { ms: (s.wait_ms - elapsed_ms) as u64 })
        }),
        lock_next(
            LockView { stage: LockStageView::Sleep { ms: 25 }, ..s },
            LockReplyView::Did(Ok(())),
        ).stage is Try,
{
}

/// The lock is `.manifest.lock` in the guarded directory; it is waited for five
/// seconds unless said otherwise, from the guard on.
pub proof fn lock_has_its_name_and_wait(dir: Seq<char>, euid: u32, wait_ms: u64, guard: VerifiedView)
    ensures
        lock_path(guard) == path::joined(guard.path, ".manifest.lock"@),
        DEFAULT_MANIFEST_LOCK_WAIT_MS == 5_000,
        lock_start(dir, euid, wait_ms).stage is Guard,
        lock_start(dir, euid, wait_ms).manifest_dir == dir,
        lock_start(dir, euid, wait_ms).euid == euid,
        lock_start(dir, euid, wait_ms).wait_ms == wait_ms,
{
}

// ---- what is told ----
/// Why a write or removal is refused, and what to do about it.
pub proof fn refusals_tell_what_to_do(
    a: ArtifactView,
    desired: Seq<char>,
    m: ManifestView,
    hash: Seq<char>,
    i: int,
)
    ensures
        ({
            let run = ApplyView { spec: a, desired_sha: desired, stage: ApplyStageView::Probe };
            let out = RemoveView { final_path: a.final_path, stage: RemoveStageView::Probe };
            let rowless = forall|j: int|
                0 <= j < m.files.len() ==> path::key((#[trigger] m.files[j]).path) != path::key(
                    a.final_path,
                );
            let advice = "remove or rename the file, then run `hearth php config --sync`"@;
            &&& rowless ==> apply_next(run, m, ReplyView::Hash(Some(hash))).0.stage == (
            ApplyStageView::Done {
                outcome: OutcomeView::Refused {
                    reason: a.final_path
                        + " exists but is not tracked by the Hearth manifest — "@ + advice,
                },
            })
            &&& is_slot(m.files, a.final_path, i) && !vouches(m.files[i], hash) ==> apply_next(
                run,
                m,
                ReplyView::Hash(Some(hash)),
            ).0.stage == (ApplyStageView::Done {
                outcome: OutcomeView::Refused {
                    reason: a.final_path + " was modified outside Hearth — "@ + advice,
                },
            })
            &&& rowless || (is_slot(m.files, a.final_path, i) && !vouches(m.files[i], hash))
                ==> remove_next(out, m, ReplyView::Hash(Some(hash))).0.stage == (
            RemoveStageView::Done {
                outcome: OutcomeView::Refused {
                    reason: a.final_path + " is not tracked by the Hearth manifest — "@ + advice,
                },
            })
        }),
{
    if is_slot(m.files, a.final_path, i) {
        manifest::slot_is(m.files, a.final_path, i);
    }
}

/// Why a transaction failed.
pub proof fn transaction_errors_are_told(dir: Seq<char>, waited_ms: u64, e: Seq<char>)
    ensures
        txn_said(TxnErrorView::Load(e)) == "manifest unreadable: "@ + e,
        txn_said(TxnErrorView::Recovery(e)) == "journal recovery failed: "@ + e,
        txn_said(TxnErrorView::Finalize(e)) == "manifest finalization failed: "@ + e,
        txn_said(TxnErrorView::Lock(LockErrorView::Io(e))) == "manifest lock I/O failed: "@ + e,
        txn_said(TxnErrorView::Lock(LockErrorView::Busy { manifest_dir: dir, waited_ms }))
            == "another Hearth process is updating the manifest in "@ + dir + " (waited "@
            + clock::duration_text(waited_ms) + ") — retry"@,
{
}

} // verus!
