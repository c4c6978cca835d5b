//! What the journal guarantees: laws on writes, removals and the transactions
//! that hold them, whatever the disk answers.

use crate::path;
use crate::php::artifact::{
    self, amend, applied_row, apply_next, apply_probe, deleting_row, failed_row, pending_row, put,
    refused_row, remove_next, remove_probe, ApplyStageView, ApplyView, ArtifactView,
    RemoveStageView, RemoveView, ReplyView,
};
use crate::php::batch::{
    batch_next, batch_start, batch_task, BatchView, CurrentView, JobView, Policy, TaskView,
};
use crate::php::manifest::{self, is_slot, slot, EntryState, EntryView, ManifestView, OutcomeView};
use crate::php::recovery::{
    interrupted_reason, resolution, resolved_row, resolved_rows, RecoveryView, SeenView,
};
use crate::php::txn::{
    txn_next, txn_start, waits_for_lock, FinalizeMode, PurposeView, TxnReplyView, TxnStageView,
    TxnView,
};
use vstd::prelude::*;

verus! {

/// A write run, the manifest in memory, and the manifest as it was last saved
/// successfully.
pub struct ApplyModel {
    pub run: ApplyView,
    pub manifest: ManifestView,
    pub disk: ManifestView,
}

/// A reply that says that a save, write or removal went through.
pub open spec fn went_through(reply: ReplyView) -> bool {
    reply is Did && reply->Did_0 is Ok
}

/// The stages in which a write run waits for a save.
pub open spec fn apply_saves(stage: ApplyStageView) -> bool {
    stage is Journal || stage is Refusing || stage is Failing || stage is Finish
}

/// One step of a write run, with what it does to the disk.
pub open spec fn apply_model_next(s: ApplyModel, reply: ReplyView) -> ApplyModel {
    let (run, m) = apply_next(s.run, s.manifest, reply);
    ApplyModel {
        run,
        manifest: m,
        disk: if apply_saves(s.run.stage) && went_through(reply) {
            s.manifest
        } else {
            s.disk
        },
    }
}

/// A write run of `desired` that found `actual` in the file, after `replies`.
pub open spec fn apply_after(
    a: ArtifactView,
    desired: Seq<char>,
    m: ManifestView,
    actual: Option<Seq<char>>,
    replies: Seq<ReplyView>,
) -> ApplyModel
    decreases replies.len(),
{
    if replies.len() == 0 {
        let start = ApplyView { spec: a, desired_sha: desired, stage: ApplyStageView::Probe };
        let (run, m1) = apply_probe(start, m, actual);
        ApplyModel { run, manifest: m1, disk: m }
    } else {
        apply_model_next(
            apply_after(a, desired, m, actual, replies.drop_last()),
            replies.last(),
        )
    }
}

/// What holds of every state of a write run.
spec fn apply_inv(
    a: ArtifactView,
    desired: Seq<char>,
    m: ManifestView,
    actual: Option<Seq<char>>,
    s: ApplyModel,
) -> bool {
    let journaled = put(m, pending_row(a, desired, actual));
    let owned = actual is Some ==> manifest::tracks(m, a.final_path, actual->0);
    &&& s.run.spec == a
    &&& s.run.desired_sha == desired
    &&& match s.run.stage {
        ApplyStageView::Probe => false,
        ApplyStageView::Journal => owned && s.manifest == journaled && s.disk == m,
        ApplyStageView::CheckDir => owned && s.manifest == journaled && s.disk == journaled,
        ApplyStageView::Verify => owned && s.manifest == journaled && s.disk == journaled,
        ApplyStageView::Refusing { reason } => owned && s.disk == journaled,
        ApplyStageView::Write { identity } => owned && s.manifest == journaled && s.disk
            == journaled,
        ApplyStageView::Recheck { identity } => owned && s.manifest == journaled && s.disk
            == journaled,
        ApplyStageView::Failing { error } => owned && s.disk == journaled,
        ApplyStageView::Stamp => owned && s.manifest == journaled && s.disk == journaled,
        ApplyStageView::Finish => owned && s.disk == journaled && exists|clock: Option<u64>|
            s.manifest == #[trigger] finished(a, desired, m, actual, clock),
        ApplyStageView::Done { outcome } => match outcome {
            OutcomeView::Written => owned && s.disk == s.manifest && exists|clock: Option<u64>|
                s.disk == #[trigger] finished(a, desired, m, actual, clock),
            OutcomeView::Unchanged => s.manifest == m && s.disk == m && actual == Some(desired),
            OutcomeView::Deleted => false,
            OutcomeView::Refused { reason } => owned || (s.manifest == m && s.disk == m),
            OutcomeView::Failed { error } => owned,
        },
    }
}

/// The manifest after a completed write.
pub open spec fn finished(
    a: ArtifactView,
    desired: Seq<char>,
    m: ManifestView,
    actual: Option<Seq<char>>,
    clock: Option<u64>,
) -> ManifestView {
    amend(
        put(m, pending_row(a, desired, actual)),
        a.final_path,
        |e: EntryView| applied_row(e, desired, clock),
    )
}

proof fn apply_inv_holds(
    a: ArtifactView,
    desired: Seq<char>,
    m: ManifestView,
    actual: Option<Seq<char>>,
    replies: Seq<ReplyView>,
)
    ensures
        apply_inv(a, desired, m, actual, apply_after(a, desired, m, actual, replies)),
    decreases replies.len(),
{
    if replies.len() > 0 {
        apply_inv_holds(a, desired, m, actual, replies.drop_last());
        let s = apply_after(a, desired, m, actual, replies.drop_last());
        let t = apply_model_next(s, replies.last());
        if s.run.stage is Stamp && replies.last() is Clock {
            assert(t.manifest == finished(a, desired, m, actual, replies.last()->Clock_0));
        }
    }
}

/// Nothing is written before the pending row, with the hash that the file has
/// and the hash that it will have, was saved; and only where the file is free
/// or owned by its hash.
pub proof fn write_follows_durable_journal(
    a: ArtifactView,
    desired: Seq<char>,
    m: ManifestView,
    actual: Option<Seq<char>>,
    replies: Seq<ReplyView>,
)
    ensures
        ({
            let s = apply_after(a, desired, m, actual, replies);
            s.run.stage is Write ==> {
                &&& s.disk == put(m, pending_row(a, desired, actual))
                &&& actual is Some ==> manifest::tracks(m, a.final_path, actual->0)
            }
        }),
{
    apply_inv_holds(a, desired, m, actual, replies);
}

/// A write is reported only when the saved manifest holds the applied row.
pub proof fn written_means_recorded(
    a: ArtifactView,
    desired: Seq<char>,
    m: ManifestView,
    actual: Option<Seq<char>>,
    replies: Seq<ReplyView>,
)
    ensures
        ({
            let s = apply_after(a, desired, m, actual, replies);
            s.run.stage == (ApplyStageView::Done { outcome: OutcomeView::Written }) ==> exists|
                clock: Option<u64>,
            |
                s.disk == #[trigger] finished(a, desired, m, actual, clock)
        }),
{
    apply_inv_holds(a, desired, m, actual, replies);
}

/// A file that the manifest does not own by its hash is refused at once: no
/// reply leads to a write, and neither manifest changes.
pub proof fn unowned_file_is_never_written(
    a: ArtifactView,
    desired: Seq<char>,
    m: ManifestView,
    actual: Seq<char>,
    replies: Seq<ReplyView>,
)
    requires
        !manifest::tracks(m, a.final_path, actual),
    ensures
        ({
            let s = apply_after(a, desired, m, Some(actual), replies);
            &&& s.run.stage is Done
            &&& s.run.stage->Done_outcome is Refused
            &&& s.manifest == m
            &&& s.disk == m
        }),
    decreases replies.len(),
{
    if replies.len() > 0 {
        unowned_file_is_never_written(a, desired, m, actual, replies.drop_last());
    }
}

/// A file that already has the content, under a settled row, is left alone.
pub proof fn settled_content_is_left_alone(
    a: ArtifactView,
    desired: Seq<char>,
    m: ManifestView,
    replies: Seq<ReplyView>,
)
    requires
        slot(m.files, a.final_path) is Some,
        m.files[slot(m.files, a.final_path)->0].sha256 == desired,
        m.files[slot(m.files, a.final_path)->0].state == EntryState::Applied,
    ensures
        ({
            let s = apply_after(a, desired, m, Some(desired), replies);
            &&& s.run.stage == (ApplyStageView::Done { outcome: OutcomeView::Unchanged })
            &&& s.manifest == m
            &&& s.disk == m
        }),
    decreases replies.len(),
{
    if replies.len() > 0 {
        settled_content_is_left_alone(a, desired, m, replies.drop_last());
    }
}

/// How many replies a write run still takes at most.
pub open spec fn apply_rank(stage: ApplyStageView) -> nat {
    match stage {
        ApplyStageView::Probe => 8,
        ApplyStageView::Journal => 7,
        ApplyStageView::CheckDir => 6,
        ApplyStageView::Verify => 5,
        ApplyStageView::Write { identity } => 4,
        ApplyStageView::Recheck { identity } => 3,
        ApplyStageView::Stamp => 2,
        ApplyStageView::Finish => 1,
        ApplyStageView::Refusing { reason } => 1,
        ApplyStageView::Failing { error } => 1,
        ApplyStageView::Done { outcome } => 0,
    }
}

/// Whether a reply is one that the stage waits for.
pub open spec fn apply_awaits(stage: ApplyStageView, reply: ReplyView) -> bool {
    match stage {
        ApplyStageView::Probe => reply is Hash || reply is Unreadable,
        ApplyStageView::CheckDir => reply is Present,
        ApplyStageView::Verify => reply is Identity,
        ApplyStageView::Stamp => reply is Clock,
        ApplyStageView::Done { outcome } => false,
        _ => reply is Did,
    }
}

/// Every awaited reply brings a write run nearer to its end.
pub proof fn apply_makes_progress(run: ApplyView, m: ManifestView, reply: ReplyView)
    requires
        apply_awaits(run.stage, reply),
    ensures
        apply_rank(apply_next(run, m, reply).0.stage) < apply_rank(run.stage),
{
}

// ---- removals ----
/// A removal run, the manifest in memory, and the manifest as it was last
/// saved successfully.
pub struct RemoveModel {
    pub run: RemoveView,
    pub manifest: ManifestView,
    pub disk: ManifestView,
}

pub open spec fn remove_saves(stage: RemoveStageView) -> bool {
    stage is Release || stage is Journal || stage is Failing || stage is Finish
}

/// One step of a removal run, with what it does to the disk.
pub open spec fn remove_model_next(s: RemoveModel, reply: ReplyView) -> RemoveModel {
    let (run, m) = remove_next(s.run, s.manifest, reply);
    RemoveModel {
        run,
        manifest: m,
        disk: if remove_saves(s.run.stage) && went_through(reply) {
            s.manifest
        } else {
            s.disk
        },
    }
}

/// A removal run that found `actual` in the file, after `replies`.
pub open spec fn remove_after(
    p: Seq<char>,
    m: ManifestView,
    actual: Option<Seq<char>>,
    replies: Seq<ReplyView>,
) -> RemoveModel
    decreases replies.len(),
{
    if replies.len() == 0 {
        let (run, m1) = remove_probe(p, m, actual);
        RemoveModel { run, manifest: m1, disk: m }
    } else {
        remove_model_next(remove_after(p, m, actual, replies.drop_last()), replies.last())
    }
}

/// The manifest that journals a deletion.
pub open spec fn delete_journal(m: ManifestView, p: Seq<char>, actual: Seq<char>) -> ManifestView {
    amend(m, p, |e: EntryView| deleting_row(e, actual))
}

spec fn remove_inv(
    p: Seq<char>,
    m: ManifestView,
    actual: Option<Seq<char>>,
    s: RemoveModel,
) -> bool {
    let owned = actual is Some && manifest::tracks(m, p, actual->0);
    let journaled = delete_journal(m, p, actual->0);
    &&& s.run.final_path == p
    &&& match s.run.stage {
        RemoveStageView::Probe => false,
        RemoveStageView::Release { index, entry } => actual is None && s.disk == m && slot(
            m.files,
            p,
        ) == Some(index) && s.manifest == artifact::without_row(m, index) && entry
            == m.files[index],
        RemoveStageView::Journal => owned && s.manifest == journaled && s.disk == m,
        RemoveStageView::Unlink => owned && s.manifest == journaled && s.disk == journaled,
        RemoveStageView::Failing { error } => owned && s.disk == journaled,
        RemoveStageView::Finish { index, entry } => owned && s.disk == journaled && slot(
            journaled.files,
            p,
        ) == Some(index) && s.manifest == artifact::without_row(journaled, index) && entry
            == journaled.files[index],
        RemoveStageView::Done { outcome } => match outcome {
            OutcomeView::Deleted => owned && match slot(journaled.files, p) {
                Some(i) => s.disk == artifact::without_row(journaled, i),
                None => true,
            },
            OutcomeView::Written => false,
            OutcomeView::Unchanged => actual is None,
            OutcomeView::Refused { reason } => !owned && actual is Some && s.manifest == m && s.disk
                == m,
            OutcomeView::Failed { error } => owned || actual is None,
        },
    }
}

proof fn remove_inv_holds(
    p: Seq<char>,
    m: ManifestView,
    actual: Option<Seq<char>>,
    replies: Seq<ReplyView>,
)
    ensures
        remove_inv(p, m, actual, remove_after(p, m, actual, replies)),
    decreases replies.len(),
{
    if replies.len() > 0 {
        remove_inv_holds(p, m, actual, replies.drop_last());
    }
}

/// Nothing is removed before the journaled deletion, with the hash that the
/// file has, was saved; and only a file that is owned by its hash.
pub proof fn unlink_follows_durable_journal(
    p: Seq<char>,
    m: ManifestView,
    actual: Option<Seq<char>>,
    replies: Seq<ReplyView>,
)
    ensures
        ({
            let s = remove_after(p, m, actual, replies);
            s.run.stage is Unlink ==> {
                &&& actual is Some
                &&& manifest::tracks(m, p, actual->0)
                &&& s.disk == delete_journal(m, p, actual->0)
            }
        }),
{
    remove_inv_holds(p, m, actual, replies);
}

/// A file that the manifest does not own by its hash is never removed.
pub proof fn unowned_file_is_never_removed(
    p: Seq<char>,
    m: ManifestView,
    actual: Seq<char>,
    replies: Seq<ReplyView>,
)
    requires
        !manifest::tracks(m, p, actual),
    ensures
        ({
            let s = remove_after(p, m, Some(actual), replies);
            &&& s.run.stage is Done
            &&& s.run.stage->Done_outcome is Refused
            &&& s.manifest == m
            &&& s.disk == m
        }),
    decreases replies.len(),
{
    if replies.len() > 0 {
        unowned_file_is_never_removed(p, m, actual, replies.drop_last());
    }
}

/// A file that cannot be read is neither written nor removed: a run that finds
/// one refuses it and changes nothing, and recovery settles a pending row of
/// such a file as refused, its recorded hash kept.
pub proof fn unreadable_file_is_never_touched(
    a: ArtifactView,
    desired: Seq<char>,
    m: ManifestView,
    e: EntryView,
    s: SeenView,
)
    ensures
        ({
            let write = ApplyView { spec: a, desired_sha: desired, stage: ApplyStageView::Probe };
            let (r, t) = apply_next(write, m, ReplyView::Unreadable);
            r.stage is Done && r.stage->Done_outcome is Refused && t == m
        }),
        ({
            let removal = RemoveView { final_path: a.final_path, stage: RemoveStageView::Probe };
            let (r, t) = remove_next(removal, m, ReplyView::Unreadable);
            r.stage is Done && r.stage->Done_outcome is Refused && t == m
        }),
        e.state == EntryState::Pending && s.unreadable ==> {
            &&& resolved_row(e, s) == Some(refused_row(e))
            &&& refused_row(e).sha256 == e.sha256
            &&& resolution(e, s) == Some(
                RecoveryView::Refused { reason: interrupted_reason(e.path) },
            )
        },
{
}

/// A deletion is reported only when the saved manifest no longer holds the
/// row.
pub proof fn deleted_means_released(
    p: Seq<char>,
    m: ManifestView,
    actual: Seq<char>,
    replies: Seq<ReplyView>,
)
    requires
        manifest::tracks(m, p, actual),
    ensures
        ({
            let s = remove_after(p, m, Some(actual), replies);
            s.run.stage == (RemoveStageView::Done { outcome: OutcomeView::Deleted }) ==> {
                let journaled = delete_journal(m, p, actual);
                &&& slot(journaled.files, p) == slot(m.files, p)
                &&& s.disk == artifact::without_row(journaled, slot(m.files, p)->0)
            }
        }),
{
    remove_inv_holds(p, m, Some(actual), replies);
    amend_keeps_slot(m, p, |e: EntryView| deleting_row(e, actual));
}

pub proof fn amend_keeps_slot(m: ManifestView, p: Seq<char>, f: spec_fn(EntryView) -> EntryView)
    requires
        forall|e: EntryView| (#[trigger] f(e)).path == e.path,
    ensures
        slot(amend(m, p, f).files, p) == slot(m.files, p),
{
    match slot(m.files, p) {
        None => {},
        Some(i) => {
            let t = amend(m, p, f).files;
            assert(is_slot(m.files, p, i)) by {
                let k = choose|k: int| is_slot(m.files, p, k);
            }
            assert(is_slot(t, p, i)) by {
                assert forall|j: int| 0 <= j < i implies path::key((#[trigger] t[j]).path)
                    != path::key(p) by {
                    assert(t[j] == m.files[j]);
                }
            }
            manifest::slot_is(t, p, i);
        },
    }
}

// ---- isolation ----
/// Rows that are not the file's own are the same, at the same places.
pub open spec fn others_kept(a: Seq<EntryView>, b: Seq<EntryView>, p: Seq<char>) -> bool {
    &&& a.len() <= b.len()
    &&& forall|i: int|
        0 <= i < a.len() && path::key((#[trigger] a[i]).path) != path::key(p) ==> b[i] == a[i]
}

/// A write run never changes the row of another file.
pub proof fn apply_keeps_other_rows(run: ApplyView, m: ManifestView, reply: ReplyView)
    ensures
        others_kept(m.files, apply_next(run, m, reply).1.files, run.spec.final_path),
{
    let p = run.spec.final_path;
    match slot(m.files, p) {
        Some(i) => {
            assert(is_slot(m.files, p, i)) by {
                let k = choose|k: int| is_slot(m.files, p, k);
            }
        },
        None => {},
    }
}

/// At most one row per file.
pub open spec fn distinct(m: ManifestView) -> bool {
    forall|i: int, j: int|
        0 <= i < j < m.files.len() ==> path::key((#[trigger] m.files[i]).path) != path::key(
            (#[trigger] m.files[j]).path,
        )
}

/// A write run keeps the manifest at one row per file.
pub proof fn apply_keeps_rows_distinct(run: ApplyView, m: ManifestView, reply: ReplyView)
    requires
        distinct(m),
    ensures
        distinct(apply_next(run, m, reply).1),
{
    let p = run.spec.final_path;
    let t = apply_next(run, m, reply).1;
    match slot(m.files, p) {
        Some(i) => {
            assert(is_slot(m.files, p, i)) by {
                let k = choose|k: int| is_slot(m.files, p, k);
            }
            assert forall|a: int, b: int| 0 <= a < b < t.files.len() implies path::key(
                (#[trigger] t.files[a]).path,
            ) != path::key((#[trigger] t.files[b]).path) by {
                assert(path::key(t.files[a].path) == path::key(m.files[a].path));
                assert(path::key(t.files[b].path) == path::key(m.files[b].path));
            }
        },
        None => {
            assert forall|k: int| 0 <= k < m.files.len() implies path::key(
                (#[trigger] m.files[k]).path,
            ) != path::key(p) by {
                if path::key(m.files[k].path) == path::key(p) {
                    first_slot(m.files, p, k);
                }
            }
        },
    }
}

proof fn first_slot(files: Seq<EntryView>, p: Seq<char>, k: int)
    requires
        0 <= k < files.len(),
        path::key(files[k].path) == path::key(p),
    ensures
        slot(files, p) is Some,
    decreases k,
{
    if exists|j: int| 0 <= j < k && path::key((#[trigger] files[j]).path) == path::key(p) {
        let j = choose|j: int| 0 <= j < k && path::key((#[trigger] files[j]).path) == path::key(p);
        first_slot(files, p, j);
    } else {
        assert(is_slot(files, p, k));
        manifest::slot_is(files, p, k);
    }
}

/// A removal run keeps the manifest at one row per file.
pub proof fn remove_keeps_rows_distinct(
    p: Seq<char>,
    m: ManifestView,
    actual: Option<Seq<char>>,
    replies: Seq<ReplyView>,
)
    requires
        distinct(m),
    ensures
        distinct(remove_after(p, m, actual, replies).manifest),
    decreases replies.len(),
{
    if replies.len() == 0 {
        remove_step_distinct(m, p);
        if actual is Some {
            amend_distinct(m, p, |e: EntryView| deleting_row(e, actual->0));
        }
    } else {
        let before = replies.drop_last();
        let s = remove_after(p, m, actual, before);
        remove_inv_holds(p, m, actual, before);
        remove_keeps_rows_distinct(p, m, actual, before);
        remove_step_distinct(s.manifest, p);
        amend_distinct(s.manifest, p, |e: EntryView| failed_row(e));
        match s.run.stage {
            RemoveStageView::Release { index, entry } => {
                restored_is_whole(m, p, index);
            },
            RemoveStageView::Finish { index, entry } => {
                let journaled = delete_journal(m, p, actual->0);
                amend_distinct(m, p, |e: EntryView| deleting_row(e, actual->0));
                restored_is_whole(journaled, p, index);
            },
            _ => {},
        }
    }
}

proof fn remove_step_distinct(m: ManifestView, p: Seq<char>)
    requires
        distinct(m),
    ensures
        slot(m.files, p) is Some ==> distinct(artifact::without_row(m, slot(m.files, p)->0)),
{
    if slot(m.files, p) is Some {
        let i = slot(m.files, p)->0;
        assert(is_slot(m.files, p, i)) by {
            let k = choose|k: int| is_slot(m.files, p, k);
        }
        let t = m.files.remove(i);
        assert forall|a: int, b: int| 0 <= a < b < t.len() implies path::key(
            (#[trigger] t[a]).path,
        ) != path::key((#[trigger] t[b]).path) by {
            let x = if a < i { a } else { a + 1 };
            let y = if b < i { b } else { b + 1 };
            assert(t[a] == m.files[x]);
            assert(t[b] == m.files[y]);
        }
    }
}

proof fn amend_distinct(m: ManifestView, p: Seq<char>, f: spec_fn(EntryView) -> EntryView)
    requires
        distinct(m),
        forall|e: EntryView| (#[trigger] f(e)).path == e.path,
    ensures
        distinct(amend(m, p, f)),
{
    let t = amend(m, p, f);
    match slot(m.files, p) {
        None => {},
        Some(i) => {
            assert(is_slot(m.files, p, i)) by {
                let k = choose|k: int| is_slot(m.files, p, k);
            }
            assert forall|a: int, b: int| 0 <= a < b < t.files.len() implies path::key(
                (#[trigger] t.files[a]).path,
            ) != path::key((#[trigger] t.files[b]).path) by {
                assert(t.files[a].path == m.files[a].path);
                assert(t.files[b].path == m.files[b].path);
            }
        },
    }
}

proof fn restored_is_whole(m: ManifestView, p: Seq<char>, i: int)
    requires
        slot(m.files, p) == Some(i),
    ensures
        artifact::restored(artifact::without_row(m, i), i, m.files[i]) == m,
{
    assert(is_slot(m.files, p, i)) by {
        let k = choose|k: int| is_slot(m.files, p, k);
    }
    assert(m.files.remove(i).insert(i, m.files[i]) =~= m.files);
}

/// Some row is for the file at `k`.
spec fn holds_key(files: Seq<EntryView>, k: path::PathKey) -> bool {
    exists|i: int| 0 <= i < files.len() && path::key((#[trigger] files[i]).path) == k
}

proof fn resolved_rows_are_rows(files: Seq<EntryView>, seen: Seq<SeenView>, j: int)
    requires
        seen.len() == files.len(),
        0 <= j < resolved_rows(files, seen).len(),
    ensures
        holds_key(files, path::key(resolved_rows(files, seen)[j].path)),
    decreases files.len(),
{
    if files.len() > 0 {
        let before = resolved_rows(files.drop_last(), seen.drop_last());
        let k = path::key(resolved_rows(files, seen)[j].path);
        if j < before.len() {
            resolved_rows_are_rows(files.drop_last(), seen.drop_last(), j);
            let i = choose|i: int|
                0 <= i < files.len() - 1 && path::key((#[trigger] files.drop_last()[i]).path) == k;
            assert(path::key(files[i].path) == k);
        } else {
            assert(path::key(files[files.len() - 1].path) == k);
        }
    }
}

/// Recovery keeps the manifest at one row per file.
pub proof fn recovery_keeps_rows_distinct(m: ManifestView, seen: Seq<SeenView>)
    requires
        distinct(m),
        seen.len() == m.files.len(),
    ensures
        distinct(ManifestView { version: m.version, files: resolved_rows(m.files, seen) }),
    decreases m.files.len(),
{
    if m.files.len() > 0 {
        let t = resolved_rows(m.files, seen);
        let f0 = m.files.drop_last();
        let s0 = seen.drop_last();
        let before = resolved_rows(f0, s0);
        let m0 = ManifestView { version: m.version, files: f0 };
        assert(distinct(m0)) by {
            assert forall|a: int, b: int| 0 <= a < b < f0.len() implies path::key(
                (#[trigger] m0.files[a]).path,
            ) != path::key((#[trigger] m0.files[b]).path) by {
                assert(f0[a] == m.files[a] && f0[b] == m.files[b]);
            }
        }
        recovery_keeps_rows_distinct(m0, s0);
        let last = path::key(m.files.last().path);
        assert forall|a: int| 0 <= a < before.len() implies path::key((#[trigger] before[a]).path)
            != last by {
            resolved_rows_are_rows(f0, s0, a);
            let i = choose|i: int|
                0 <= i < f0.len() && path::key((#[trigger] f0[i]).path) == path::key(
                    before[a].path,
                );
            assert(f0[i] == m.files[i]);
            assert(m.files[m.files.len() - 1] == m.files.last());
        }
        let mb = ManifestView { version: m.version, files: before };
        assert forall|a: int, b: int| 0 <= a < b < t.len() implies path::key(
            (#[trigger] t[a]).path,
        ) != path::key((#[trigger] t[b]).path) by {
            assert(t[a] == mb.files[a]);
            if b < before.len() {
                assert(t[b] == mb.files[b]);
            } else {
                assert(path::key(t[b].path) == last);
            }
        }
    }
}

/// The row for a file that was just put is found at its place.
pub proof fn put_is_found(m: ManifestView, e: EntryView)
    ensures
        slot(put(m, e).files, e.path) is Some,
        put(m, e).files[slot(put(m, e).files, e.path)->0] == e,
{
    let t = put(m, e);
    match slot(m.files, e.path) {
        Some(i) => {
            assert(is_slot(m.files, e.path, i)) by {
                let k = choose|k: int| is_slot(m.files, e.path, k);
            }
            assert forall|j: int| 0 <= j < i implies path::key((#[trigger] t.files[j]).path)
                != path::key(e.path) by {
                assert(t.files[j] == m.files[j]);
            }
            assert(is_slot(t.files, e.path, i));
            manifest::slot_is(t.files, e.path, i);
        },
        None => {
            let n = m.files.len() as int;
            assert forall|j: int| 0 <= j < n implies path::key((#[trigger] t.files[j]).path)
                != path::key(e.path) by {
                if path::key(m.files[j].path) == path::key(e.path) {
                    first_slot(m.files, e.path, j);
                }
            }
            assert(is_slot(t.files, e.path, n));
            manifest::slot_is(t.files, e.path, n);
        },
    }
}

/// After an interrupted write the journal still owns whatever of the two
/// contents is on disk, so the next write goes on where this one stopped.
pub proof fn interrupted_write_can_be_resumed(
    a: ArtifactView,
    desired: Seq<char>,
    m: ManifestView,
    actual: Option<Seq<char>>,
    found: Option<Seq<char>>,
    next: Seq<char>,
)
    requires
        found == actual || found == Some(desired),
    ensures
        ({
            let journaled = put(m, pending_row(a, desired, actual));
            let start = ApplyView { spec: a, desired_sha: next, stage: ApplyStageView::Probe };
            apply_probe(start, journaled, found).0.stage is Journal
        }),
{
    put_is_found(m, pending_row(a, desired, actual));
}

/// A completed write leaves a settled row with the hash that was written.
proof fn finished_is_settled(
    a: ArtifactView,
    desired: Seq<char>,
    m: ManifestView,
    actual: Option<Seq<char>>,
    clock: Option<u64>,
)
    ensures
        ({
            let f = finished(a, desired, m, actual, clock).files;
            &&& slot(f, a.final_path) is Some
            &&& f[slot(f, a.final_path)->0] == applied_row(
                pending_row(a, desired, actual),
                desired,
                clock,
            )
        }),
{
    let row = pending_row(a, desired, actual);
    let journaled = put(m, row);
    put_is_found(m, row);
    let change = |e: EntryView| applied_row(e, desired, clock);
    amend_keeps_slot(journaled, a.final_path, change);
    let i = slot(journaled.files, a.final_path)->0;
    assert(is_slot(journaled.files, a.final_path, i)) by {
        let k = choose|k: int| is_slot(journaled.files, a.final_path, k);
    }
}

/// A completed write, repeated with the same content, changes nothing.
pub proof fn repeated_write_is_unchanged(
    a: ArtifactView,
    desired: Seq<char>,
    m: ManifestView,
    actual: Option<Seq<char>>,
    clock: Option<u64>,
    replies: Seq<ReplyView>,
)
    ensures
        ({
            let written = finished(a, desired, m, actual, clock);
            let s = apply_after(a, desired, written, Some(desired), replies);
            &&& s.run.stage == (ApplyStageView::Done { outcome: OutcomeView::Unchanged })
            &&& s.manifest == written
            &&& s.disk == written
        }),
{
    finished_is_settled(a, desired, m, actual, clock);
    settled_content_is_left_alone(
        a,
        desired,
        finished(a, desired, m, actual, clock),
        replies,
    );
}

/// What was written is owned: it can be written over and removed again, while
/// any other content in its place is refused.
pub proof fn written_content_is_owned(
    a: ArtifactView,
    desired: Seq<char>,
    m: ManifestView,
    actual: Option<Seq<char>>,
    clock: Option<u64>,
    found: Seq<char>,
)
    ensures
        manifest::tracks(finished(a, desired, m, actual, clock), a.final_path, found) <==> found
            == desired,
{
    finished_is_settled(a, desired, m, actual, clock);
}

// ---- progress ----
/// How many replies a removal run still takes at most.
pub open spec fn remove_rank(stage: RemoveStageView) -> nat {
    match stage {
        RemoveStageView::Probe => 4,
        RemoveStageView::Journal => 3,
        RemoveStageView::Unlink => 2,
        RemoveStageView::Release { index, entry } => 1,
        RemoveStageView::Finish { index, entry } => 1,
        RemoveStageView::Failing { error } => 1,
        RemoveStageView::Done { outcome } => 0,
    }
}

/// Whether a reply is one that the stage waits for.
pub open spec fn remove_awaits(stage: RemoveStageView, reply: ReplyView) -> bool {
    match stage {
        RemoveStageView::Probe => reply is Hash || reply is Unreadable,
        RemoveStageView::Done { outcome } => false,
        _ => reply is Did,
    }
}

/// Every awaited reply brings a removal run nearer to its end.
pub proof fn remove_makes_progress(run: RemoveView, m: ManifestView, reply: ReplyView)
    requires
        remove_awaits(run.stage, reply),
    ensures
        remove_rank(remove_next(run, m, reply).0.stage) < remove_rank(run.stage),
{
}

/// The run of a batch is that of its next job.
pub open spec fn in_step(b: BatchView) -> bool {
    let n = b.outcomes.len() as int;
    match b.current {
        CurrentView::Finished => true,
        CurrentView::Apply(run) => n < b.jobs.len() && match b.jobs[n] {
            JobView::Apply { spec, content, sha256 } => run.spec == spec && run.desired_sha
                == sha256,
            _ => false,
        },
        CurrentView::Remove(run) => n < b.jobs.len() && match b.jobs[n] {
            JobView::Remove { path } => run.final_path == path,
            _ => false,
        },
    }
}

/// A batch stays in step with its jobs: it starts so, and whatever is replied
/// keeps it so.
pub proof fn batches_stay_in_step(
    jobs: Seq<JobView>,
    policy: Policy,
    b: BatchView,
    m: ManifestView,
    reply: ReplyView,
)
    ensures
        in_step(batch_start(jobs, policy)),
        in_step(b) ==> in_step(batch_next(b, m, reply).0),
{
}

/// The content that is written is that of the job whose hash was journaled, at
/// the job's path and with its mode; and what is removed is the job's file.
pub proof fn only_journaled_content_is_written(b: BatchView)
    requires
        in_step(b),
    ensures
        match batch_task(b) {
            TaskView::Write { dir, path, content, mode } => {
                let n = b.outcomes.len() as int;
                &&& b.jobs[n] is Apply
                &&& b.current is Apply
                &&& b.current->Apply_0.desired_sha == b.jobs[n]->sha256
                &&& content == b.jobs[n]->content
                &&& path == b.jobs[n]->spec.final_path
                &&& mode == b.jobs[n]->spec.mode
                &&& dir == path::dir_of(path)
            },
            TaskView::Unlink { path } => b.jobs[b.outcomes.len() as int] == (JobView::Remove {
                path,
            }),
            _ => true,
        },
{
}

/// Whether a reply is one that a batch waits for.
pub open spec fn batch_awaits(b: BatchView, reply: ReplyView) -> bool {
    match b.current {
        CurrentView::Apply(run) => apply_awaits(run.stage, reply),
        CurrentView::Remove(run) => remove_awaits(run.stage, reply),
        CurrentView::Finished => false,
    }
}

/// How many replies a batch still takes at most.
pub open spec fn batch_rank(b: BatchView) -> int {
    let left = b.jobs.len() - b.outcomes.len();
    match b.current {
        CurrentView::Apply(run) => 9 * left + apply_rank(run.stage),
        CurrentView::Remove(run) => 9 * left + remove_rank(run.stage),
        CurrentView::Finished => 0,
    }
}

/// Every awaited reply brings a batch nearer to its end.
pub proof fn batch_makes_progress(b: BatchView, m: ManifestView, reply: ReplyView)
    requires
        in_step(b),
        batch_awaits(b, reply),
    ensures
        0 <= batch_rank(batch_next(b, m, reply).0) < batch_rank(b),
{
    match b.current {
        CurrentView::Apply(run) => {
            apply_makes_progress(run, m, reply);
        },
        CurrentView::Remove(run) => {
            remove_makes_progress(run, m, reply);
        },
        CurrentView::Finished => {},
    }
}

/// Whether a reply is one that a transaction waits for.
pub open spec fn txn_awaits(t: TxnView, reply: TxnReplyView) -> bool {
    match t.stage {
        TxnStageView::Load => reply is Loaded,
        TxnStageView::Observe => reply matches TxnReplyView::Observed(seen) && seen.len()
            == t.manifest.files.len(),
        TxnStageView::Preflight => reply is Looked,
        TxnStageView::Work => reply matches TxnReplyView::Artifact(r) && batch_awaits(t.batch, r),
        TxnStageView::Prune => reply matches TxnReplyView::Existing(there) && there.len()
            == t.manifest.files.len(),
        TxnStageView::FindManifest => reply is Found,
        TxnStageView::Done => false,
        TxnStageView::Failed { error } => false,
        _ => if waits_for_lock(t.stage) {
            reply is Lock
        } else {
            reply is Did
        },
    }
}

/// How many phases a transaction has before it at most.
pub open spec fn txn_rank(stage: TxnStageView) -> nat {
    match stage {
        TxnStageView::Acquire => 16,
        TxnStageView::CheckLocked => 15,
        TxnStageView::Load => 14,
        TxnStageView::CheckLoaded => 13,
        TxnStageView::Observe => 12,
        TxnStageView::SaveRecovered => 11,
        TxnStageView::CheckRecovered => 10,
        TxnStageView::Preflight => 9,
        TxnStageView::Work => 8,
        TxnStageView::Prune => 7,
        TxnStageView::SavePruned => 6,
        TxnStageView::CheckWorked => 5,
        TxnStageView::FindManifest => 4,
        TxnStageView::UnlinkManifest => 3,
        TxnStageView::SaveFinal => 3,
        TxnStageView::CheckFinal => 2,
        TxnStageView::Done => 0,
        TxnStageView::Failed { error } => 0,
    }
}

/// A transaction keeps its batch in step: it starts so, and whatever is
/// replied keeps it so.
pub proof fn transactions_stay_in_step(
    purpose: PurposeView,
    finalize: FinalizeMode,
    t: TxnView,
    reply: TxnReplyView,
)
    ensures
        in_step(txn_start(purpose, finalize).batch),
        in_step(t.batch) ==> in_step(txn_next(t, reply).batch),
{
}

/// Every awaited reply brings a transaction nearer to its end: it comes to a
/// later phase, or its batch has less before it.
pub proof fn transaction_makes_progress(t: TxnView, reply: TxnReplyView)
    requires
        txn_awaits(t, reply),
        in_step(t.batch),
    ensures
        ({
            let next = txn_next(t, reply);
            ||| txn_rank(next.stage) < txn_rank(t.stage)
            ||| next.stage is Work && t.stage is Work && 0 <= batch_rank(next.batch) < batch_rank(
                t.batch,
            )
        }),
{
    match (t.stage, reply) {
        (TxnStageView::Work, TxnReplyView::Artifact(r)) => {
            batch_makes_progress(t.batch, t.manifest, r);
        },
        _ => {},
    }
}

} // verus!
