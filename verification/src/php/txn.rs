//! A manifest transaction: lock, load, recover, work, finalize. The identity
//! of the lock is checked before every phase that touches the disk, and once
//! more at the end.

use crate::fs::{Disk, Snapshot};
use crate::path;
use crate::php::artifact::{Reply, ReplyView};
use crate::php::batch::{
    self, batch_next, batch_start, job_views, BatchRun, BatchView, Job, JobView, Policy,
};
use crate::php::lock::{self, LockError, LockErrorView};
use crate::php::manifest::{self, EntryView, Manifest, ManifestEntry, ManifestView};
use crate::php::preflight::{collision, set_collision_preflight};
use crate::php::recovery::{
    self, action_views, resolutions, resolved_rows, seen_views, settles, RecoveryAction,
    RecoveryView, Seen, SeenView,
};
use crate::text;
use vstd::prelude::*;

verus! {

#[derive(Debug)]
pub enum TxnError {
    Lock(LockError),
    Load(String),
    Recovery(String),
    Finalize(String),
}

pub enum TxnErrorView {
    Lock(LockErrorView),
    Load(Seq<char>),
    Recovery(Seq<char>),
    Finalize(Seq<char>),
}

impl View for TxnError {
    type V = TxnErrorView;

    open spec fn view(&self) -> TxnErrorView {
        match self {
            TxnError::Lock(e) => TxnErrorView::Lock(e@),
            TxnError::Load(e) => TxnErrorView::Load(e@),
            TxnError::Recovery(e) => TxnErrorView::Recovery(e@),
            TxnError::Finalize(e) => TxnErrorView::Finalize(e@),
        }
    }
}

/// What a transaction error says.
pub open spec fn txn_said(e: TxnErrorView) -> Seq<char> {
    match e {
        TxnErrorView::Lock(l) => lock::lock_said(l),
        TxnErrorView::Load(t) => "manifest unreadable: "@ + t,
        TxnErrorView::Recovery(t) => "journal recovery failed: "@ + t,
        TxnErrorView::Finalize(t) => "manifest finalization failed: "@ + t,
    }
}

impl TxnError {
    /// The error as text for the user.
    pub fn message(&self) -> (r: String)
        ensures
            r@ == txn_said(self@),
    {
        match self {
            TxnError::Lock(e) => e.message(),
            TxnError::Load(e) => text::cat2("manifest unreadable: ", e.as_str()),
            TxnError::Recovery(e) => text::cat2("journal recovery failed: ", e.as_str()),
            TxnError::Finalize(e) => text::cat2("manifest finalization failed: ", e.as_str()),
        }
    }
}

/// What happens to the manifest file at the end.
#[derive(Debug, Clone, Copy, PartialEq, Eq, Structural)]
pub enum FinalizeMode {
    SaveAlways,
    DeleteWhenEmpty,
}

/// What a transaction is for.
#[derive(Debug)]
pub enum Purpose {
    /// Only to resolve the journal.
    Recover,
    /// To bring a set of files into their desired state and to drop the rows
    /// of other files that are gone.
    Reconcile { jobs: Vec<Job> },
    /// To remove every file that the manifest tracks.
    Unmanage { policy: Policy },
    /// To write a set of files that must not collide with others.
    Materialize { jobs: Vec<Job> },
}

pub enum PurposeView {
    Recover,
    Reconcile { jobs: Seq<JobView> },
    Unmanage { policy: Policy },
    Materialize { jobs: Seq<JobView> },
}

impl View for Purpose {
    type V = PurposeView;

    open spec fn view(&self) -> PurposeView {
        match self {
            Purpose::Recover => PurposeView::Recover,
            Purpose::Reconcile { jobs } => PurposeView::Reconcile { jobs: job_views(jobs@) },
            Purpose::Unmanage { policy } => PurposeView::Unmanage { policy: *policy },
            Purpose::Materialize { jobs } => PurposeView::Materialize { jobs: job_views(jobs@) },
        }
    }
}

/// What a transaction waits for.
#[derive(Debug)]
pub enum TxnStage {
    /// The lock.
    Acquire,
    /// The identity of the lock, before the manifest is loaded.
    CheckLocked,
    /// The manifest.
    Load,
    /// The identity of the lock, before the journal is resolved.
    CheckLoaded,
    /// What is found of the files of the rows.
    Observe,
    /// The save of the resolved journal.
    SaveRecovered,
    /// The identity of the lock, before the work.
    CheckRecovered,
    /// What is found of the files that are to be written.
    Preflight,
    /// The next result of the batch.
    Work,
    /// Which files of the rows exist.
    Prune,
    /// The save of the pruned manifest.
    SavePruned,
    /// The identity of the lock, after the work.
    CheckWorked,
    /// Whether the manifest file exists.
    FindManifest,
    /// The removal of the manifest file.
    UnlinkManifest,
    /// The last save of the manifest.
    SaveFinal,
    /// The identity of the lock, at the end.
    CheckFinal,
    Done,
    Failed { error: TxnError },
}

pub enum TxnStageView {
    Acquire,
    CheckLocked,
    Load,
    CheckLoaded,
    Observe,
    SaveRecovered,
    CheckRecovered,
    Preflight,
    Work,
    Prune,
    SavePruned,
    CheckWorked,
    FindManifest,
    UnlinkManifest,
    SaveFinal,
    CheckFinal,
    Done,
    Failed { error: TxnErrorView },
}

impl View for TxnStage {
    type V = TxnStageView;

    open spec fn view(&self) -> TxnStageView {
        match self {
            TxnStage::Acquire => TxnStageView::Acquire,
            TxnStage::CheckLocked => TxnStageView::CheckLocked,
            TxnStage::Load => TxnStageView::Load,
            TxnStage::CheckLoaded => TxnStageView::CheckLoaded,
            TxnStage::Observe => TxnStageView::Observe,
            TxnStage::SaveRecovered => TxnStageView::SaveRecovered,
            TxnStage::CheckRecovered => TxnStageView::CheckRecovered,
            TxnStage::Preflight => TxnStageView::Preflight,
            TxnStage::Work => TxnStageView::Work,
            TxnStage::Prune => TxnStageView::Prune,
            TxnStage::SavePruned => TxnStageView::SavePruned,
            TxnStage::CheckWorked => TxnStageView::CheckWorked,
            TxnStage::FindManifest => TxnStageView::FindManifest,
            TxnStage::UnlinkManifest => TxnStageView::UnlinkManifest,
            TxnStage::SaveFinal => TxnStageView::SaveFinal,
            TxnStage::CheckFinal => TxnStageView::CheckFinal,
            TxnStage::Done => TxnStageView::Done,
            TxnStage::Failed { error } => TxnStageView::Failed { error: error@ },
        }
    }
}

/// The result of what a transaction asked for.
#[derive(Debug)]
pub enum TxnReply {
    /// Whether the lock was taken, or is still the same.
    Lock(Result<(), LockError>),
    /// The manifest.
    Loaded(Result<Manifest, String>),
    /// What was found of the file of each row.
    Observed(Vec<Seen>),
    /// What was found of the files that are to be written.
    Looked(Snapshot),
    /// The result of the task of the batch.
    Artifact(Reply),
    /// For each row, whether its file exists.
    Existing(Vec<bool>),
    /// Whether the manifest file exists.
    Found(bool),
    /// Whether a save or a removal went through.
    Did(Result<(), String>),
}

pub enum TxnReplyView {
    Lock(Result<(), LockErrorView>),
    Loaded(Result<ManifestView, Seq<char>>),
    Observed(Seq<SeenView>),
    Looked(Disk),
    Artifact(ReplyView),
    Existing(Seq<bool>),
    Found(bool),
    Did(Result<(), Seq<char>>),
}

pub open spec fn done_view(r: Result<(), String>) -> Result<(), Seq<char>> {
    match r {
        Ok(_) => Ok(()),
        Err(e) => Err(e@),
    }
}

impl View for TxnReply {
    type V = TxnReplyView;

    open spec fn view(&self) -> TxnReplyView {
        match self {
            TxnReply::Lock(r) => TxnReplyView::Lock(
                match r {
                    Ok(_) => Ok(()),
                    Err(e) => Err(e@),
                },
            ),
            TxnReply::Loaded(r) => TxnReplyView::Loaded(
                match r {
                    Ok(m) => Ok(m@),
                    Err(e) => Err(e@),
                },
            ),
            TxnReply::Observed(v) => TxnReplyView::Observed(seen_views(v@)),
            TxnReply::Looked(s) => TxnReplyView::Looked(s@),
            TxnReply::Artifact(r) => TxnReplyView::Artifact(r@),
            TxnReply::Existing(v) => TxnReplyView::Existing(v@),
            TxnReply::Found(b) => TxnReplyView::Found(*b),
            TxnReply::Did(r) => TxnReplyView::Did(done_view(*r)),
        }
    }
}

/// A transaction under way.
#[derive(Debug)]
pub struct TxnRun {
    pub purpose: Purpose,
    pub finalize: FinalizeMode,
    pub manifest: Manifest,
    pub recovery: Vec<RecoveryAction>,
    pub batch: BatchRun,
    /// The rows when the work started.
    pub rows_before: Vec<ManifestEntry>,
    /// Why the work was refused beforehand.
    pub refusal: Option<String>,
    /// Why the pruned manifest could not be saved.
    pub prune_error: Option<String>,
    pub stage: TxnStage,
}

#[verifier::ext_equal]
pub struct TxnView {
    pub purpose: PurposeView,
    pub finalize: FinalizeMode,
    pub manifest: ManifestView,
    pub recovery: Seq<(Seq<char>, RecoveryView)>,
    pub batch: BatchView,
    pub rows_before: Seq<EntryView>,
    pub refusal: Option<Seq<char>>,
    pub prune_error: Option<Seq<char>>,
    pub stage: TxnStageView,
}

impl View for TxnRun {
    type V = TxnView;

    open spec fn view(&self) -> TxnView {
        TxnView {
            purpose: self.purpose@,
            finalize: self.finalize,
            manifest: self.manifest@,
            recovery: action_views(self.recovery@),
            batch: self.batch@,
            rows_before: manifest::rows(self.rows_before@),
            refusal: text::opt_text(self.refusal),
            prune_error: text::opt_text(self.prune_error),
            stage: self.stage@,
        }
    }
}

pub open spec fn to(t: TxnView, stage: TxnStageView) -> TxnView {
    TxnView { stage, ..t }
}

pub open spec fn failed(t: TxnView, error: TxnErrorView) -> TxnView {
    to(t, TxnStageView::Failed { error })
}

/// One removal per row.
pub open spec fn removals(files: Seq<EntryView>) -> Seq<JobView> {
    files.map_values(|e: EntryView| JobView::Remove { path: e.path })
}

/// The batch that the purpose asks for, once the journal is resolved.
pub open spec fn work(p: PurposeView, m: ManifestView) -> BatchView {
    match p {
        PurposeView::Recover => batch_start(Seq::empty(), Policy::All),
        PurposeView::Reconcile { jobs } => batch_start(jobs, Policy::All),
        PurposeView::Unmanage { policy } => batch_start(removals(m.files), policy),
        PurposeView::Materialize { jobs } => batch_start(jobs, Policy::StopOnFault),
    }
}

/// On when the batch may have come to its end.
pub open spec fn worked(t: TxnView) -> TxnView {
    if !(t.batch.current is Finished) {
        to(t, TxnStageView::Work)
    } else if t.purpose is Reconcile {
        to(t, TxnStageView::Prune)
    } else {
        to(t, TxnStageView::CheckWorked)
    }
}

/// The work, begun.
pub open spec fn begun(t: TxnView) -> TxnView {
    worked(TxnView { batch: work(t.purpose, t.manifest), rows_before: t.manifest.files, ..t })
}

/// The files that a set of jobs is about.
pub open spec fn job_path(j: JobView) -> Seq<char> {
    match j {
        JobView::Apply { spec, content, sha256 } => spec.final_path,
        JobView::Remove { path } => path,
    }
}

/// Whether one of the jobs is about the file at `p`.
pub open spec fn produces(jobs: Seq<JobView>, p: Seq<char>) -> bool {
    exists|i: int| 0 <= i < jobs.len() && path::key(job_path(#[trigger] jobs[i])) == path::key(p)
}

/// The rows that stay: those of the jobs' files and of files that exist.
pub open spec fn pruned(files: Seq<EntryView>, jobs: Seq<JobView>, there: Seq<bool>) -> Seq<EntryView>
    decreases files.len(),
{
    if files.len() == 0 || there.len() != files.len() {
        files
    } else {
        let before = pruned(files.drop_last(), jobs, there.drop_last());
        if produces(jobs, files.last().path) || there.last() {
            before.push(files.last())
        } else {
            before
        }
    }
}

/// Whether the work asks for a last save: unmanaging does, unless it was cut
/// short.
pub open spec fn finalize_requested(t: TxnView) -> bool {
    match t.purpose {
        PurposeView::Unmanage { policy } => policy == Policy::StopOnJournalFault && !cut_short(t),
        _ => false,
    }
}

/// Whether the batch ended on a fault of the journal.
pub open spec fn cut_short(t: TxnView) -> bool {
    t.batch.outcomes.len() > 0 && batch::ends_batch(t.batch.policy, t.batch.outcomes.last())
}

/// What the end of the work leads to.
pub open spec fn finish(t: TxnView) -> TxnStageView {
    match t.finalize {
        FinalizeMode::SaveAlways => if finalize_requested(t) {
            TxnStageView::SaveFinal
        } else {
            TxnStageView::CheckFinal
        },
        FinalizeMode::DeleteWhenEmpty => if t.manifest.files.len() == 0 {
            TxnStageView::FindManifest
        } else if finalize_requested(t) {
            TxnStageView::SaveFinal
        } else {
            TxnStageView::CheckFinal
        },
    }
}

pub open spec fn jobs_of(p: PurposeView) -> Seq<JobView> {
    match p {
        PurposeView::Reconcile { jobs } => jobs,
        PurposeView::Materialize { jobs } => jobs,
        _ => Seq::empty(),
    }
}

pub open spec fn job_paths(jobs: Seq<JobView>) -> Seq<Seq<char>> {
    jobs.map_values(|j: JobView| job_path(j))
}

/// One step of a transaction. A reply that the stage does not wait for changes
/// nothing.
pub open spec fn txn_next(t: TxnView, reply: TxnReplyView) -> TxnView {
    match (t.stage, reply) {
        (TxnStageView::Acquire, TxnReplyView::Lock(Ok(_))) => to(t, TxnStageView::CheckLocked),
        (TxnStageView::CheckLocked, TxnReplyView::Lock(Ok(_))) => to(t, TxnStageView::Load),
        (TxnStageView::Load, TxnReplyView::Loaded(Ok(m))) => TxnView {
            manifest: m,
            stage: TxnStageView::CheckLoaded,
            ..t
        },
        (TxnStageView::Load, TxnReplyView::Loaded(Err(e))) => failed(t, TxnErrorView::Load(e)),
        (TxnStageView::CheckLoaded, TxnReplyView::Lock(Ok(_))) => to(t, TxnStageView::Observe),
        (TxnStageView::Observe, TxnReplyView::Observed(seen)) => if seen.len()
            != t.manifest.files.len() {
            t
        } else {
            let actions = resolutions(t.manifest.files, seen);
            TxnView {
                manifest: ManifestView {
                    version: t.manifest.version,
                    files: resolved_rows(t.manifest.files, seen),
                },
                recovery: actions,
                stage: if settles(actions) {
                    TxnStageView::SaveRecovered
                } else {
                    TxnStageView::CheckRecovered
                },
                ..t
            }
        },
        (TxnStageView::SaveRecovered, TxnReplyView::Did(Ok(_))) => to(
            t,
            TxnStageView::CheckRecovered,
        ),
        (TxnStageView::SaveRecovered, TxnReplyView::Did(Err(e))) => failed(
            t,
            TxnErrorView::Recovery(e),
        ),
        (TxnStageView::CheckRecovered, TxnReplyView::Lock(Ok(_))) => if t.purpose is Materialize {
            to(t, TxnStageView::Preflight)
        } else {
            begun(t)
        },
        (TxnStageView::Preflight, TxnReplyView::Looked(d)) => match collision(
            t.manifest,
            job_paths(jobs_of(t.purpose)),
            d,
        ) {
            Some(reason) => TxnView {
                refusal: Some(reason),
                stage: TxnStageView::CheckWorked,
                ..t
            },
            None => begun(t),
        },
        (TxnStageView::Work, TxnReplyView::Artifact(r)) => {
            let (b, m) = batch_next(t.batch, t.manifest, r);
            worked(TxnView { batch: b, manifest: m, ..t })
        },
        (TxnStageView::Prune, TxnReplyView::Existing(there)) => if there.len()
            != t.manifest.files.len() {
            t
        } else {
            let files = pruned(t.manifest.files, t.batch.jobs, there);
            TxnView {
                manifest: ManifestView { version: t.manifest.version, files },
                stage: if files.len() != t.manifest.files.len() {
                    TxnStageView::SavePruned
                } else {
                    TxnStageView::CheckWorked
                },
                ..t
            }
        },
        (TxnStageView::SavePruned, TxnReplyView::Did(Ok(_))) => to(t, TxnStageView::CheckWorked),
        (TxnStageView::SavePruned, TxnReplyView::Did(Err(e))) => TxnView {
            prune_error: Some(e),
            stage: TxnStageView::CheckWorked,
            ..t
        },
        (TxnStageView::CheckWorked, TxnReplyView::Lock(Ok(_))) => to(t, finish(t)),
        (TxnStageView::FindManifest, TxnReplyView::Found(true)) => to(
            t,
            TxnStageView::UnlinkManifest,
        ),
        (TxnStageView::FindManifest, TxnReplyView::Found(false)) => to(t, TxnStageView::CheckFinal),
        (TxnStageView::UnlinkManifest, TxnReplyView::Did(Ok(_))) => to(t, TxnStageView::CheckFinal),
        (TxnStageView::UnlinkManifest, TxnReplyView::Did(Err(e))) => failed(
            t,
            TxnErrorView::Finalize(e),
        ),
        (TxnStageView::SaveFinal, TxnReplyView::Did(Ok(_))) => to(t, TxnStageView::CheckFinal),
        (TxnStageView::SaveFinal, TxnReplyView::Did(Err(e))) => failed(
            t,
            TxnErrorView::Finalize(e),
        ),
        (TxnStageView::CheckFinal, TxnReplyView::Lock(Ok(_))) => to(t, TxnStageView::Done),
        (stage, TxnReplyView::Lock(Err(e))) => if waits_for_lock(stage) {
            failed(t, TxnErrorView::Lock(e))
        } else {
            t
        },
        _ => t,
    }
}

/// The stages that wait for the lock or for its identity.
pub open spec fn waits_for_lock(stage: TxnStageView) -> bool {
    ||| stage is Acquire
    ||| stage is CheckLocked
    ||| stage is CheckLoaded
    ||| stage is CheckRecovered
    ||| stage is CheckWorked
    ||| stage is CheckFinal
}

/// How a transaction starts.
pub open spec fn txn_start(purpose: PurposeView, finalize: FinalizeMode) -> TxnView {
    TxnView {
        purpose,
        finalize,
        manifest: ManifestView { version: manifest::MANIFEST_VERSION, files: Seq::empty() },
        recovery: Seq::empty(),
        batch: batch_start(Seq::empty(), Policy::All),
        rows_before: Seq::empty(),
        refusal: None,
        prune_error: None,
        stage: TxnStageView::Acquire,
    }
}

/// Starts a transaction on a manifest.
pub fn manifest_set_transaction(purpose: Purpose, finalize: FinalizeMode) -> (r: TxnRun)
    ensures
        r@ == txn_start(purpose@, finalize),
{
    let jobs: Vec<Job> = Vec::new();
    let recovery: Vec<RecoveryAction> = Vec::new();
    let rows_before: Vec<ManifestEntry> = Vec::new();
    proof {
        assert(manifest::rows(rows_before@) =~= Seq::empty());
        assert(job_views(jobs@) =~= Seq::empty());
        assert(action_views(recovery@) =~= Seq::empty());
    }
    TxnRun {
        purpose,
        finalize,
        manifest: Manifest::empty(),
        recovery,
        batch: BatchRun::start(jobs, Policy::All),
        rows_before,
        refusal: None,
        prune_error: None,
        stage: TxnStage::Acquire,
    }
}

fn dup_job(j: &Job) -> (r: Job)
    ensures
        r@ == j@,
{
    match j {
        Job::Apply { spec, content, sha256 } => Job::Apply {
            spec: crate::php::artifact::OwnedArtifactSpec {
                final_path: spec.final_path.clone(),
                channel: spec.channel.clone(),
                php_version: spec.php_version.clone(),
                mode: spec.mode,
            },
            content: content.clone(),
            sha256: sha256.clone(),
        },
        Job::Remove { path } => Job::Remove { path: path.clone() },
    }
}

fn dup_jobs(v: &Vec<Job>) -> (r: Vec<Job>)
    ensures
        job_views(r@) == job_views(v@),
{
    let mut out: Vec<Job> = Vec::new();
    let mut i: usize = 0;
    while i < v.len()
        invariant
            i <= v@.len(),
            out@.len() == i,
            forall|j: int| 0 <= j < i ==> (#[trigger] out@[j])@ == v@[j]@,
        decreases v@.len() - i,
    {
        out.push(dup_job(&v[i]));
        i = i + 1;
    }
    assert(job_views(out@) =~= job_views(v@));
    out
}

fn removal_jobs(m: &Manifest) -> (r: Vec<Job>)
    ensures
        job_views(r@) == removals(m@.files),
{
    let mut out: Vec<Job> = Vec::new();
    let mut i: usize = 0;
    while i < m.files.len()
        invariant
            i <= m.files@.len(),
            out@.len() == i,
            forall|j: int| 0 <= j < i ==> (#[trigger] out@[j])@ == (JobView::Remove {
                path: m.files@[j].path@,
            }),
        decreases m.files@.len() - i,
    {
        out.push(Job::Remove { path: m.files[i].path.clone() });
        i = i + 1;
    }
    assert(job_views(out@) =~= removals(m@.files));
    out
}

fn paths_of(jobs: &Vec<Job>) -> (r: Vec<String>)
    ensures
        text::texts(r@) == job_paths(job_views(jobs@)),
{
    let mut out: Vec<String> = Vec::new();
    let mut i: usize = 0;
    while i < jobs.len()
        invariant
            i <= jobs@.len(),
            out@.len() == i,
            forall|j: int| 0 <= j < i ==> (#[trigger] out@[j])@ == job_path(jobs@[j]@),
        decreases jobs@.len() - i,
    {
        let p: String = match &jobs[i] {
            Job::Apply { spec, content: _, sha256: _ } => spec.final_path.clone(),
            Job::Remove { path } => path.clone(),
        };
        out.push(p);
        i = i + 1;
    }
    assert(text::texts(out@) =~= job_paths(job_views(jobs@)));
    out
}

fn is_produced(jobs: &Vec<Job>, p: &str) -> (r: bool)
    ensures
        r == produces(job_views(jobs@), p@),
{
    let ghost all = job_views(jobs@);
    let mut i: usize = 0;
    while i < jobs.len()
        invariant
            i <= jobs@.len(),
            all == job_views(jobs@),
            forall|j: int| 0 <= j < i ==> path::key(job_path(#[trigger] all[j])) != path::key(p@),
        decreases jobs@.len() - i,
    {
        proof {
            assert(all[i as int] == jobs@[i as int]@);
        }
        let same: bool = match &jobs[i] {
            Job::Apply { spec, content: _, sha256: _ } => path::same_path(
                spec.final_path.as_str(),
                p,
            ),
            Job::Remove { path } => path::same_path(path.as_str(), p),
        };
        if same {
            return true;
        }
        i = i + 1;
    }
    false
}

fn prune(m: &Manifest, jobs: &Vec<Job>, there: &Vec<bool>) -> (r: Vec<ManifestEntry>)
    requires
        there@.len() == m.files@.len(),
    ensures
        manifest::rows(r@) == pruned(m@.files, job_views(jobs@), there@),
{
    let ghost files = m@.files;
    let ghost all = job_views(jobs@);
    let mut out: Vec<ManifestEntry> = Vec::new();
    let mut i: usize = 0;
    proof {
        assert(files.take(0) =~= Seq::empty());
        assert(manifest::rows(out@) =~= Seq::empty());
    }
    while i < m.files.len()
        invariant
            i <= m.files@.len(),
            files == m@.files,
            all == job_views(jobs@),
            there@.len() == m.files@.len(),
            manifest::rows(out@) == pruned(files.take(i as int), all, there@.take(i as int)),
        decreases m.files@.len() - i,
    {
        proof {
            assert(files.take(i + 1).drop_last() =~= files.take(i as int));
            assert(there@.take(i + 1).drop_last() =~= there@.take(i as int));
            assert(files.take(i + 1).last() == m.files@[i as int]@);
        }
        if is_produced(jobs, m.files[i].path.as_str()) || there[i] {
            let ghost before = out@;
            out.push(m.files[i].dup());
            proof {
                assert(manifest::rows(out@) =~= manifest::rows(before).push(files[i as int]));
            }
        }
        i = i + 1;
    }
    proof {
        assert(files.take(i as int) =~= files);
        assert(there@.take(i as int) =~= there@);
    }
    out
}

/// Which phase a save belongs to.
#[derive(Clone, Copy, PartialEq, Eq, Structural)]
enum Fault {
    Recovery,
    Finalize,
}

fn is_cut_short(batch: &BatchRun) -> (r: bool)
    ensures
        r == (batch@.outcomes.len() > 0 && batch::ends_batch(
            batch@.policy,
            batch@.outcomes.last(),
        )),
{
    let n: usize = batch.outcomes.len();
    if n == 0 {
        return false;
    }
    proof {
        assert(batch@.outcomes.last() == batch.outcomes@[n - 1]@);
    }
    batch::is_end(batch.policy, &batch.outcomes[n - 1])
}

impl TxnRun {
    fn to(self, stage: TxnStage) -> (r: Self)
        ensures
            r@ == to(self@, stage@),
    {
        TxnRun { stage, ..self }
    }

    fn did(self, done: Result<(), String>, next: TxnStage, fault: Fault) -> (r: Self)
        ensures
            r@ == match done {
                Ok(_) => to(self@, next@),
                Err(e) => failed(
                    self@,
                    match fault {
                        Fault::Recovery => TxnErrorView::Recovery(e@),
                        Fault::Finalize => TxnErrorView::Finalize(e@),
                    },
                ),
            },
    {
        match done {
            Ok(_) => self.to(next),
            Err(e) => {
                let error = match fault {
                    Fault::Recovery => TxnError::Recovery(e),
                    Fault::Finalize => TxnError::Finalize(e),
                };
                self.to(TxnStage::Failed { error })
            },
        }
    }

    fn checked(self, held: Result<(), LockError>, next: TxnStage) -> (r: Self)
        ensures
            r@ == match held {
                Ok(_) => to(self@, next@),
                Err(e) => failed(self@, TxnErrorView::Lock(e@)),
            },
    {
        match held {
            Ok(_) => self.to(next),
            Err(e) => self.to(TxnStage::Failed { error: TxnError::Lock(e) }),
        }
    }

    fn worked(self) -> (r: Self)
        ensures
            r@ == worked(self@),
    {
        if !self.batch.is_finished() {
            return self.to(TxnStage::Work);
        }
        let prunes: bool = match &self.purpose {
            Purpose::Reconcile { jobs: _ } => true,
            _ => false,
        };
        if prunes {
            self.to(TxnStage::Prune)
        } else {
            self.to(TxnStage::CheckWorked)
        }
    }

    fn start_work(self) -> (r: Self)
        ensures
            r@ == begun(self@),
    {
        let rows_before: Vec<ManifestEntry> = manifest::dup_rows(&self.manifest.files);
        let batch: BatchRun = match &self.purpose {
            Purpose::Recover => {
                let jobs: Vec<Job> = Vec::new();
                proof {
                    assert(job_views(jobs@) =~= Seq::empty());
                }
                BatchRun::start(jobs, Policy::All)
            },
            Purpose::Reconcile { jobs } => BatchRun::start(dup_jobs(jobs), Policy::All),
            Purpose::Unmanage { policy } => BatchRun::start(
                removal_jobs(&self.manifest),
                *policy,
            ),
            Purpose::Materialize { jobs } => BatchRun::start(dup_jobs(jobs), Policy::StopOnFault),
        };
        let next = TxnRun { batch, rows_before, ..self };
        next.worked()
    }

    fn preflighted(self, disk: &Snapshot) -> (r: Self)
        requires
            disk.wf(),
        ensures
            r@ == match collision(self@.manifest, job_paths(jobs_of(self@.purpose)), disk@) {
                Some(reason) => TxnView {
                    refusal: Some(reason),
                    stage: TxnStageView::CheckWorked,
                    ..self@
                },
                None => begun(self@),
            },
    {
        let paths: Vec<String> = match &self.purpose {
            Purpose::Reconcile { jobs } => paths_of(jobs),
            Purpose::Materialize { jobs } => paths_of(jobs),
            _ => {
                let none: Vec<String> = Vec::new();
                proof {
                    assert(text::texts(none@) =~= job_paths(jobs_of(self@.purpose)));
                }
                none
            },
        };
        match set_collision_preflight(&self.manifest, &paths, disk) {
            Some(reason) => TxnRun { refusal: Some(reason), stage: TxnStage::CheckWorked, ..self },
            None => self.start_work(),
        }
    }

    fn finished(&self) -> (r: TxnStage)
        ensures
            r@ == finish(self@),
    {
        let requested: bool = match &self.purpose {
            Purpose::Unmanage { policy } => *policy == Policy::StopOnJournalFault && !is_cut_short(
                &self.batch,
            ),
            _ => false,
        };
        match self.finalize {
            FinalizeMode::SaveAlways => {
                if requested {
                    TxnStage::SaveFinal
                } else {
                    TxnStage::CheckFinal
                }
            },
            FinalizeMode::DeleteWhenEmpty => {
                if self.manifest.files.len() == 0 {
                    TxnStage::FindManifest
                } else if requested {
                    TxnStage::SaveFinal
                } else {
                    TxnStage::CheckFinal
                }
            },
        }
    }

    /// Takes the reply that the stage waits for and moves on.
    pub fn step(self, reply: TxnReply) -> (r: Self)
        requires
            reply matches TxnReply::Looked(s) ==> s.wf(),
        ensures
            r@ == txn_next(self@, reply@),
    {
        match (&self.stage, reply) {
            (TxnStage::Acquire, TxnReply::Lock(held)) => self.checked(held, TxnStage::CheckLocked),
            (TxnStage::CheckLocked, TxnReply::Lock(held)) => self.checked(held, TxnStage::Load),
            (TxnStage::Load, TxnReply::Loaded(loaded)) => match loaded {
                Ok(manifest) => TxnRun { manifest, stage: TxnStage::CheckLoaded, ..self },
                Err(e) => self.to(TxnStage::Failed { error: TxnError::Load(e) }),
            },
            (TxnStage::CheckLoaded, TxnReply::Lock(held)) => self.checked(held, TxnStage::Observe),
            (TxnStage::Observe, TxnReply::Observed(seen)) => {
                if seen.len() != self.manifest.files.len() {
                    return self;
                }
                let mut manifest: Manifest = self.manifest;
                let found = recovery::recover_pending_manifest(&mut manifest, &seen);
                let stage: TxnStage = if found.changed {
                    TxnStage::SaveRecovered
                } else {
                    TxnStage::CheckRecovered
                };
                TxnRun { manifest, recovery: found.actions, stage, ..self }
            },
            (TxnStage::SaveRecovered, TxnReply::Did(done)) => self.did(
                done,
                TxnStage::CheckRecovered,
                Fault::Recovery,
            ),
            (TxnStage::CheckRecovered, TxnReply::Lock(held)) => match held {
                Err(e) => self.to(TxnStage::Failed { error: TxnError::Lock(e) }),
                Ok(_) => {
                    let looks: bool = match &self.purpose {
                        Purpose::Materialize { jobs: _ } => true,
                        _ => false,
                    };
                    if looks {
                        self.to(TxnStage::Preflight)
                    } else {
                        self.start_work()
                    }
                },
            },
            (TxnStage::Preflight, TxnReply::Looked(disk)) => self.preflighted(&disk),
            (TxnStage::Work, TxnReply::Artifact(r)) => {
                let mut manifest: Manifest = self.manifest;
                let batch: BatchRun = self.batch.step(&mut manifest, r);
                let next = TxnRun { manifest, batch, ..self };
                next.worked()
            },
            (TxnStage::Prune, TxnReply::Existing(there)) => {
                if there.len() != self.manifest.files.len() {
                    return self;
                }
                let files: Vec<ManifestEntry> = prune(&self.manifest, &self.batch.jobs, &there);
                proof {
                    assert(manifest::rows(files@).len() == files@.len());
                }
                let stage: TxnStage = if files.len() != self.manifest.files.len() {
                    TxnStage::SavePruned
                } else {
                    TxnStage::CheckWorked
                };
                let manifest = Manifest { version: self.manifest.version, files };
                TxnRun { manifest, stage, ..self }
            },
            (TxnStage::SavePruned, TxnReply::Did(done)) => match done {
                Ok(_) => self.to(TxnStage::CheckWorked),
                Err(e) => TxnRun { prune_error: Some(e), stage: TxnStage::CheckWorked, ..self },
            },
            (TxnStage::CheckWorked, TxnReply::Lock(held)) => {
                let next: TxnStage = self.finished();
                self.checked(held, next)
            },
            (TxnStage::FindManifest, TxnReply::Found(there)) => {
                if there {
                    self.to(TxnStage::UnlinkManifest)
                } else {
                    self.to(TxnStage::CheckFinal)
                }
            },
            (TxnStage::UnlinkManifest, TxnReply::Did(done)) => self.did(
                done,
                TxnStage::CheckFinal,
                Fault::Finalize,
            ),
            (TxnStage::SaveFinal, TxnReply::Did(done)) => self.did(
                done,
                TxnStage::CheckFinal,
                Fault::Finalize,
            ),
            (TxnStage::CheckFinal, TxnReply::Lock(held)) => self.checked(held, TxnStage::Done),
            _ => self,
        }
    }
}

// ---- laws ----
/// A reply that says that the lock was taken, or is still the same.
pub open spec fn lock_holds(reply: TxnReplyView) -> bool {
    reply is Lock && reply->Lock_0 is Ok
}

/// Each phase is entered only on the word that the lock is held: loading,
/// resolving the journal, the work, the finalization and the end.
pub proof fn lock_is_checked_before_each_phase(t: TxnView, reply: TxnReplyView)
    ensures
        ({
            let n = txn_next(t, reply);
            &&& !(t.stage is Load) && n.stage is Load ==> t.stage is CheckLocked && lock_holds(
                reply,
            )
            &&& !(t.stage is Observe) && n.stage is Observe ==> t.stage is CheckLoaded
                && lock_holds(reply)
            &&& !(t.stage is Preflight) && n.stage is Preflight ==> t.stage is CheckRecovered
                && lock_holds(reply)
            &&& !(t.stage is Work) && n.stage is Work ==> (t.stage is CheckRecovered && lock_holds(
                reply,
            )) || t.stage is Preflight
            &&& !(t.stage is FindManifest) && n.stage is FindManifest ==> t.stage is CheckWorked
                && lock_holds(reply)
            &&& !(t.stage is SaveFinal) && n.stage is SaveFinal ==> t.stage is CheckWorked
                && lock_holds(reply)
            &&& !(t.stage is Done) && n.stage is Done ==> t.stage is CheckFinal && lock_holds(reply)
        }),
{
}

/// A lost lock ends the transaction, and nothing that comes later revives it.
pub proof fn lost_lock_ends_the_transaction(
    t: TxnView,
    error: LockErrorView,
    later: TxnReplyView,
)
    requires
        waits_for_lock(t.stage),
    ensures
        ({
            let n = txn_next(t, TxnReplyView::Lock(Err(error)));
            &&& n.stage == (TxnStageView::Failed { error: TxnErrorView::Lock(error) })
            &&& n.manifest == t.manifest
            &&& txn_next(n, later) == n
        }),
{
}

/// A collision keeps the whole set from being written: the batch is not begun,
/// the manifest stays, and the transaction goes on to its end.
pub proof fn collision_blocks_all_writes(t: TxnView, d: Disk)
    requires
        t.stage is Preflight,
        collision(t.manifest, job_paths(jobs_of(t.purpose)), d) is Some,
    ensures
        ({
            let n = txn_next(t, TxnReplyView::Looked(d));
            &&& n.stage is CheckWorked
            &&& n.batch == t.batch
            &&& n.manifest == t.manifest
            &&& n.refusal == collision(t.manifest, job_paths(jobs_of(t.purpose)), d)
        }),
{
}

} // verus!
