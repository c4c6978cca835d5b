//! A batch of journaled writes and removals, one after the other. One file's
//! failure never aborts the others, unless the batch says so.

use crate::path;
use crate::php::artifact::{
    self, apply_next, remove_next, ApplyRun, ApplyStage, ApplyStageView, ApplyView, ArtifactView,
    DirIdentity, OwnedArtifactSpec, RemoveRun, RemoveStage, RemoveStageView, RemoveView, Reply,
    ReplyView,
};
use crate::php::manifest::{Manifest, ManifestView, OutcomeView, WriteOutcome};
use crate::text;
use vstd::prelude::*;

verus! {

/// One file to write or to remove.
#[derive(Debug)]
pub enum Job {
    Apply { spec: OwnedArtifactSpec, content: String, sha256: String },
    Remove { path: String },
}

pub enum JobView {
    Apply { spec: ArtifactView, content: Seq<char>, sha256: Seq<char> },
    Remove { path: Seq<char> },
}

impl View for Job {
    type V = JobView;

    open spec fn view(&self) -> JobView {
        match self {
            Job::Apply { spec, content, sha256 } => JobView::Apply {
                spec: spec@,
                content: content@,
                sha256: sha256@,
            },
            Job::Remove { path } => JobView::Remove { path: path@ },
        }
    }
}

pub open spec fn job_views(v: Seq<Job>) -> Seq<JobView> {
    v.map_values(|j: Job| j@)
}

/// When a batch ends before its last job.
#[derive(Debug, Clone, Copy, PartialEq, Eq, Structural)]
pub enum Policy {
    /// Never.
    All,
    /// When a deletion could not be journaled or its journal not closed.
    StopOnJournalFault,
    /// When a job is refused or fails.
    StopOnFault,
}

/// A deletion that could not be journaled, or whose journal could not be
/// closed.
pub open spec fn journal_fault(o: OutcomeView) -> bool {
    match o {
        OutcomeView::Failed { error } => artifact::DELETE_JOURNAL_FAILED@.is_prefix_of(error)
            || artifact::DELETE_FINALIZE_FAILED@.is_prefix_of(error),
        _ => false,
    }
}

pub open spec fn ends_batch(policy: Policy, o: OutcomeView) -> bool {
    match policy {
        Policy::All => false,
        Policy::StopOnJournalFault => journal_fault(o),
        Policy::StopOnFault => o is Refused || o is Failed,
    }
}

fn is_journal_fault(o: &WriteOutcome) -> (r: bool)
    ensures
        r == journal_fault(o@),
{
    match o {
        WriteOutcome::Failed { error } => text::starts_with(
            error.as_str(),
            artifact::DELETE_JOURNAL_FAILED,
        ) || text::starts_with(error.as_str(), artifact::DELETE_FINALIZE_FAILED),
        _ => false,
    }
}

pub(crate) fn is_end(policy: Policy, o: &WriteOutcome) -> (r: bool)
    ensures
        r == ends_batch(policy, o@),
{
    match policy {
        Policy::All => false,
        Policy::StopOnJournalFault => is_journal_fault(o),
        Policy::StopOnFault => match o {
            WriteOutcome::Refused { reason: _ } => true,
            WriteOutcome::Failed { error: _ } => true,
            _ => false,
        },
    }
}

/// The run of the job that is under way.
#[derive(Debug)]
pub enum Current {
    Apply(ApplyRun),
    Remove(RemoveRun),
    Finished,
}

pub enum CurrentView {
    Apply(ApplyView),
    Remove(RemoveView),
    Finished,
}

impl View for Current {
    type V = CurrentView;

    open spec fn view(&self) -> CurrentView {
        match self {
            Current::Apply(run) => CurrentView::Apply(run@),
            Current::Remove(run) => CurrentView::Remove(run@),
            Current::Finished => CurrentView::Finished,
        }
    }
}

/// A batch under way: the outcomes of the jobs done, and the run of the next.
#[derive(Debug)]
pub struct BatchRun {
    pub jobs: Vec<Job>,
    pub policy: Policy,
    pub outcomes: Vec<WriteOutcome>,
    pub current: Current,
}

pub open spec fn outcome_views(v: Seq<WriteOutcome>) -> Seq<OutcomeView> {
    v.map_values(|o: WriteOutcome| o@)
}

#[verifier::ext_equal]
pub struct BatchView {
    pub jobs: Seq<JobView>,
    pub policy: Policy,
    pub outcomes: Seq<OutcomeView>,
    pub current: CurrentView,
}

impl View for BatchRun {
    type V = BatchView;

    open spec fn view(&self) -> BatchView {
        BatchView {
            jobs: job_views(self.jobs@),
            policy: self.policy,
            outcomes: outcome_views(self.outcomes@),
            current: self.current@,
        }
    }
}

/// How a job starts.
pub open spec fn started(j: JobView) -> CurrentView {
    match j {
        JobView::Apply { spec, content, sha256 } => CurrentView::Apply(
            ApplyView { spec, desired_sha: sha256, stage: ApplyStageView::Probe },
        ),
        JobView::Remove { path } => CurrentView::Remove(
            RemoveView { final_path: path, stage: RemoveStageView::Probe },
        ),
    }
}

/// What is under way when `n` jobs are done.
pub open spec fn upcoming(jobs: Seq<JobView>, n: int) -> CurrentView {
    if 0 <= n < jobs.len() {
        started(jobs[n])
    } else {
        CurrentView::Finished
    }
}

pub open spec fn batch_start(jobs: Seq<JobView>, policy: Policy) -> BatchView {
    BatchView { jobs, policy, outcomes: Seq::empty(), current: upcoming(jobs, 0) }
}

/// The batch after the job under way came to `o`.
pub open spec fn settled(b: BatchView, o: OutcomeView) -> BatchView {
    BatchView {
        jobs: b.jobs,
        policy: b.policy,
        outcomes: b.outcomes.push(o),
        current: if ends_batch(b.policy, o) {
            CurrentView::Finished
        } else {
            upcoming(b.jobs, b.outcomes.len() as int + 1)
        },
    }
}

/// One step of a batch.
pub open spec fn batch_next(b: BatchView, m: ManifestView, reply: ReplyView) -> (
    BatchView,
    ManifestView,
) {
    match b.current {
        CurrentView::Apply(run) => {
            let (next, m1) = apply_next(run, m, reply);
            match next.stage {
                ApplyStageView::Done { outcome } => (settled(b, outcome), m1),
                _ => (BatchView { current: CurrentView::Apply(next), ..b }, m1),
            }
        },
        CurrentView::Remove(run) => {
            let (next, m1) = remove_next(run, m, reply);
            match next.stage {
                RemoveStageView::Done { outcome } => (settled(b, outcome), m1),
                _ => (BatchView { current: CurrentView::Remove(next), ..b }, m1),
            }
        },
        CurrentView::Finished => (b, m),
    }
}

fn begin(jobs: &Vec<Job>, n: usize) -> (r: Current)
    ensures
        r@ == upcoming(job_views(jobs@), n as int),
{
    if n >= jobs.len() {
        return Current::Finished;
    }
    match &jobs[n] {
        Job::Apply { spec, content: _, sha256 } => Current::Apply(
            ApplyRun {
                spec: OwnedArtifactSpec {
                    final_path: spec.final_path.clone(),
                    channel: spec.channel.clone(),
                    php_version: spec.php_version.clone(),
                    mode: spec.mode,
                },
                desired_sha: sha256.clone(),
                stage: ApplyStage::Probe,
            },
        ),
        Job::Remove { path } => Current::Remove(
            RemoveRun { final_path: path.clone(), stage: RemoveStage::Probe },
        ),
    }
}

/// What has to be done next on behalf of a batch.
#[derive(Debug)]
pub enum Task {
    /// Hash the file; reply [`Reply::Hash`].
    Hash { path: String },
    /// Save the manifest durably; reply [`Reply::Did`].
    Save,
    /// Look whether the directory exists; reply [`Reply::Present`].
    FindDir { dir: String },
    /// Verify the directory; reply [`Reply::Identity`].
    VerifyDir { dir: String },
    /// Write the file atomically; reply [`Reply::Did`].
    Write { dir: String, path: String, content: String, mode: u32 },
    /// Check that the directory still has this identity; reply [`Reply::Did`].
    RecheckDir { dir: String, identity: DirIdentity },
    /// Read the wall clock; reply [`Reply::Clock`].
    Clock,
    /// Remove the file durably; reply [`Reply::Did`].
    Unlink { path: String },
    /// Nothing: the batch is done.
    Nothing,
}

pub enum TaskView {
    Hash { path: Seq<char> },
    Save,
    FindDir { dir: Seq<char> },
    VerifyDir { dir: Seq<char> },
    Write { dir: Seq<char>, path: Seq<char>, content: Seq<char>, mode: u32 },
    RecheckDir { dir: Seq<char>, identity: DirIdentity },
    Clock,
    Unlink { path: Seq<char> },
    Nothing,
}

impl View for Task {
    type V = TaskView;

    open spec fn view(&self) -> TaskView {
        match self {
            Task::Hash { path } => TaskView::Hash { path: path@ },
            Task::Save => TaskView::Save,
            Task::FindDir { dir } => TaskView::FindDir { dir: dir@ },
            Task::VerifyDir { dir } => TaskView::VerifyDir { dir: dir@ },
            Task::Write { dir, path, content, mode } => TaskView::Write {
                dir: dir@,
                path: path@,
                content: content@,
                mode: *mode,
            },
            Task::RecheckDir { dir, identity } => TaskView::RecheckDir {
                dir: dir@,
                identity: *identity,
            },
            Task::Clock => TaskView::Clock,
            Task::Unlink { path } => TaskView::Unlink { path: path@ },
            Task::Nothing => TaskView::Nothing,
        }
    }
}

/// The content that the job under way is to write.
pub open spec fn pending_content(b: BatchView) -> Seq<char> {
    let n = b.outcomes.len() as int;
    if 0 <= n < b.jobs.len() && b.jobs[n] is Apply {
        b.jobs[n]->content
    } else {
        Seq::empty()
    }
}

pub open spec fn apply_task(run: ApplyView, content: Seq<char>) -> TaskView {
    let p = run.spec.final_path;
    match run.stage {
        ApplyStageView::Probe => TaskView::Hash { path: p },
        ApplyStageView::Journal => TaskView::Save,
        ApplyStageView::CheckDir => TaskView::FindDir { dir: path::dir_of(p) },
        ApplyStageView::Verify => TaskView::VerifyDir { dir: path::dir_of(p) },
        ApplyStageView::Refusing { reason } => TaskView::Save,
        ApplyStageView::Write { identity } => TaskView::Write {
            dir: path::dir_of(p),
            path: p,
            content,
            mode: run.spec.mode,
        },
        ApplyStageView::Recheck { identity } => TaskView::RecheckDir {
            dir: path::dir_of(p),
            identity,
        },
        ApplyStageView::Failing { error } => TaskView::Save,
        ApplyStageView::Stamp => TaskView::Clock,
        ApplyStageView::Finish => TaskView::Save,
        ApplyStageView::Done { outcome } => TaskView::Nothing,
    }
}

pub open spec fn remove_task(run: RemoveView) -> TaskView {
    match run.stage {
        RemoveStageView::Probe => TaskView::Hash { path: run.final_path },
        RemoveStageView::Release { index, entry } => TaskView::Save,
        RemoveStageView::Journal => TaskView::Save,
        RemoveStageView::Unlink => TaskView::Unlink { path: run.final_path },
        RemoveStageView::Failing { error } => TaskView::Save,
        RemoveStageView::Finish { index, entry } => TaskView::Save,
        RemoveStageView::Done { outcome } => TaskView::Nothing,
    }
}

pub open spec fn batch_task(b: BatchView) -> TaskView {
    match b.current {
        CurrentView::Apply(run) => apply_task(run, pending_content(b)),
        CurrentView::Remove(run) => remove_task(run),
        CurrentView::Finished => TaskView::Nothing,
    }
}

impl BatchRun {
    pub fn start(jobs: Vec<Job>, policy: Policy) -> (r: Self)
        ensures
            r@ == batch_start(job_views(jobs@), policy),
    {
        let current: Current = begin(&jobs, 0);
        let r = BatchRun { jobs, policy, outcomes: Vec::new(), current };
        proof {
            assert(outcome_views(r.outcomes@) =~= Seq::empty());
        }
        r
    }

    pub fn is_finished(&self) -> (r: bool)
        ensures
            r == (self@.current is Finished),
    {
        match &self.current {
            Current::Finished => true,
            _ => false,
        }
    }

    /// What has to be done next.
    pub fn task(&self) -> (r: Task)
        ensures
            r@ == batch_task(self@),
    {
        match &self.current {
            Current::Finished => Task::Nothing,
            Current::Remove(run) => match &run.stage {
                RemoveStage::Probe => Task::Hash { path: run.final_path.clone() },
                RemoveStage::Unlink => Task::Unlink { path: run.final_path.clone() },
                RemoveStage::Done { outcome: _ } => Task::Nothing,
                _ => Task::Save,
            },
            Current::Apply(run) => {
                let dir: String = path::directory(run.spec.final_path.as_str());
                match &run.stage {
                    ApplyStage::Probe => Task::Hash { path: run.spec.final_path.clone() },
                    ApplyStage::CheckDir => Task::FindDir { dir },
                    ApplyStage::Verify => Task::VerifyDir { dir },
                    ApplyStage::Write { identity: _ } => {
                        let n: usize = self.outcomes.len();
                        let ghost jobs = job_views(self.jobs@);
                        proof {
                            assert(self@.outcomes.len() == n);
                            if n < self.jobs@.len() {
                                assert(jobs[n as int] == self.jobs@[n as int]@);
                            }
                        }
                        let content: String = if n < self.jobs.len() {
                            match &self.jobs[n] {
                                Job::Apply { spec: _, content, sha256: _ } => content.clone(),
                                Job::Remove { path: _ } => String::new(),
                            }
                        } else {
                            String::new()
                        };
                        Task::Write {
                            dir,
                            path: run.spec.final_path.clone(),
                            content,
                            mode: run.spec.mode,
                        }
                    },
                    ApplyStage::Recheck { identity } => Task::RecheckDir {
                        dir,
                        identity: *identity,
                    },
                    ApplyStage::Stamp => Task::Clock,
                    ApplyStage::Done { outcome: _ } => Task::Nothing,
                    _ => Task::Save,
                }
            },
        }
    }

    fn settle(self, outcome: WriteOutcome) -> (r: Self)
        ensures
            r@ == settled(self@, outcome@),
    {
        let over: bool = is_end(self.policy, &outcome);
        let mut outcomes: Vec<WriteOutcome> = self.outcomes;
        let ghost before = outcomes@;
        outcomes.push(outcome);
        proof {
            assert(outcome_views(outcomes@) =~= outcome_views(before).push(outcome@));
        }
        let current: Current = if over {
            Current::Finished
        } else {
            begin(&self.jobs, outcomes.len())
        };
        BatchRun { jobs: self.jobs, policy: self.policy, outcomes, current }
    }

    /// Hands back the result of the task and moves on.
    pub fn step(self, manifest: &mut Manifest, reply: Reply) -> (r: Self)
        ensures
            (r@, final(manifest)@) == batch_next(self@, old(manifest)@, reply@),
    {
        let ghost b0 = self@;
        match self.current {
            Current::Finished => self,
            Current::Apply(run) => {
                let next: ApplyRun = manifest.apply_owned_artifact(run, reply);
                let rest = BatchRun {
                    jobs: self.jobs,
                    policy: self.policy,
                    outcomes: self.outcomes,
                    current: Current::Finished,
                };
                match next.stage {
                    ApplyStage::Done { outcome } => {
                        proof {
                            assert(settled(rest@, outcome@) == settled(b0, outcome@));
                        }
                        rest.settle(outcome)
                    },
                    stage => BatchRun {
                        current: Current::Apply(
                            ApplyRun { spec: next.spec, desired_sha: next.desired_sha, stage },
                        ),
                        ..rest
                    },
                }
            },
            Current::Remove(run) => {
                let next: RemoveRun = manifest.remove_owned_artifact(run, reply);
                let rest = BatchRun {
                    jobs: self.jobs,
                    policy: self.policy,
                    outcomes: self.outcomes,
                    current: Current::Finished,
                };
                match next.stage {
                    RemoveStage::Done { outcome } => {
                        proof {
                            assert(settled(rest@, outcome@) == settled(b0, outcome@));
                        }
                        rest.settle(outcome)
                    },
                    stage => BatchRun {
                        current: Current::Remove(
                            RemoveRun { final_path: next.final_path, stage },
                        ),
                        ..rest
                    },
                }
            },
        }
    }
}

// ---- laws ----
/// A batch after some replies.
pub open spec fn batch_after(
    jobs: Seq<JobView>,
    policy: Policy,
    m: ManifestView,
    replies: Seq<ReplyView>,
) -> (BatchView, ManifestView)
    decreases replies.len(),
{
    if replies.len() == 0 {
        (batch_start(jobs, policy), m)
    } else {
        let (b, m1) = batch_after(jobs, policy, m, replies.drop_last());
        batch_next(b, m1, replies.last())
    }
}

/// A batch that never stops early ends exactly when every job has its outcome:
/// a file that is refused or fails does not keep the others from their turn.
pub proof fn every_job_gets_its_turn(
    jobs: Seq<JobView>,
    m: ManifestView,
    replies: Seq<ReplyView>,
)
    ensures
        ({
            let b = batch_after(jobs, Policy::All, m, replies).0;
            &&& b.jobs == jobs
            &&& b.policy == Policy::All
            &&& b.outcomes.len() <= jobs.len()
            &&& (b.current is Finished <==> b.outcomes.len() == jobs.len())
        }),
    decreases replies.len(),
{
    if replies.len() > 0 {
        every_job_gets_its_turn(jobs, m, replies.drop_last());
    }
}

/// An outcome that was reached is not changed by what follows.
pub proof fn outcomes_are_final(b: BatchView, m: ManifestView, reply: ReplyView, i: int)
    requires
        0 <= i < b.outcomes.len(),
    ensures
        i < batch_next(b, m, reply).0.outcomes.len(),
        batch_next(b, m, reply).0.outcomes[i] == b.outcomes[i],
{
}

} // verus!
