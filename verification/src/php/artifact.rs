//! Journaled writes and removals of Hearth-owned files.
//!
//! Each run is a state machine: its stage says what has to be done next, and
//! the result of doing it is handed back as a [`Reply`]. Nothing is written
//! or removed before the manifest that journals the transition was saved.

use crate::path;
use crate::php::manifest::{
    self, EntryState, EntryView, LastOutcome, Manifest, ManifestEntry, ManifestView, OutcomeView,
    WriteOutcome,
};
use crate::text;
use vstd::prelude::*;

verus! {

pub const REFUSED_REMEDIATION: &'static str = "remove or rename the file, then run `hearth php config --sync`";

#[derive(Debug, Clone)]
pub struct OwnedArtifactSpec {
    pub final_path: String,
    pub channel: String,
    pub php_version: String,
    pub mode: u32,
}

/// What an artifact specification holds.
pub struct ArtifactView {
    pub final_path: Seq<char>,
    pub channel: Seq<char>,
    pub php_version: Seq<char>,
    pub mode: u32,
}

impl View for OwnedArtifactSpec {
    type V = ArtifactView;

    open spec fn view(&self) -> ArtifactView {
        ArtifactView {
            final_path: self.final_path@,
            channel: self.channel@,
            php_version: self.php_version@,
            mode: self.mode,
        }
    }
}

#[derive(Debug, Clone, Copy, PartialEq, Eq, Structural)]
pub struct DirIdentity {
    pub dev: u64,
    pub ino: u64,
}

/// The result of what a run asked for.
#[derive(Debug)]
pub enum Reply {
    /// The hash of the file; `None` where there is no file.
    Hash(Option<String>),
    /// Something stands at the file's path whose content cannot be read.
    Unreadable,
    /// Whether a save, write, recheck or removal went through.
    Did(Result<(), String>),
    /// Whether the directory exists.
    Present(bool),
    /// The identity of the verified directory, or why it was rejected.
    Identity(Result<DirIdentity, String>),
    /// The wall clock in Unix milliseconds, if it is past the epoch.
    Clock(Option<u64>),
}

/// What a reply holds.
pub enum ReplyView {
    Hash(Option<Seq<char>>),
    Unreadable,
    Did(Result<(), Seq<char>>),
    Present(bool),
    Identity(Result<DirIdentity, Seq<char>>),
    Clock(Option<u64>),
}

impl View for Reply {
    type V = ReplyView;

    open spec fn view(&self) -> ReplyView {
        match self {
            Reply::Hash(h) => ReplyView::Hash(text::opt_text(*h)),
            Reply::Unreadable => ReplyView::Unreadable,
            Reply::Did(r) => ReplyView::Did(
                match r {
                    Ok(_) => Ok(()),
                    Err(e) => Err(e@),
                },
            ),
            Reply::Present(b) => ReplyView::Present(*b),
            Reply::Identity(r) => ReplyView::Identity(
                match r {
                    Ok(id) => Ok(*id),
                    Err(e) => Err(e@),
                },
            ),
            Reply::Clock(c) => ReplyView::Clock(*c),
        }
    }
}

/// What a write run waits for.
#[derive(Debug)]
pub enum ApplyStage {
    /// The hash of the file as it is now.
    Probe,
    /// The save of the manifest with the pending row.
    Journal,
    /// Whether the directory still exists.
    CheckDir,
    /// The identity of the verified directory.
    Verify,
    /// The save that records a refusal.
    Refusing { reason: String },
    /// The atomic write of the content.
    Write { identity: DirIdentity },
    /// The check that the directory was not replaced meanwhile.
    Recheck { identity: DirIdentity },
    /// The save that records a failure.
    Failing { error: String },
    /// The wall clock.
    Stamp,
    /// The save of the manifest with the applied row.
    Finish,
    Done { outcome: WriteOutcome },
}

pub enum ApplyStageView {
    Probe,
    Journal,
    CheckDir,
    Verify,
    Refusing { reason: Seq<char> },
    Write { identity: DirIdentity },
    Recheck { identity: DirIdentity },
    Failing { error: Seq<char> },
    Stamp,
    Finish,
    Done { outcome: OutcomeView },
}

impl View for ApplyStage {
    type V = ApplyStageView;

    open spec fn view(&self) -> ApplyStageView {
        match self {
            ApplyStage::Probe => ApplyStageView::Probe,
            ApplyStage::Journal => ApplyStageView::Journal,
            ApplyStage::CheckDir => ApplyStageView::CheckDir,
            ApplyStage::Verify => ApplyStageView::Verify,
            ApplyStage::Refusing { reason } => ApplyStageView::Refusing { reason: reason@ },
            ApplyStage::Write { identity } => ApplyStageView::Write { identity: *identity },
            ApplyStage::Recheck { identity } => ApplyStageView::Recheck { identity: *identity },
            ApplyStage::Failing { error } => ApplyStageView::Failing { error: error@ },
            ApplyStage::Stamp => ApplyStageView::Stamp,
            ApplyStage::Finish => ApplyStageView::Finish,
            ApplyStage::Done { outcome } => ApplyStageView::Done { outcome: outcome@ },
        }
    }
}

/// A write of one owned file under way.
#[derive(Debug)]
pub struct ApplyRun {
    pub spec: OwnedArtifactSpec,
    pub desired_sha: String,
    pub stage: ApplyStage,
}

pub struct ApplyView {
    pub spec: ArtifactView,
    pub desired_sha: Seq<char>,
    pub stage: ApplyStageView,
}

impl View for ApplyRun {
    type V = ApplyView;

    open spec fn view(&self) -> ApplyView {
        ApplyView { spec: self.spec@, desired_sha: self.desired_sha@, stage: self.stage@ }
    }
}

// ---- what the manifest becomes ----
/// The row that journals a write of `desired` over `actual`.
pub open spec fn pending_row(
    a: ArtifactView,
    desired: Seq<char>,
    actual: Option<Seq<char>>,
) -> EntryView {
    EntryView {
        path: a.final_path,
        php_version: a.php_version,
        channel: a.channel,
        sha256: match actual {
            Some(h) => h,
            None => Seq::empty(),
        },
        state: EntryState::Pending,
        expected_old_sha256: actual,
        desired_sha256: Some(desired),
        last_outcome: LastOutcome::Written,
        applied_at_unix_ms: None,
    }
}

/// `m` with `e` as the row for its file.
pub open spec fn put(m: ManifestView, e: EntryView) -> ManifestView {
    match manifest::slot(m.files, e.path) {
        Some(i) => manifest::with_row(m, i, e),
        None => ManifestView { version: m.version, files: m.files.push(e) },
    }
}

/// A row after a refusal: settled, with the hash it had.
pub open spec fn refused_row(e: EntryView) -> EntryView {
    EntryView {
        state: EntryState::Applied,
        expected_old_sha256: None,
        desired_sha256: None,
        last_outcome: LastOutcome::Refused,
        ..e
    }
}

/// A row after a failure: still journaled.
pub open spec fn failed_row(e: EntryView) -> EntryView {
    EntryView { last_outcome: LastOutcome::Failed, ..e }
}

/// A row after a completed write of `desired`.
pub open spec fn applied_row(e: EntryView, desired: Seq<char>, clock: Option<u64>) -> EntryView {
    EntryView {
        sha256: desired,
        state: EntryState::Applied,
        expected_old_sha256: None,
        desired_sha256: None,
        last_outcome: LastOutcome::Written,
        applied_at_unix_ms: clock,
        ..e
    }
}

/// A row that journals the deletion of a file whose hash is `actual`.
pub open spec fn deleting_row(e: EntryView, actual: Seq<char>) -> EntryView {
    EntryView {
        state: EntryState::Pending,
        expected_old_sha256: Some(actual),
        desired_sha256: None,
        ..e
    }
}

/// `m` with the row for `p` changed by `f`; unchanged where it has none.
pub open spec fn amend(
    m: ManifestView,
    p: Seq<char>,
    f: spec_fn(EntryView) -> EntryView,
) -> ManifestView {
    match manifest::slot(m.files, p) {
        Some(i) => manifest::with_row(m, i, f(m.files[i])),
        None => m,
    }
}

// ---- what is said ----
pub open spec fn untracked_reason(p: Seq<char>) -> Seq<char> {
    p + " exists but is not tracked by the Hearth manifest — "@ + REFUSED_REMEDIATION@
}

pub open spec fn modified_reason(p: Seq<char>) -> Seq<char> {
    p + " was modified outside Hearth — "@ + REFUSED_REMEDIATION@
}

pub open spec fn unowned_reason(p: Seq<char>) -> Seq<char> {
    p + " is not tracked by the Hearth manifest — "@ + REFUSED_REMEDIATION@
}

pub open spec fn disappeared_reason(dir: Seq<char>) -> Seq<char> {
    "channel directory "@ + dir
        + " disappeared after classification — refusing to recreate at write time; run `hearth php config --sync`"@
}

/// `said`, with what went wrong on recording it where that failed too.
pub open spec fn recorded(said: Seq<char>, what: Seq<char>, saved: Result<(), Seq<char>>) -> Seq<char> {
    match saved {
        Ok(_) => said,
        Err(e) => said + "; additionally, recording this "@ + what + " in the manifest failed: "@ + e,
    }
}

// ---- the write run ----
pub open spec fn at(run: ApplyView, stage: ApplyStageView) -> ApplyView {
    ApplyView { stage, ..run }
}

/// A failure on `p`: recorded in its row, or reported at once where it has
/// none.
pub open spec fn fail(run: ApplyView, m: ManifestView, error: Seq<char>) -> (ApplyView, ManifestView) {
    match manifest::slot(m.files, run.spec.final_path) {
        Some(_) => (
            at(run, ApplyStageView::Failing { error }),
            amend(m, run.spec.final_path, |e: EntryView| failed_row(e)),
        ),
        None => (
            at(run, ApplyStageView::Done { outcome: OutcomeView::Failed { error } }),
            m,
        ),
    }
}

/// How a write run starts, given the hash of the file as it is now: a file
/// that the manifest does not own by its hash is refused, one that already
/// has the content is left alone, and otherwise the write is journaled.
pub open spec fn apply_probe(run: ApplyView, m: ManifestView, actual: Option<Seq<char>>) -> (
    ApplyView,
    ManifestView,
) {
    let p = run.spec.final_path;
    let slot = manifest::slot(m.files, p);
    if actual is Some && slot is None {
        (
            at(
                run,
                ApplyStageView::Done {
                    outcome: OutcomeView::Refused { reason: untracked_reason(p) },
                },
            ),
            m,
        )
    } else if actual is Some && !manifest::owns(m.files[slot->0], actual->0) {
        (
            at(
                run,
                ApplyStageView::Done {
                    outcome: OutcomeView::Refused { reason: modified_reason(p) },
                },
            ),
            m,
        )
    } else if actual is Some && m.files[slot->0].sha256 == run.desired_sha
        && m.files[slot->0].state == EntryState::Applied && actual->0 == run.desired_sha {
        (at(run, ApplyStageView::Done { outcome: OutcomeView::Unchanged }), m)
    } else {
        (at(run, ApplyStageView::Journal), put(m, pending_row(run.spec, run.desired_sha, actual)))
    }
}

/// A file that cannot be read matches no recorded hash: it is refused like any
/// other that the manifest does not own.
pub open spec fn unreadable_reason(m: ManifestView, p: Seq<char>) -> Seq<char> {
    match manifest::slot(m.files, p) {
        Some(_) => modified_reason(p),
        None => untracked_reason(p),
    }
}

/// One step of a write run. A reply that the stage does not wait for changes
/// nothing.
pub open spec fn apply_next(run: ApplyView, m: ManifestView, reply: ReplyView) -> (
    ApplyView,
    ManifestView,
) {
    let p = run.spec.final_path;
    match (run.stage, reply) {
        (ApplyStageView::Probe, ReplyView::Hash(actual)) => apply_probe(run, m, actual),
        (ApplyStageView::Probe, ReplyView::Unreadable) => (
            at(
                run,
                ApplyStageView::Done {
                    outcome: OutcomeView::Refused { reason: unreadable_reason(m, p) },
                },
            ),
            m,
        ),
        (ApplyStageView::Journal, ReplyView::Did(Ok(_))) => (at(run, ApplyStageView::CheckDir), m),
        (ApplyStageView::Journal, ReplyView::Did(Err(e))) => (
            at(
                run,
                ApplyStageView::Done {
                    outcome: OutcomeView::Failed {
                        error: "could not journal pending write: "@ + e,
                    },
                },
            ),
            m,
        ),
        (ApplyStageView::CheckDir, ReplyView::Present(true)) => (
            at(run, ApplyStageView::Verify),
            m,
        ),
        (ApplyStageView::CheckDir, ReplyView::Present(false)) => fail(
            run,
            m,
            disappeared_reason(path::dir_of(p)),
        ),
        (ApplyStageView::Verify, ReplyView::Identity(Ok(identity))) => (
            at(run, ApplyStageView::Write { identity }),
            m,
        ),
        (ApplyStageView::Verify, ReplyView::Identity(Err(rejection))) => (
            at(run, ApplyStageView::Refusing { reason: "channel blocked: "@ + rejection }),
            amend(m, p, |e: EntryView| refused_row(e)),
        ),
        (ApplyStageView::Refusing { reason }, ReplyView::Did(saved)) => (
            at(
                run,
                ApplyStageView::Done {
                    outcome: OutcomeView::Refused { reason: recorded(reason, "refusal"@, saved) },
                },
            ),
            m,
        ),
        (ApplyStageView::Write { identity }, ReplyView::Did(Ok(_))) => (
            at(run, ApplyStageView::Recheck { identity }),
            m,
        ),
        (ApplyStageView::Write { identity }, ReplyView::Did(Err(e))) => fail(run, m, e),
        (ApplyStageView::Recheck { identity }, ReplyView::Did(Ok(_))) => (
            at(run, ApplyStageView::Stamp),
            m,
        ),
        (ApplyStageView::Recheck { identity }, ReplyView::Did(Err(e))) => fail(run, m, e),
        (ApplyStageView::Failing { error }, ReplyView::Did(saved)) => (
            at(
                run,
                ApplyStageView::Done {
                    outcome: OutcomeView::Failed { error: recorded(error, "failure"@, saved) },
                },
            ),
            m,
        ),
        (ApplyStageView::Stamp, ReplyView::Clock(clock)) => (
            at(run, ApplyStageView::Finish),
            amend(m, p, |e: EntryView| applied_row(e, run.desired_sha, clock)),
        ),
        (ApplyStageView::Finish, ReplyView::Did(Ok(_))) => (
            at(run, ApplyStageView::Done { outcome: OutcomeView::Written }),
            m,
        ),
        (ApplyStageView::Finish, ReplyView::Did(Err(e))) => (
            at(
                run,
                ApplyStageView::Done {
                    outcome: OutcomeView::Failed {
                        error: "written but manifest finalization failed: "@ + e,
                    },
                },
            ),
            m,
        ),
        _ => (run, m),
    }
}

fn recorded_text(said: String, what: &str, saved: Result<(), String>) -> (r: String)
    ensures
        r@ == recorded(
            said@,
            what@,
            match saved {
                Ok(_) => Ok(()),
                Err(e) => Err(e@),
            },
        ),
{
    match saved {
        Ok(_) => said,
        Err(e) => text::cat5(
            said.as_str(),
            "; additionally, recording this ",
            what,
            " in the manifest failed: ",
            e.as_str(),
        ),
    }
}

/// Marks the row for `p` as failed; says whether there is one.
fn mark_failed(m: &mut Manifest, p: &str) -> (r: bool)
    ensures
        final(m)@ == amend(old(m)@, p@, |e: EntryView| failed_row(e)),
        r == (manifest::slot(old(m)@.files, p@) is Some),
{
    match m.entry_index(p) {
        Some(i) => {
            let mut e: ManifestEntry = m.files[i].dup();
            e.last_outcome = LastOutcome::Failed;
            m.set_row(i, e);
            true
        },
        None => false,
    }
}

fn mark_refused(m: &mut Manifest, p: &str)
    ensures
        final(m)@ == amend(old(m)@, p@, |e: EntryView| refused_row(e)),
{
    match m.entry_index(p) {
        Some(i) => {
            let mut e: ManifestEntry = m.files[i].dup();
            e.state = EntryState::Applied;
            e.expected_old_sha256 = None;
            e.desired_sha256 = None;
            e.last_outcome = LastOutcome::Refused;
            m.set_row(i, e);
        },
        None => {},
    }
}

fn mark_applied(m: &mut Manifest, p: &str, desired: &str, clock: Option<u64>)
    ensures
        final(m)@ == amend(old(m)@, p@, |e: EntryView| applied_row(e, desired@, clock)),
{
    match m.entry_index(p) {
        Some(i) => {
            let mut e: ManifestEntry = m.files[i].dup();
            e.sha256 = desired.to_owned();
            e.state = EntryState::Applied;
            e.expected_old_sha256 = None;
            e.desired_sha256 = None;
            e.last_outcome = LastOutcome::Written;
            e.applied_at_unix_ms = clock;
            m.set_row(i, e);
        },
        None => {},
    }
}

impl Manifest {
    fn begin_apply(&mut self, run: ApplyRun, actual: Option<String>) -> (r: ApplyRun)
        ensures
            (r@, final(self)@) == apply_probe(run@, old(self)@, text::opt_text(actual)),
    {
        let spec: OwnedArtifactSpec = run.spec;
        let desired_sha: String = run.desired_sha;
        let at: Option<usize> = self.entry_index(spec.final_path.as_str());
        if let Some(hash) = &actual {
            match at {
                None => {
                    let reason: String = text::cat3(
                        spec.final_path.as_str(),
                        " exists but is not tracked by the Hearth manifest — ",
                        REFUSED_REMEDIATION,
                    );
                    return ApplyRun {
                        spec,
                        desired_sha,
                        stage: ApplyStage::Done { outcome: WriteOutcome::Refused { reason } },
                    };
                },
                Some(i) => {
                    let entry: &ManifestEntry = &self.files[i];
                    if !manifest::entry_owns(entry, hash.as_str()) {
                        let reason: String = text::cat3(
                            spec.final_path.as_str(),
                            " was modified outside Hearth — ",
                            REFUSED_REMEDIATION,
                        );
                        return ApplyRun {
                            spec,
                            desired_sha,
                            stage: ApplyStage::Done { outcome: WriteOutcome::Refused { reason } },
                        };
                    }
                    if entry.sha256 == desired_sha && entry.state == EntryState::Applied && *hash
                        == desired_sha {
                        return ApplyRun {
                            spec,
                            desired_sha,
                            stage: ApplyStage::Done { outcome: WriteOutcome::Unchanged },
                        };
                    }
                },
            }
        }
        let sha256: String = match &actual {
            Some(hash) => hash.clone(),
            None => String::new(),
        };
        let pending = ManifestEntry {
            path: spec.final_path.clone(),
            php_version: spec.php_version.clone(),
            channel: spec.channel.clone(),
            sha256,
            state: EntryState::Pending,
            expected_old_sha256: actual,
            desired_sha256: Some(desired_sha.clone()),
            last_outcome: LastOutcome::Written,
            applied_at_unix_ms: None,
        };
        match at {
            Some(i) => self.set_row(i, pending),
            None => self.push_row(pending),
        }
        ApplyRun { spec, desired_sha, stage: ApplyStage::Journal }
    }

    fn fail_apply(&mut self, spec: OwnedArtifactSpec, desired_sha: String, error: String) -> (r:
        ApplyRun)
        ensures
            forall|stage: ApplyStageView|
                (r@, final(self)@) == #[trigger] fail(
                    ApplyView { spec: spec@, desired_sha: desired_sha@, stage },
                    old(self)@,
                    error@,
                ),
    {
        let stage: ApplyStage = if mark_failed(self, spec.final_path.as_str()) {
            ApplyStage::Failing { error }
        } else {
            ApplyStage::Done { outcome: WriteOutcome::Failed { error } }
        };
        ApplyRun { spec, desired_sha, stage }
    }

    /// One step of a journaled write: takes the reply that the stage waits
    /// for, records what has to be recorded and moves on.
    pub fn apply_owned_artifact(&mut self, run: ApplyRun, reply: Reply) -> (r: ApplyRun)
        ensures
            (r@, final(self)@) == apply_next(run@, old(self)@, reply@),
    {
        let ghost run0 = run@;
        let spec: OwnedArtifactSpec = run.spec;
        let desired_sha: String = run.desired_sha;
        match (run.stage, reply) {
            (ApplyStage::Probe, Reply::Hash(actual)) => {
                let again = ApplyRun { spec, desired_sha, stage: ApplyStage::Probe };
                self.begin_apply(again, actual)
            },
            (ApplyStage::Probe, Reply::Unreadable) => {
                let problem: &str = match self.entry_index(spec.final_path.as_str()) {
                    Some(_) => " was modified outside Hearth — ",
                    None => " exists but is not tracked by the Hearth manifest — ",
                };
                let reason: String = text::cat3(
                    spec.final_path.as_str(),
                    problem,
                    REFUSED_REMEDIATION,
                );
                ApplyRun {
                    spec,
                    desired_sha,
                    stage: ApplyStage::Done { outcome: WriteOutcome::Refused { reason } },
                }
            },
            (ApplyStage::Journal, Reply::Did(done)) => match done {
                Ok(_) => ApplyRun { spec, desired_sha, stage: ApplyStage::CheckDir },
                Err(e) => {
                    let error: String = text::cat2(
                        "could not journal pending write: ",
                        e.as_str(),
                    );
                    ApplyRun {
                        spec,
                        desired_sha,
                        stage: ApplyStage::Done { outcome: WriteOutcome::Failed { error } },
                    }
                },
            },
            (ApplyStage::CheckDir, Reply::Present(present)) => {
                if present {
                    ApplyRun { spec, desired_sha, stage: ApplyStage::Verify }
                } else {
                    let dir: String = path::directory(spec.final_path.as_str());
                    let error: String = text::cat3(
                        "channel directory ",
                        dir.as_str(),
                        " disappeared after classification — refusing to recreate at write time; run `hearth php config --sync`",
                    );
                    let r = self.fail_apply(spec, desired_sha, error);
                    proof {
                        assert(fail(run0, old(self)@, error@) == (r@, self@));
                    }
                    r
                }
            },
            (ApplyStage::Verify, Reply::Identity(verified)) => match verified {
                Ok(identity) => ApplyRun {
                    spec,
                    desired_sha,
                    stage: ApplyStage::Write { identity },
                },
                Err(rejection) => {
                    mark_refused(self, spec.final_path.as_str());
                    let reason: String = text::cat2("channel blocked: ", rejection.as_str());
                    ApplyRun { spec, desired_sha, stage: ApplyStage::Refusing { reason } }
                },
            },
            (ApplyStage::Refusing { reason }, Reply::Did(saved)) => {
                let reason: String = recorded_text(reason, "refusal", saved);
                ApplyRun {
                    spec,
                    desired_sha,
                    stage: ApplyStage::Done { outcome: WriteOutcome::Refused { reason } },
                }
            },
            (ApplyStage::Write { identity }, Reply::Did(done)) => match done {
                Ok(_) => ApplyRun { spec, desired_sha, stage: ApplyStage::Recheck { identity } },
                Err(error) => {
                    let r = self.fail_apply(spec, desired_sha, error);
                    proof {
                        assert(fail(run0, old(self)@, error@) == (r@, self@));
                    }
                    r
                },
            },
            (ApplyStage::Recheck { identity }, Reply::Did(done)) => match done {
                Ok(_) => ApplyRun { spec, desired_sha, stage: ApplyStage::Stamp },
                Err(error) => {
                    let r = self.fail_apply(spec, desired_sha, error);
                    proof {
                        assert(fail(run0, old(self)@, error@) == (r@, self@));
                    }
                    r
                },
            },
            (ApplyStage::Failing { error }, Reply::Did(saved)) => {
                let error: String = recorded_text(error, "failure", saved);
                ApplyRun {
                    spec,
                    desired_sha,
                    stage: ApplyStage::Done { outcome: WriteOutcome::Failed { error } },
                }
            },
            (ApplyStage::Stamp, Reply::Clock(clock)) => {
                mark_applied(self, spec.final_path.as_str(), desired_sha.as_str(), clock);
                ApplyRun { spec, desired_sha, stage: ApplyStage::Finish }
            },
            (ApplyStage::Finish, Reply::Did(done)) => match done {
                Ok(_) => ApplyRun {
                    spec,
                    desired_sha,
                    stage: ApplyStage::Done { outcome: WriteOutcome::Written },
                },
                Err(e) => {
                    let error: String = text::cat2(
                        "written but manifest finalization failed: ",
                        e.as_str(),
                    );
                    ApplyRun {
                        spec,
                        desired_sha,
                        stage: ApplyStage::Done { outcome: WriteOutcome::Failed { error } },
                    }
                },
            },
            (stage, _) => ApplyRun { spec, desired_sha, stage },
        }
    }
}

// ---- the removal run ----
/// What a removal run waits for.
#[derive(Debug)]
pub enum RemoveStage {
    /// The hash of the file as it is now.
    Probe,
    /// The save of the manifest without the row of a file that is gone.
    Release { index: usize, entry: ManifestEntry },
    /// The save of the manifest with the journaled deletion.
    Journal,
    /// The removal of the file.
    Unlink,
    /// The save that records a failure.
    Failing { error: String },
    /// The save of the manifest without the row of the removed file.
    Finish { index: usize, entry: ManifestEntry },
    Done { outcome: WriteOutcome },
}

pub enum RemoveStageView {
    Probe,
    Release { index: int, entry: EntryView },
    Journal,
    Unlink,
    Failing { error: Seq<char> },
    Finish { index: int, entry: EntryView },
    Done { outcome: OutcomeView },
}

impl View for RemoveStage {
    type V = RemoveStageView;

    open spec fn view(&self) -> RemoveStageView {
        match self {
            RemoveStage::Probe => RemoveStageView::Probe,
            RemoveStage::Release { index, entry } => RemoveStageView::Release {
                index: *index as int,
                entry: entry@,
            },
            RemoveStage::Journal => RemoveStageView::Journal,
            RemoveStage::Unlink => RemoveStageView::Unlink,
            RemoveStage::Failing { error } => RemoveStageView::Failing { error: error@ },
            RemoveStage::Finish { index, entry } => RemoveStageView::Finish {
                index: *index as int,
                entry: entry@,
            },
            RemoveStage::Done { outcome } => RemoveStageView::Done { outcome: outcome@ },
        }
    }
}

/// A removal of one owned file under way.
#[derive(Debug)]
pub struct RemoveRun {
    pub final_path: String,
    pub stage: RemoveStage,
}

pub struct RemoveView {
    pub final_path: Seq<char>,
    pub stage: RemoveStageView,
}

impl View for RemoveRun {
    type V = RemoveView;

    open spec fn view(&self) -> RemoveView {
        RemoveView { final_path: self.final_path@, stage: self.stage@ }
    }
}

/// `m` without row `i`.
pub open spec fn without_row(m: ManifestView, i: int) -> ManifestView {
    ManifestView { version: m.version, files: m.files.remove(i) }
}

/// `m` with `e` back at `i`.
pub open spec fn restored(m: ManifestView, i: int, e: EntryView) -> ManifestView {
    if 0 <= i <= m.files.len() {
        ManifestView { version: m.version, files: m.files.insert(i, e) }
    } else {
        ManifestView { version: m.version, files: m.files.push(e) }
    }
}

pub const DELETE_JOURNAL_FAILED: &'static str = "could not journal pending delete:";

pub const DELETE_FINALIZE_FAILED: &'static str = "channel file removed but manifest finalization failed:";

pub open spec fn removal(p: Seq<char>, stage: RemoveStageView) -> RemoveView {
    RemoveView { final_path: p, stage }
}

/// How a removal run starts, given the hash of the file as it is now: a file
/// that is gone only has its row released, one that the manifest does not own
/// by its hash is refused, and otherwise the deletion is journaled.
pub open spec fn remove_probe(p: Seq<char>, m: ManifestView, actual: Option<Seq<char>>) -> (
    RemoveView,
    ManifestView,
) {
    let slot = manifest::slot(m.files, p);
    match actual {
        None => match slot {
            None => (
                removal(p, RemoveStageView::Done { outcome: OutcomeView::Unchanged }),
                m,
            ),
            Some(i) => (
                removal(p, RemoveStageView::Release { index: i, entry: m.files[i] }),
                without_row(m, i),
            ),
        },
        Some(hash) => if !manifest::tracks(m, p, hash) {
            (
                removal(
                    p,
                    RemoveStageView::Done {
                        outcome: OutcomeView::Refused { reason: unowned_reason(p) },
                    },
                ),
                m,
            )
        } else {
            (
                removal(p, RemoveStageView::Journal),
                amend(m, p, |e: EntryView| deleting_row(e, hash)),
            )
        },
    }
}

/// One step of a removal run. A reply that the stage does not wait for
/// changes nothing.
pub open spec fn remove_next(run: RemoveView, m: ManifestView, reply: ReplyView) -> (
    RemoveView,
    ManifestView,
) {
    let p = run.final_path;
    match (run.stage, reply) {
        (RemoveStageView::Probe, ReplyView::Hash(actual)) => remove_probe(p, m, actual),
        (RemoveStageView::Probe, ReplyView::Unreadable) => (
            removal(
                p,
                RemoveStageView::Done {
                    outcome: OutcomeView::Refused { reason: unowned_reason(p) },
                },
            ),
            m,
        ),
        (RemoveStageView::Release { index, entry }, ReplyView::Did(Ok(_))) => (
            removal(p, RemoveStageView::Done { outcome: OutcomeView::Unchanged }),
            m,
        ),
        (RemoveStageView::Release { index, entry }, ReplyView::Did(Err(e))) => (
            removal(
                p,
                RemoveStageView::Done {
                    outcome: OutcomeView::Failed {
                        error: "could not durably release ownership of missing "@ + p + ": "@ + e,
                    },
                },
            ),
            restored(m, index, entry),
        ),
        (RemoveStageView::Journal, ReplyView::Did(Ok(_))) => (
            removal(p, RemoveStageView::Unlink),
            m,
        ),
        (RemoveStageView::Journal, ReplyView::Did(Err(e))) => (
            removal(
                p,
                RemoveStageView::Done {
                    outcome: OutcomeView::Failed { error: DELETE_JOURNAL_FAILED@ + " "@ + e },
                },
            ),
            m,
        ),
        (RemoveStageView::Unlink, ReplyView::Did(Ok(_))) => match manifest::slot(m.files, p) {
            Some(i) => (
                removal(p, RemoveStageView::Finish { index: i, entry: m.files[i] }),
                without_row(m, i),
            ),
            None => (removal(p, RemoveStageView::Done { outcome: OutcomeView::Deleted }), m),
        },
        (RemoveStageView::Unlink, ReplyView::Did(Err(error))) => match manifest::slot(m.files, p) {
            Some(_) => (
                removal(p, RemoveStageView::Failing { error }),
                amend(m, p, |e: EntryView| failed_row(e)),
            ),
            None => (
                removal(p, RemoveStageView::Done { outcome: OutcomeView::Failed { error } }),
                m,
            ),
        },
        (RemoveStageView::Failing { error }, ReplyView::Did(saved)) => (
            removal(
                p,
                RemoveStageView::Done {
                    outcome: OutcomeView::Failed { error: recorded(error, "failure"@, saved) },
                },
            ),
            m,
        ),
        (RemoveStageView::Finish { index, entry }, ReplyView::Did(Ok(_))) => (
            removal(p, RemoveStageView::Done { outcome: OutcomeView::Deleted }),
            m,
        ),
        (RemoveStageView::Finish { index, entry }, ReplyView::Did(Err(e))) => (
            removal(
                p,
                RemoveStageView::Done {
                    outcome: OutcomeView::Failed { error: DELETE_FINALIZE_FAILED@ + " "@ + e },
                },
            ),
            restored(m, index, entry),
        ),
        _ => (run, m),
    }
}

fn mark_deleting(m: &mut Manifest, p: &str, actual: String)
    ensures
        final(m)@ == amend(old(m)@, p@, |e: EntryView| deleting_row(e, actual@)),
{
    match m.entry_index(p) {
        Some(i) => {
            let mut e: ManifestEntry = m.files[i].dup();
            e.state = EntryState::Pending;
            e.expected_old_sha256 = Some(actual);
            e.desired_sha256 = None;
            m.set_row(i, e);
        },
        None => {},
    }
}

fn restore(m: &mut Manifest, index: usize, entry: ManifestEntry)
    ensures
        final(m)@ == restored(old(m)@, index as int, entry@),
{
    if index <= m.files.len() {
        m.put_row(index, entry);
    } else {
        m.push_row(entry);
    }
}

impl Manifest {
    fn begin_remove(&mut self, final_path: String, actual: Option<String>) -> (r: RemoveRun)
        ensures
            (r@, final(self)@) == remove_probe(final_path@, old(self)@, text::opt_text(actual)),
    {
        let at: Option<usize> = self.entry_index(final_path.as_str());
        match actual {
            None => match at {
                None => RemoveRun {
                    final_path,
                    stage: RemoveStage::Done { outcome: WriteOutcome::Unchanged },
                },
                Some(index) => {
                    let entry: ManifestEntry = self.take_row(index);
                    RemoveRun { final_path, stage: RemoveStage::Release { index, entry } }
                },
            },
            Some(hash) => {
                let owned: bool = match at {
                    Some(i) => manifest::entry_owns(&self.files[i], hash.as_str()),
                    None => false,
                };
                if !owned {
                    let reason: String = text::cat3(
                        final_path.as_str(),
                        " is not tracked by the Hearth manifest — ",
                        REFUSED_REMEDIATION,
                    );
                    return RemoveRun {
                        final_path,
                        stage: RemoveStage::Done { outcome: WriteOutcome::Refused { reason } },
                    };
                }
                mark_deleting(self, final_path.as_str(), hash);
                RemoveRun { final_path, stage: RemoveStage::Journal }
            },
        }
    }

    /// One step of a journaled removal: takes the reply that the stage waits
    /// for, records what has to be recorded and moves on.
    pub fn remove_owned_artifact(&mut self, run: RemoveRun, reply: Reply) -> (r: RemoveRun)
        ensures
            (r@, final(self)@) == remove_next(run@, old(self)@, reply@),
    {
        let final_path: String = run.final_path;
        match (run.stage, reply) {
            (RemoveStage::Probe, Reply::Hash(actual)) => self.begin_remove(final_path, actual),
            (RemoveStage::Probe, Reply::Unreadable) => {
                let reason: String = text::cat3(
                    final_path.as_str(),
                    " is not tracked by the Hearth manifest — ",
                    REFUSED_REMEDIATION,
                );
                RemoveRun {
                    final_path,
                    stage: RemoveStage::Done { outcome: WriteOutcome::Refused { reason } },
                }
            },
            (RemoveStage::Release { index, entry }, Reply::Did(saved)) => match saved {
                Ok(_) => RemoveRun {
                    final_path,
                    stage: RemoveStage::Done { outcome: WriteOutcome::Unchanged },
                },
                Err(e) => {
                    restore(self, index, entry);
                    let error: String = text::cat4(
                        "could not durably release ownership of missing ",
                        final_path.as_str(),
                        ": ",
                        e.as_str(),
                    );
                    RemoveRun {
                        final_path,
                        stage: RemoveStage::Done { outcome: WriteOutcome::Failed { error } },
                    }
                },
            },
            (RemoveStage::Journal, Reply::Did(saved)) => match saved {
                Ok(_) => RemoveRun { final_path, stage: RemoveStage::Unlink },
                Err(e) => {
                    let error: String = text::cat3(DELETE_JOURNAL_FAILED, " ", e.as_str());
                    RemoveRun {
                        final_path,
                        stage: RemoveStage::Done { outcome: WriteOutcome::Failed { error } },
                    }
                },
            },
            (RemoveStage::Unlink, Reply::Did(removed)) => match removed {
                Ok(_) => match self.entry_index(final_path.as_str()) {
                    Some(index) => {
                        let entry: ManifestEntry = self.take_row(index);
                        RemoveRun { final_path, stage: RemoveStage::Finish { index, entry } }
                    },
                    None => RemoveRun {
                        final_path,
                        stage: RemoveStage::Done { outcome: WriteOutcome::Deleted },
                    },
                },
                Err(error) => {
                    let stage: RemoveStage = if mark_failed(self, final_path.as_str()) {
                        RemoveStage::Failing { error }
                    } else {
                        RemoveStage::Done { outcome: WriteOutcome::Failed { error } }
                    };
                    RemoveRun { final_path, stage }
                },
            },
            (RemoveStage::Failing { error }, Reply::Did(saved)) => {
                let error: String = recorded_text(error, "failure", saved);
                RemoveRun {
                    final_path,
                    stage: RemoveStage::Done { outcome: WriteOutcome::Failed { error } },
                }
            },
            (RemoveStage::Finish { index, entry }, Reply::Did(saved)) => match saved {
                Ok(_) => RemoveRun {
                    final_path,
                    stage: RemoveStage::Done { outcome: WriteOutcome::Deleted },
                },
                Err(e) => {
                    restore(self, index, entry);
                    let error: String = text::cat3(DELETE_FINALIZE_FAILED, " ", e.as_str());
                    RemoveRun {
                        final_path,
                        stage: RemoveStage::Done { outcome: WriteOutcome::Failed { error } },
                    }
                },
            },
            (stage, _) => RemoveRun { final_path, stage },
        }
    }
}

} // verus!
