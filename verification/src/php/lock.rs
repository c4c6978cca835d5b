//! The exclusive lock of a manifest directory: a zero-byte file that is held
//! under a guarded directory. Its identity is checked around every use.

use crate::clock;
use crate::fs::FileMeta;
use crate::path;
use crate::php::artifact::DirIdentity;
use crate::php::channel_dir::{VerifiedDir, VerifiedView};
use crate::text;
use vstd::prelude::*;

verus! {

pub const DEFAULT_MANIFEST_LOCK_WAIT_MS: u64 = 5000;

pub const MANIFEST_LOCK_POLL_MS: u64 = 25;

pub const LOCK_FILE_NAME: &'static str = ".manifest.lock";

#[derive(Debug)]
pub enum LockError {
    Busy { manifest_dir: String, waited_ms: u64 },
    Io(String),
}

pub enum LockErrorView {
    Busy { manifest_dir: Seq<char>, waited_ms: u64 },
    Io(Seq<char>),
}

impl View for LockError {
    type V = LockErrorView;

    open spec fn view(&self) -> LockErrorView {
        match self {
            LockError::Busy { manifest_dir, waited_ms } => LockErrorView::Busy {
                manifest_dir: manifest_dir@,
                waited_ms: *waited_ms,
            },
            LockError::Io(e) => LockErrorView::Io(e@),
        }
    }
}

/// What a lock error says.
pub open spec fn lock_said(e: LockErrorView) -> Seq<char> {
    match e {
        LockErrorView::Busy { manifest_dir, waited_ms } =>
            "another Hearth process is updating the manifest in "@ + manifest_dir + " (waited "@
                + clock::duration_text(waited_ms) + ") — retry"@,
        LockErrorView::Io(error) => "manifest lock I/O failed: "@ + error,
    }
}

impl LockError {
    /// The error as text for the user.
    pub fn message(&self) -> (r: String)
        ensures
            r@ == lock_said(self@),
    {
        match self {
            LockError::Busy { manifest_dir, waited_ms } => {
                let waited: String = clock::duration_debug(*waited_ms);
                text::cat5(
                    "another Hearth process is updating the manifest in ",
                    manifest_dir.as_str(),
                    " (waited ",
                    waited.as_str(),
                    ") — retry",
                )
            },
            LockError::Io(error) => text::cat2("manifest lock I/O failed: ", error.as_str()),
        }
    }
}

/// What was found of a file, with the error by its text.
pub open spec fn looked(r: Result<FileMeta, String>) -> Result<FileMeta, Seq<char>> {
    match r {
        Ok(m) => Ok(m),
        Err(e) => Err(e@),
    }
}

/// What was found of the guarded directory and of the lock, each by its path
/// (symbolic links not followed) and by the open descriptor.
#[derive(Debug)]
pub struct IdentityFacts {
    pub dir_link: Result<FileMeta, String>,
    pub dir_fd: Result<FileMeta, String>,
    pub lock_link: Result<FileMeta, String>,
    pub lock_fd: Result<FileMeta, String>,
}

pub struct IdentityFactsView {
    pub dir_link: Result<FileMeta, Seq<char>>,
    pub dir_fd: Result<FileMeta, Seq<char>>,
    pub lock_link: Result<FileMeta, Seq<char>>,
    pub lock_fd: Result<FileMeta, Seq<char>>,
}

impl View for IdentityFacts {
    type V = IdentityFactsView;

    open spec fn view(&self) -> IdentityFactsView {
        IdentityFactsView {
            dir_link: looked(self.dir_link),
            dir_fd: looked(self.dir_fd),
            lock_link: looked(self.lock_link),
            lock_fd: looked(self.lock_fd),
        }
    }
}

/// The file is the one with this identity.
pub open spec fn is_same(m: FileMeta, id: DirIdentity) -> bool {
    m.dev == id.dev && m.ino == id.ino
}

/// What is wrong with the guarded directory: it has to be the directory that
/// was verified, by its path and by the descriptor.
pub open spec fn guard_fault(guard: VerifiedView, f: IdentityFactsView) -> Option<Seq<char>> {
    let id = DirIdentity { dev: guard.dev, ino: guard.ino };
    match (f.dir_link, f.dir_fd) {
        (Err(e), _) => Some(e),
        (Ok(_), Err(e)) => Some(e),
        (Ok(link), Ok(fd)) => if link.is_symlink || !link.is_dir || !is_same(link, id) || !is_same(
            fd,
            id,
        ) {
            Some("guarded manifest directory "@ + guard.path + " was replaced"@)
        } else {
            None
        },
    }
}

pub open spec fn lock_path(guard: VerifiedView) -> Seq<char> {
    path::joined(guard.path, LOCK_FILE_NAME@)
}

/// What is wrong with the lock: the directory first, then the lock file, which
/// has to be the empty single-link file that was opened.
pub open spec fn lock_fault(guard: VerifiedView, lock: DirIdentity, f: IdentityFactsView) -> Option<
    Seq<char>,
> {
    match guard_fault(guard, f) {
        Some(e) => Some(e),
        None => match (f.lock_link, f.lock_fd) {
            (Err(e), _) => Some(e),
            (Ok(_), Err(e)) => Some(e),
            (Ok(link), Ok(fd)) => if link.is_symlink || !link.is_file || !is_same(link, lock)
                || !is_same(fd, lock) || fd.nlink != 1 || fd.len != 0 {
                Some(
                    "manifest lock "@ + lock_path(guard) + " has unsafe or replaced identity"@,
                )
            } else {
                None
            },
        },
    }
}

fn check_guard(guard: &VerifiedDir, f: &IdentityFacts) -> (r: Option<String>)
    ensures
        text::opt_text(r) == guard_fault(guard@, f@),
{
    match (&f.dir_link, &f.dir_fd) {
        (Err(e), _) => Some(e.clone()),
        (Ok(_), Err(e)) => Some(e.clone()),
        (Ok(link), Ok(fd)) => {
            if link.is_symlink || !link.is_dir || link.dev != guard.dev || link.ino != guard.ino
                || fd.dev != guard.dev || fd.ino != guard.ino {
                Some(
                    text::cat3(
                        "guarded manifest directory ",
                        guard.path.as_str(),
                        " was replaced",
                    ),
                )
            } else {
                None
            }
        },
    }
}

/// Whether the held lock is still the one that was opened, under the
/// directory that was verified.
pub fn verify_identity(guard: &VerifiedDir, lock: DirIdentity, f: &IdentityFacts) -> (r: Result<
    (),
    LockError,
>)
    ensures
        match r {
            Ok(_) => lock_fault(guard@, lock, f@) is None,
            Err(e) => lock_fault(guard@, lock, f@) is Some && e@ == LockErrorView::Io(
                lock_fault(guard@, lock, f@)->0,
            ),
        },
{
    if let Some(e) = check_guard(guard, f) {
        return Err(LockError::Io(e));
    }
    match (&f.lock_link, &f.lock_fd) {
        (Err(e), _) => Err(LockError::Io(e.clone())),
        (Ok(_), Err(e)) => Err(LockError::Io(e.clone())),
        (Ok(link), Ok(fd)) => {
            if link.is_symlink || !link.is_file || link.dev != lock.dev || link.ino != lock.ino
                || fd.dev != lock.dev || fd.ino != lock.ino || fd.nlink != 1 || fd.len != 0 {
                let p: String = path::join(guard.path.as_str(), LOCK_FILE_NAME);
                Err(
                    LockError::Io(
                        text::cat3(
                            "manifest lock ",
                            p.as_str(),
                            " has unsafe or replaced identity",
                        ),
                    ),
                )
            } else {
                Ok(())
            }
        },
    }
}

// ---- acquisition ----
/// What came of trying to take the lock.
#[derive(Debug)]
pub enum Tried {
    Acquired,
    /// Somebody else holds it; so long was waited already.
    WouldBlock { elapsed_ms: u64 },
    Error(String),
}

pub enum TriedView {
    Acquired,
    WouldBlock { elapsed_ms: u64 },
    Error(Seq<char>),
}

impl View for Tried {
    type V = TriedView;

    open spec fn view(&self) -> TriedView {
        match self {
            Tried::Acquired => TriedView::Acquired,
            Tried::WouldBlock { elapsed_ms } => TriedView::WouldBlock { elapsed_ms: *elapsed_ms },
            Tried::Error(e) => TriedView::Error(e@),
        }
    }
}

/// The result of what an acquisition asked for.
#[derive(Debug)]
pub enum LockReply {
    /// The verified manifest directory.
    Guarded(Result<VerifiedDir, String>),
    /// Whether opening, sleeping, changing the mode or syncing went through.
    Did(Result<(), String>),
    /// What was found of directory and lock.
    Identity(IdentityFacts),
    /// What was found of the lock file.
    Found(Result<FileMeta, String>),
    /// What came of trying to take the lock.
    Tried(Tried),
}

pub enum LockReplyView {
    Guarded(Result<VerifiedView, Seq<char>>),
    Did(Result<(), Seq<char>>),
    Identity(IdentityFactsView),
    Found(Result<FileMeta, Seq<char>>),
    Tried(TriedView),
}

impl View for LockReply {
    type V = LockReplyView;

    open spec fn view(&self) -> LockReplyView {
        match self {
            LockReply::Guarded(r) => LockReplyView::Guarded(
                match r {
                    Ok(v) => Ok(v@),
                    Err(e) => Err(e@),
                },
            ),
            LockReply::Did(r) => LockReplyView::Did(
                match r {
                    Ok(_) => Ok(()),
                    Err(e) => Err(e@),
                },
            ),
            LockReply::Identity(f) => LockReplyView::Identity(f@),
            LockReply::Found(r) => LockReplyView::Found(looked(*r)),
            LockReply::Tried(t) => LockReplyView::Tried(t@),
        }
    }
}

/// What an acquisition waits for.
#[derive(Debug)]
pub enum LockStage {
    /// The manifest directory, created and verified.
    Guard,
    /// The open directory.
    OpenDir,
    /// The identity of the directory.
    CheckDir,
    /// The lock file as it is before it is opened, links not followed.
    Inspect,
    /// The lock file, opened or created without following links.
    Open,
    /// The identity of directory and lock.
    CheckOpened,
    /// The attempt to take the lock.
    Try,
    /// A pause of so many milliseconds.
    Sleep { ms: u64 },
    /// The identity under the held lock.
    CheckHeld,
    /// The lock file, for its mode.
    ReadMode,
    /// The change of its mode to 0600.
    FixMode,
    /// The sync of the lock file.
    SyncFile,
    /// The sync of the directory that got a new entry.
    SyncDir,
    /// The identity after the syncs.
    CheckSynced,
    /// The lock file, for the mode that it has now.
    ConfirmMode,
    /// The lock is held.
    Held,
    Failed { error: LockError },
}

pub enum LockStageView {
    Guard,
    OpenDir,
    CheckDir,
    Inspect,
    Open,
    CheckOpened,
    Try,
    Sleep { ms: u64 },
    CheckHeld,
    ReadMode,
    FixMode,
    SyncFile,
    SyncDir,
    CheckSynced,
    ConfirmMode,
    Held,
    Failed { error: LockErrorView },
}

impl View for LockStage {
    type V = LockStageView;

    open spec fn view(&self) -> LockStageView {
        match self {
            LockStage::Guard => LockStageView::Guard,
            LockStage::OpenDir => LockStageView::OpenDir,
            LockStage::CheckDir => LockStageView::CheckDir,
            LockStage::Inspect => LockStageView::Inspect,
            LockStage::Open => LockStageView::Open,
            LockStage::CheckOpened => LockStageView::CheckOpened,
            LockStage::Try => LockStageView::Try,
            LockStage::Sleep { ms } => LockStageView::Sleep { ms: *ms },
            LockStage::CheckHeld => LockStageView::CheckHeld,
            LockStage::ReadMode => LockStageView::ReadMode,
            LockStage::FixMode => LockStageView::FixMode,
            LockStage::SyncFile => LockStageView::SyncFile,
            LockStage::SyncDir => LockStageView::SyncDir,
            LockStage::CheckSynced => LockStageView::CheckSynced,
            LockStage::ConfirmMode => LockStageView::ConfirmMode,
            LockStage::Held => LockStageView::Held,
            LockStage::Failed { error } => LockStageView::Failed { error: error@ },
        }
    }
}

/// An acquisition under way.
#[derive(Debug)]
pub struct LockRun {
    pub manifest_dir: String,
    pub euid: u32,
    pub wait_ms: u64,
    pub guard: VerifiedDir,
    pub existed: bool,
    pub lock: DirIdentity,
    pub stage: LockStage,
}

pub struct LockView {
    pub manifest_dir: Seq<char>,
    pub euid: u32,
    pub wait_ms: u64,
    pub guard: VerifiedView,
    pub existed: bool,
    pub lock: DirIdentity,
    pub stage: LockStageView,
}

impl View for LockRun {
    type V = LockView;

    open spec fn view(&self) -> LockView {
        LockView {
            manifest_dir: self.manifest_dir@,
            euid: self.euid,
            wait_ms: self.wait_ms,
            guard: self.guard@,
            existed: self.existed,
            lock: self.lock,
            stage: self.stage@,
        }
    }
}

pub open spec fn go(s: LockView, stage: LockStageView) -> LockView {
    LockView { stage, ..s }
}

pub open spec fn io(s: LockView, error: Seq<char>) -> LockView {
    go(s, LockStageView::Failed { error: LockErrorView::Io(error) })
}

/// On after a check of the whole identity.
pub open spec fn checked(s: LockView, f: IdentityFactsView, next: LockStageView) -> LockView {
    match lock_fault(s.guard, s.lock, f) {
        Some(e) => io(s, e),
        None => go(s, next),
    }
}

/// The permission bits of a mode.
pub open spec fn bits(m: FileMeta) -> u32 {
    m.mode & 0o777
}

/// One step of an acquisition. A reply that the stage does not wait for
/// changes nothing.
pub open spec fn lock_next(s: LockView, reply: LockReplyView) -> LockView {
    match (s.stage, reply) {
        (LockStageView::Guard, LockReplyView::Guarded(Ok(guard))) => LockView {
            guard,
            stage: LockStageView::OpenDir,
            ..s
        },
        (LockStageView::Guard, LockReplyView::Guarded(Err(e))) => io(s, e),
        (LockStageView::OpenDir, LockReplyView::Did(Ok(_))) => go(s, LockStageView::CheckDir),
        (LockStageView::OpenDir, LockReplyView::Did(Err(e))) => io(s, e),
        (LockStageView::CheckDir, LockReplyView::Identity(f)) => match guard_fault(s.guard, f) {
            Some(e) => io(s, e),
            None => go(s, LockStageView::Inspect),
        },
        (LockStageView::Inspect, LockReplyView::Found(Err(_))) => LockView {
            existed: false,
            stage: LockStageView::Open,
            ..s
        },
        (LockStageView::Inspect, LockReplyView::Found(Ok(m))) => if m.is_symlink || !m.is_file
            || m.nlink != 1 {
            io(
                s,
                "manifest lock "@ + lock_path(s.guard)
                    + " must be a single-link regular file"@,
            )
        } else {
            LockView { existed: true, stage: LockStageView::Open, ..s }
        },
        (LockStageView::Open, LockReplyView::Found(Err(e))) => io(s, e),
        (LockStageView::Open, LockReplyView::Found(Ok(m))) => if !m.is_file || m.nlink != 1
            || m.len != 0 || m.uid != s.euid {
            io(
                s,
                "manifest lock "@ + lock_path(s.guard)
                    + " must be an owned, zero-byte, single-link regular file"@,
            )
        } else {
            LockView {
                lock: DirIdentity { dev: m.dev, ino: m.ino },
                stage: LockStageView::CheckOpened,
                ..s
            }
        },
        (LockStageView::CheckOpened, LockReplyView::Identity(f)) => checked(
            s,
            f,
            LockStageView::Try,
        ),
        (LockStageView::Try, LockReplyView::Tried(TriedView::Acquired)) => go(
            s,
            LockStageView::CheckHeld,
        ),
        (LockStageView::Try, LockReplyView::Tried(TriedView::Error(e))) => io(s, e),
        (LockStageView::Try, LockReplyView::Tried(TriedView::WouldBlock { elapsed_ms })) =>
            if elapsed_ms >= s.wait_ms {
                go(
                    s,
                    LockStageView::Failed {
                        error: LockErrorView::Busy {
                            manifest_dir: s.manifest_dir,
                            waited_ms: s.wait_ms,
                        },
                    },
                )
            } else {
                go(s, LockStageView::Sleep { ms: pause(s.wait_ms, elapsed_ms) })
            },
        (LockStageView::Sleep { ms }, LockReplyView::Did(_)) => go(s, LockStageView::Try),
        (LockStageView::CheckHeld, LockReplyView::Identity(f)) => checked(
            s,
            f,
            LockStageView::ReadMode,
        ),
        (LockStageView::ReadMode, LockReplyView::Found(Err(e))) => io(s, e),
        (LockStageView::ReadMode, LockReplyView::Found(Ok(m))) => if bits(m) != 0o600 {
            go(s, LockStageView::FixMode)
        } else {
            go(s, LockStageView::SyncFile)
        },
        (LockStageView::FixMode, LockReplyView::Did(Ok(_))) => go(s, LockStageView::SyncFile),
        (LockStageView::FixMode, LockReplyView::Did(Err(e))) => io(s, e),
        (LockStageView::SyncFile, LockReplyView::Did(Ok(_))) => if s.existed {
            go(s, LockStageView::CheckSynced)
        } else {
            go(s, LockStageView::SyncDir)
        },
        (LockStageView::SyncFile, LockReplyView::Did(Err(e))) => io(s, e),
        (LockStageView::SyncDir, LockReplyView::Did(Ok(_))) => go(s, LockStageView::CheckSynced),
        (LockStageView::SyncDir, LockReplyView::Did(Err(e))) => io(s, e),
        (LockStageView::CheckSynced, LockReplyView::Identity(f)) => checked(
            s,
            f,
            LockStageView::ConfirmMode,
        ),
        (LockStageView::ConfirmMode, LockReplyView::Found(Err(e))) => io(s, e),
        (LockStageView::ConfirmMode, LockReplyView::Found(Ok(m))) => if bits(m) != 0o600 {
            io(
                s,
                "manifest lock "@ + lock_path(s.guard) + " mode is "@ + text::octal_digits(
                    bits(m) as nat,
                    4,
                ) + ", expected 0600"@,
            )
        } else {
            go(s, LockStageView::Held)
        },
        _ => s,
    }
}

/// How long to pause: a poll interval, but no longer than what is left.
pub open spec fn pause(wait_ms: u64, elapsed_ms: u64) -> u64 {
    if wait_ms - elapsed_ms < MANIFEST_LOCK_POLL_MS {
        (wait_ms - elapsed_ms) as u64
    } else {
        MANIFEST_LOCK_POLL_MS
    }
}

/// How an acquisition starts.
pub open spec fn lock_start(manifest_dir: Seq<char>, euid: u32, wait_ms: u64) -> LockView {
    LockView {
        manifest_dir,
        euid,
        wait_ms,
        guard: VerifiedView { path: Seq::empty(), dev: 0, ino: 0 },
        existed: false,
        lock: DirIdentity { dev: 0, ino: 0 },
        stage: LockStageView::Guard,
    }
}

/// Starts to acquire the lock of a manifest directory, for at most `wait_ms`.
pub fn acquire_manifest_lock(manifest_dir: String, euid: u32, wait_ms: u64) -> (r: LockRun)
    ensures
        r@ == lock_start(manifest_dir@, euid, wait_ms),
{
    LockRun {
        manifest_dir,
        euid,
        wait_ms,
        guard: VerifiedDir { path: String::new(), dev: 0, ino: 0 },
        existed: false,
        lock: DirIdentity { dev: 0, ino: 0 },
        stage: LockStage::Guard,
    }
}

impl LockRun {
    fn go(self, stage: LockStage) -> (r: Self)
        ensures
            r@ == go(self@, stage@),
    {
        LockRun { stage, ..self }
    }

    fn io(self, error: String) -> (r: Self)
        ensures
            r@ == io(self@, error@),
    {
        LockRun { stage: LockStage::Failed { error: LockError::Io(error) }, ..self }
    }

    fn checked(self, f: &IdentityFacts, next: LockStage) -> (r: Self)
        ensures
            r@ == checked(self@, f@, next@),
    {
        match verify_identity(&self.guard, self.lock, f) {
            Err(LockError::Io(e)) => self.io(e),
            Err(_) => self,
            Ok(_) => self.go(next),
        }
    }

    fn did(self, done: Result<(), String>, next: LockStage) -> (r: Self)
        ensures
            r@ == match done {
                Ok(_) => go(self@, next@),
                Err(e) => io(self@, e@),
            },
    {
        match done {
            Ok(_) => self.go(next),
            Err(e) => self.io(e),
        }
    }

    /// The path of the lock file.
    pub fn lock_file(&self) -> (r: String)
        ensures
            r@ == lock_path(self@.guard),
    {
        path::join(self.guard.path.as_str(), LOCK_FILE_NAME)
    }

    /// Takes the reply that the stage waits for and moves on.
    pub fn step(self, reply: LockReply) -> (r: Self)
        ensures
            r@ == lock_next(self@, reply@),
    {
        match (&self.stage, reply) {
            (LockStage::Guard, LockReply::Guarded(got)) => match got {
                Ok(guard) => LockRun { guard, stage: LockStage::OpenDir, ..self },
                Err(e) => self.io(e),
            },
            (LockStage::OpenDir, LockReply::Did(done)) => self.did(done, LockStage::CheckDir),
            (LockStage::CheckDir, LockReply::Identity(f)) => match check_guard(&self.guard, &f) {
                Some(e) => self.io(e),
                None => self.go(LockStage::Inspect),
            },
            (LockStage::Inspect, LockReply::Found(found)) => match found {
                Err(_) => LockRun { existed: false, stage: LockStage::Open, ..self },
                Ok(m) => {
                    if m.is_symlink || !m.is_file || m.nlink != 1 {
                        let p: String = self.lock_file();
                        let e: String = text::cat3(
                            "manifest lock ",
                            p.as_str(),
                            " must be a single-link regular file",
                        );
                        self.io(e)
                    } else {
                        LockRun { existed: true, stage: LockStage::Open, ..self }
                    }
                },
            },
            (LockStage::Open, LockReply::Found(found)) => match found {
                Err(e) => self.io(e),
                Ok(m) => {
                    if !m.is_file || m.nlink != 1 || m.len != 0 || m.uid != self.euid {
                        let p: String = self.lock_file();
                        let e: String = text::cat3(
                            "manifest lock ",
                            p.as_str(),
                            " must be an owned, zero-byte, single-link regular file",
                        );
                        self.io(e)
                    } else {
                        LockRun {
                            lock: DirIdentity { dev: m.dev, ino: m.ino },
                            stage: LockStage::CheckOpened,
                            ..self
                        }
                    }
                },
            },
            (LockStage::CheckOpened, LockReply::Identity(f)) => self.checked(&f, LockStage::Try),
            (LockStage::Try, LockReply::Tried(tried)) => match tried {
                Tried::Acquired => self.go(LockStage::CheckHeld),
                Tried::Error(e) => self.io(e),
                Tried::WouldBlock { elapsed_ms } => {
                    if elapsed_ms >= self.wait_ms {
                        let error = LockError::Busy {
                            manifest_dir: self.manifest_dir.clone(),
                            waited_ms: self.wait_ms,
                        };
                        self.go(LockStage::Failed { error })
                    } else {
                        let left: u64 = self.wait_ms - elapsed_ms;
                        let ms: u64 = if left < MANIFEST_LOCK_POLL_MS {
                            left
                        } else {
                            MANIFEST_LOCK_POLL_MS
                        };
                        self.go(LockStage::Sleep { ms })
                    }
                },
            },
            (LockStage::Sleep { ms: _ }, LockReply::Did(_)) => self.go(LockStage::Try),
            (LockStage::CheckHeld, LockReply::Identity(f)) => self.checked(
                &f,
                LockStage::ReadMode,
            ),
            (LockStage::ReadMode, LockReply::Found(found)) => match found {
                Err(e) => self.io(e),
                Ok(m) => {
                    if m.mode & 0o777 != 0o600 {
                        self.go(LockStage::FixMode)
                    } else {
                        self.go(LockStage::SyncFile)
                    }
                },
            },
            (LockStage::FixMode, LockReply::Did(done)) => self.did(done, LockStage::SyncFile),
            (LockStage::SyncFile, LockReply::Did(done)) => {
                if self.existed {
                    self.did(done, LockStage::CheckSynced)
                } else {
                    self.did(done, LockStage::SyncDir)
                }
            },
            (LockStage::SyncDir, LockReply::Did(done)) => self.did(done, LockStage::CheckSynced),
            (LockStage::CheckSynced, LockReply::Identity(f)) => self.checked(
                &f,
                LockStage::ConfirmMode,
            ),
            (LockStage::ConfirmMode, LockReply::Found(found)) => match found {
                Err(e) => self.io(e),
                Ok(m) => {
                    let bits: u32 = m.mode & 0o777;
                    if bits != 0o600 {
                        let p: String = self.lock_file();
                        let mode: String = text::octal_string(bits, 4);
                        let e: String = text::cat5(
                            "manifest lock ",
                            p.as_str(),
                            " mode is ",
                            mode.as_str(),
                            ", expected 0600",
                        );
                        self.io(e)
                    } else {
                        self.go(LockStage::Held)
                    }
                },
            },
            _ => self,
        }
    }
}

// ---- laws ----
/// The states that an acquisition can be in.
pub open spec fn sound(s: LockView) -> bool {
    match s.stage {
        LockStageView::Sleep { ms } => ms <= MANIFEST_LOCK_POLL_MS && ms <= s.wait_ms,
        _ => true,
    }
}

/// A pause of an acquisition is never longer than the poll interval.
pub proof fn pauses_are_bounded(s: LockView, reply: LockReplyView)
    requires
        sound(s),
    ensures
        sound(lock_next(s, reply)),
{
}

/// The lock counts as held only by a reply that shows mode 0600, after the
/// identity of directory and lock was checked.
pub proof fn held_only_when_confirmed(s: LockView, reply: LockReplyView)
    requires
        !(s.stage is Held),
        lock_next(s, reply).stage is Held,
    ensures
        s.stage is ConfirmMode,
        reply is Found && reply->Found_0 is Ok && bits(reply->Found_0->Ok_0) == 0o600,
{
}

/// The stage that confirms the mode is reached only past an identity check
/// that found nothing wrong.
pub proof fn confirmed_only_past_identity(s: LockView, reply: LockReplyView)
    requires
        !(s.stage is ConfirmMode),
        lock_next(s, reply).stage is ConfirmMode,
    ensures
        s.stage is CheckSynced,
        reply is Identity && lock_fault(s.guard, s.lock, reply->Identity_0) is None,
{
}

} // verus!
