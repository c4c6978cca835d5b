use hearth_lib::fs::FileMeta;
use hearth_lib::php::artifact::DirIdentity;
use hearth_lib::php::lock::{
    acquire_manifest_lock, verify_identity, IdentityFacts, LockError, LockReply, LockRun,
    LockStage, Tried, DEFAULT_MANIFEST_LOCK_WAIT_MS, MANIFEST_LOCK_POLL_MS,
};
use hearth_lib::php::targets::VerifiedDir;

const EUID: u32 = 501;
const DIR: &str = "/base/locked";
const LOCK: &str = "/base/locked/.manifest.lock";

fn meta(kind: &str, ino: u64) -> FileMeta {
    FileMeta {
        is_symlink: kind == "link",
        is_dir: kind == "dir",
        is_file: kind == "file",
        uid: EUID,
        mode: if kind == "dir" { 0o40700 } else { 0o100600 },
        dev: 7,
        ino,
        nlink: 1,
        len: 0,
    }
}

/// A manifest directory, and the lock file in it, if there is one.
struct Host {
    dir: FileMeta,
    lock: Option<FileMeta>,
    /// How long another process goes on holding the lock.
    held_for_ms: u64,
    clock_ms: u64,
    chmod_works: bool,
    log: Vec<&'static str>,
}

fn host(lock: Option<FileMeta>) -> Host {
    Host {
        dir: meta("dir", 1),
        lock,
        held_for_ms: 0,
        clock_ms: 0,
        chmod_works: true,
        log: Vec::new(),
    }
}

fn gone() -> String {
    "No such file or directory".to_string()
}

impl Host {
    fn identity(&self) -> IdentityFacts {
        IdentityFacts {
            dir_link: Ok(self.dir),
            dir_fd: Ok(meta("dir", 1)),
            lock_link: self.lock.ok_or_else(gone),
            lock_fd: self.lock.ok_or_else(gone),
        }
    }

    fn drive(&mut self, mut run: LockRun) -> LockRun {
        loop {
            let reply = match &run.stage {
                LockStage::Guard => LockReply::Guarded(Ok(VerifiedDir {
                    path: DIR.to_string(),
                    dev: 7,
                    ino: 1,
                })),
                LockStage::OpenDir => LockReply::Did(Ok(())),
                LockStage::CheckDir
                | LockStage::CheckOpened
                | LockStage::CheckHeld
                | LockStage::CheckSynced => LockReply::Identity(self.identity()),
                LockStage::Inspect => LockReply::Found(self.lock.ok_or_else(gone)),
                LockStage::Open => {
                    let m = *self.lock.get_or_insert(meta("file", 2));
                    LockReply::Found(Ok(m))
                }
                LockStage::Try => LockReply::Tried(if self.clock_ms < self.held_for_ms {
                    Tried::WouldBlock { elapsed_ms: self.clock_ms }
                } else {
                    Tried::Acquired
                }),
                LockStage::Sleep { ms } => {
                    self.log.push("sleep");
                    self.clock_ms += *ms;
                    LockReply::Did(Ok(()))
                }
                LockStage::ReadMode | LockStage::ConfirmMode => {
                    LockReply::Found(self.lock.ok_or_else(gone))
                }
                LockStage::FixMode => {
                    self.log.push("chmod");
                    if self.chmod_works {
                        self.lock.as_mut().unwrap().mode = 0o100600;
                    }
                    LockReply::Did(Ok(()))
                }
                LockStage::SyncFile => {
                    self.log.push("sync file");
                    LockReply::Did(Ok(()))
                }
                LockStage::SyncDir => {
                    self.log.push("sync dir");
                    LockReply::Did(Ok(()))
                }
                LockStage::Held | LockStage::Failed { .. } => return run,
            };
            run = run.step(reply);
        }
    }

    fn acquire(&mut self, wait_ms: u64) -> Result<LockRun, LockError> {
        let run = self.drive(acquire_manifest_lock(DIR.to_string(), EUID, wait_ms));
        match run.stage {
            LockStage::Failed { error } => Err(error),
            _ => Ok(run),
        }
    }
}

#[test]
fn first_acquirer_creates_the_lock_file_and_syncs_its_directory() {
    let mut h = host(None);
    let run = h.acquire(1000).unwrap();
    assert!(matches!(run.stage, LockStage::Held));
    assert_eq!(run.lock_file(), LOCK);
    assert_eq!(run.lock, DirIdentity { dev: 7, ino: 2 });
    assert_eq!(h.log, ["sync file", "sync dir"]);
    // The directory got no new entry the second time.
    h.log.clear();
    h.acquire(1000).unwrap();
    assert_eq!(h.log, ["sync file"]);
}

#[test]
fn manifest_lock_excludes_second_acquirer() {
    let mut h = host(Some(meta("file", 2)));
    h.held_for_ms = 10_000;
    let error = h.acquire(60).unwrap_err();
    assert_eq!(
        error.message(),
        "another Hearth process is updating the manifest in /base/locked (waited 60ms) — retry"
    );
    // Two whole pauses and one of what was left.
    assert_eq!(h.log.len(), 3);
    assert_eq!(h.clock_ms, 60);
    assert_eq!(MANIFEST_LOCK_POLL_MS, 25);
    assert_eq!(DEFAULT_MANIFEST_LOCK_WAIT_MS, 5000);
    // Once the holder is gone it is taken.
    h.clock_ms = 0;
    h.held_for_ms = 30;
    assert!(h.acquire(60).is_ok());
}

#[test]
fn manifest_lock_rejects_ambiguous_identity_and_enforces_zero_byte_mode() {
    let single = "manifest lock I/O failed: manifest lock /base/locked/.manifest.lock must be a \
                  single-link regular file";
    assert_eq!(host(Some(meta("link", 2))).acquire(0).unwrap_err().message(), single);
    assert_eq!(host(Some(meta("dir", 2))).acquire(0).unwrap_err().message(), single);
    let mut hard = meta("file", 2);
    hard.nlink = 2;
    assert_eq!(host(Some(hard)).acquire(0).unwrap_err().message(), single);

    let mut open = meta("file", 2);
    open.mode = 0o100644;
    let mut h = host(Some(open));
    h.acquire(0).unwrap();
    assert_eq!(h.lock.unwrap().mode & 0o777, 0o600);
    assert_eq!(h.log, ["chmod", "sync file"]);

    let mut full = meta("file", 2);
    full.len = 17;
    let owned = "manifest lock I/O failed: manifest lock /base/locked/.manifest.lock must be an \
                 owned, zero-byte, single-link regular file";
    assert_eq!(host(Some(full)).acquire(0).unwrap_err().message(), owned);
    let mut foreign = meta("file", 2);
    foreign.uid = 0;
    assert_eq!(host(Some(foreign)).acquire(0).unwrap_err().message(), owned);
}

#[test]
fn mode_that_does_not_take_is_refused() {
    let mut open = meta("file", 2);
    open.mode = 0o100644;
    let mut h = host(Some(open));
    h.chmod_works = false;
    assert_eq!(
        h.acquire(0).unwrap_err().message(),
        "manifest lock I/O failed: manifest lock /base/locked/.manifest.lock mode is 0644, \
         expected 0600"
    );
}

#[test]
fn replaced_directory_or_lock_is_noticed() {
    let guard = VerifiedDir { path: DIR.to_string(), dev: 7, ino: 1 };
    let lock = DirIdentity { dev: 7, ino: 2 };
    let facts = |dir: FileMeta, link: FileMeta| IdentityFacts {
        dir_link: Ok(dir),
        dir_fd: Ok(meta("dir", 1)),
        lock_link: Ok(link),
        lock_fd: Ok(meta("file", 2)),
    };
    let ok = facts(meta("dir", 1), meta("file", 2));
    assert!(verify_identity(&guard, lock, &ok).is_ok());

    let replaced = "manifest lock I/O failed: guarded manifest directory /base/locked was replaced";
    for dir in [meta("dir", 9), meta("link", 1), meta("file", 1)] {
        let error = verify_identity(&guard, lock, &facts(dir, meta("file", 2))).unwrap_err();
        assert_eq!(error.message(), replaced);
    }
    let unsafe_lock = "manifest lock I/O failed: manifest lock /base/locked/.manifest.lock has \
                       unsafe or replaced identity";
    for link in [meta("file", 9), meta("link", 2), meta("dir", 2)] {
        let error = verify_identity(&guard, lock, &facts(meta("dir", 1), link)).unwrap_err();
        assert_eq!(error.message(), unsafe_lock);
    }
    let mut unread = facts(meta("dir", 1), meta("file", 2));
    unread.lock_fd = Err("EIO".to_string());
    assert_eq!(
        verify_identity(&guard, lock, &unread).unwrap_err().message(),
        "manifest lock I/O failed: EIO"
    );
}

#[test]
fn unsafe_manifest_directory_is_never_opened() {
    let run = acquire_manifest_lock(DIR.to_string(), EUID, 0)
        .step(LockReply::Guarded(Err("is a symlink".to_string())));
    match run.stage {
        LockStage::Failed { error: LockError::Io(e) } => assert_eq!(e, "is a symlink"),
        other => panic!("unexpected {other:?}"),
    }
}

#[test]
fn reply_out_of_turn_changes_nothing() {
    let run = acquire_manifest_lock(DIR.to_string(), EUID, 0)
        .step(LockReply::Tried(Tried::Acquired))
        .step(LockReply::Found(Ok(meta("file", 2))));
    assert!(matches!(run.stage, LockStage::Guard));
}
