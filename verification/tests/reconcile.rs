use std::collections::{BTreeMap, BTreeSet};

use hearth_lib::config::PhpIniSettings;
use hearth_lib::fs::{FileMeta, IoFault, PathFacts, Snapshot};
use hearth_lib::php::artifact::{DirIdentity, Reply};
use hearth_lib::php::batch::Task;
use hearth_lib::php::lock::LockError;
use hearth_lib::php::manifest::{
    EntryState, LastOutcome, Manifest, ManifestEntry, WriteOutcome,
};
use hearth_lib::php::migration::{
    backup_path, migrate_legacy_inis, LegacyFile, MigrationReply, MigrationReport, MigrationStage,
};
use hearth_lib::php::reconcile::{
    reconcile, recover_pending, recovery_result, render_ini, sha256_hex, unmanage,
    unmanage_result, FileAction, ReconcileReport, CHANNEL_FILE_NAME,
};
use hearth_lib::php::recovery::{RecoveryAction, RecoveryOutcome, Seen};
use hearth_lib::php::targets::{
    expected_channel_dir, ChannelClass, PhpProvider, PhpSapi, PhpTarget, PhpTargetIdentity,
    ProbeInfo, ProviderRoots,
};
use hearth_lib::php::txn::{TxnReply, TxnRun, TxnStage};
use hearth_lib::strmap::StrMap;

const BASE: &str = "/base";

/// A machine in memory: files, the durable manifest, and what is to fail.
#[derive(Default)]
struct Machine {
    files: BTreeMap<String, String>,
    dirs: BTreeSet<String>,
    manifest: Option<Manifest>,
    saves: usize,
    fail_save: Option<usize>,
    fail_saves: bool,
    fail_channel: bool,
    readonly: bool,
    readonly_dir: Option<String>,
    reject_dir: Option<String>,
    busy: bool,
    unreadable: BTreeSet<String>,
    events: Vec<String>,
}

impl Machine {
    fn hash(&self, path: &str) -> Option<String> {
        self.files.get(path).map(|c| sha256_hex(c.as_bytes()))
    }

    fn save(&mut self, m: &Manifest) -> Result<(), String> {
        self.saves += 1;
        self.events.push("save".to_string());
        // The rename lands before the directory sync fails.
        self.manifest = Some(m.clone());
        if self.fail_saves || self.fail_save == Some(self.saves) {
            return Err("sync failed".to_string());
        }
        Ok(())
    }

    fn task(&mut self, task: Task, m: &Manifest) -> Reply {
        match task {
            Task::Hash { path } => {
                if self.unreadable.contains(&path) {
                    Reply::Unreadable
                } else {
                    Reply::Hash(self.hash(&path))
                }
            }
            Task::Save => Reply::Did(self.save(m)),
            Task::FindDir { dir } => Reply::Present(self.dirs.contains(&dir)),
            Task::VerifyDir { .. } => Reply::Identity(match &self.reject_dir {
                Some(why) => Err(why.clone()),
                None => Ok(DirIdentity { dev: 1, ino: 2 }),
            }),
            Task::Write { path, content, .. } => {
                self.events.push(format!("write:{path}"));
                let blocked = self.readonly_dir.as_ref().is_some_and(|d| path.starts_with(d));
                if self.readonly || blocked {
                    return Reply::Did(Err("permission denied".to_string()));
                }
                self.files.insert(path, content);
                Reply::Did(if self.fail_channel {
                    Err("sync failed".to_string())
                } else {
                    Ok(())
                })
            }
            Task::RecheckDir { .. } => Reply::Did(Ok(())),
            Task::Clock => Reply::Clock(Some(1_700_000_000_000)),
            Task::Unlink { path } => {
                self.events.push(format!("unlink:{path}"));
                self.files.remove(&path);
                Reply::Did(if self.fail_channel {
                    Err("sync failed".to_string())
                } else {
                    Ok(())
                })
            }
            Task::Nothing => panic!("a batch at work has a task"),
        }
    }

    fn drive(&mut self, mut run: TxnRun) -> TxnRun {
        self.saves = 0;
        loop {
            let reply = match &run.stage {
                TxnStage::Acquire => TxnReply::Lock(if self.busy {
                    Err(LockError::Busy { manifest_dir: BASE.to_string(), waited_ms: 5000 })
                } else {
                    Ok(())
                }),
                TxnStage::CheckLocked
                | TxnStage::CheckLoaded
                | TxnStage::CheckRecovered
                | TxnStage::CheckWorked
                | TxnStage::CheckFinal => TxnReply::Lock(Ok(())),
                TxnStage::Load => TxnReply::Loaded(Ok(match &self.manifest {
                    Some(m) => m.clone(),
                    None => Manifest::empty(),
                })),
                TxnStage::Observe => TxnReply::Observed(
                    run.manifest
                        .files
                        .iter()
                        .map(|e| Seen {
                            sha256: self.hash(&e.path),
                            unreadable: self.unreadable.contains(&e.path),
                            unix_ms: Some(1_700_000_000_000),
                        })
                        .collect(),
                ),
                TxnStage::SaveRecovered | TxnStage::SavePruned | TxnStage::SaveFinal => {
                    TxnReply::Did(self.save(&run.manifest))
                }
                TxnStage::Preflight => TxnReply::Looked(Snapshot::new(501)),
                TxnStage::Work => {
                    let task = run.batch.task();
                    let m = run.manifest.clone();
                    TxnReply::Artifact(self.task(task, &m))
                }
                TxnStage::Prune => TxnReply::Existing(
                    run.manifest
                        .files
                        .iter()
                        .map(|e| self.files.contains_key(&e.path))
                        .collect(),
                ),
                TxnStage::FindManifest => TxnReply::Found(self.manifest.is_some()),
                TxnStage::UnlinkManifest => {
                    self.manifest = None;
                    TxnReply::Did(Ok(()))
                }
                TxnStage::Done | TxnStage::Failed { .. } => return run,
            };
            run = run.step(reply);
        }
    }

    fn reconcile(&mut self, ini: &PhpIniSettings, targets: &Vec<PhpTarget>) -> ReconcileReport {
        let mut run = reconcile(ini, targets);
        run.txn = self.drive(run.txn);
        run.report("/base/hearth/php/manifest.toml")
    }

    fn recover(&mut self) -> Result<Vec<RecoveryAction>, String> {
        recovery_result(self.drive(recover_pending()))
    }

    fn unmanage(&mut self) -> Result<Vec<FileAction>, String> {
        unmanage_result(self.drive(unmanage()))
    }

    fn rows(&self) -> Vec<ManifestEntry> {
        self.manifest.as_ref().map(|m| m.files.clone()).unwrap_or_default()
    }
}

fn meta(is_dir: bool) -> FileMeta {
    FileMeta {
        is_symlink: false,
        is_dir,
        is_file: !is_dir,
        uid: 501,
        mode: 0o700,
        dev: 1,
        ino: 2,
        nlink: 1,
        len: 0,
    }
}

fn there(path: &str) -> PathFacts {
    PathFacts {
        exists: true,
        link: Ok(meta(true)),
        canonical: Ok(path.to_string()),
        target: Ok(meta(true)),
        hash: Err("is a directory".to_string()),
    }
}

fn test_roots() -> ProviderRoots {
    let mut disk = Snapshot::new(501);
    disk.record(BASE.to_string(), there(BASE));
    ProviderRoots::isolated(
        BASE,
        format!("{BASE}/hearth"),
        format!("{BASE}/Herd"),
        format!("{BASE}/homebrew"),
        &disk,
    )
    .unwrap()
}

fn target(machine: &mut Machine, provider: PhpProvider, version: &str, dir: &str) -> PhpTarget {
    // A verified channel directory exists before a reconcile.
    machine.dirs.insert(dir.to_string());
    PhpTarget {
        id: PhpTargetIdentity {
            provider,
            version: version.to_string(),
            sapi: PhpSapi::Cli,
            binary: "/fake/php".to_string(),
        },
        probe: ProbeInfo::default(),
        normal_channel: ChannelClass::Verified { dir: dir.to_string() },
        sanitized_channel: ChannelClass::BestEffort { reason: "test".to_string() },
        write_channel: Some(dir.to_string()),
        identity_verified: true,
    }
}

fn unwritable_target(provider: PhpProvider, version: &str, class: ChannelClass) -> PhpTarget {
    PhpTarget {
        id: PhpTargetIdentity {
            provider,
            version: version.to_string(),
            sapi: PhpSapi::Cli,
            binary: "/fake/php".to_string(),
        },
        probe: ProbeInfo::default(),
        normal_channel: class.clone(),
        sanitized_channel: class,
        write_channel: None,
        identity_verified: true,
    }
}

fn simple_ini(version: &str, key: &str, value: &str) -> PhpIniSettings {
    let mut own: StrMap<String> = StrMap::new();
    own.insert(key.to_string(), value.to_string());
    let mut ini = PhpIniSettings::default();
    ini.overrides.insert(version.to_string(), own);
    ini
}

fn outcome_for<'r>(report: &'r ReconcileReport, path: &str) -> &'r WriteOutcome {
    &report
        .files
        .iter()
        .find(|f| f.path == path)
        .unwrap_or_else(|| panic!("no file action for {path}: {report:?}"))
        .outcome
}

fn hearth_dir() -> String {
    expected_channel_dir(PhpProvider::Hearth, "8.4", &test_roots())
}

fn channel_file(dir: &str) -> String {
    format!("{dir}/{CHANNEL_FILE_NAME}")
}

fn pending_row(path: &str, old: Option<&str>, desired: Option<&str>) -> ManifestEntry {
    ManifestEntry {
        path: path.to_string(),
        php_version: "8.4".to_string(),
        channel: "hearth".to_string(),
        sha256: old.unwrap_or("").to_string(),
        state: EntryState::Pending,
        expected_old_sha256: old.map(|s| s.to_string()),
        desired_sha256: desired.map(|s| s.to_string()),
        last_outcome: LastOutcome::Written,
        applied_at_unix_ms: None,
    }
}

fn with_rows(rows: Vec<ManifestEntry>) -> Manifest {
    let mut m = Manifest::empty();
    m.files = rows;
    m
}

// ---- rendering ----

#[test]
fn render_stable_and_headered() {
    let mut directives: StrMap<String> = StrMap::new();
    directives.insert("memory_limit".to_string(), "2G".to_string());
    let first = render_ini(&directives);
    let second = render_ini(&directives);
    assert_eq!(first, second, "rendering must be byte-stable");
    assert_eq!(
        first,
        "; managed by hearth — do not edit. `hearth php config` regenerates this file.\n\
         ; hearth-owned: v1\n\
         memory_limit=2G\n"
    );
}

#[test]
fn rendering_lists_directives_by_name() {
    let mut directives: StrMap<String> = StrMap::new();
    directives.insert("upload_max_filesize".to_string(), "64M".to_string());
    directives.insert("date.timezone".to_string(), "UTC".to_string());
    let text = render_ini(&directives);
    assert!(text.ends_with("date.timezone=UTC\nupload_max_filesize=64M\n"), "{text}");
}

#[test]
fn hashes_are_sha256_in_hexadecimal() {
    assert_eq!(
        sha256_hex(b"abc"),
        "ba7816bf8f01cfea414140de5dae2223b00361a396177a9cb410ff61f20015ad"
    );
    assert_eq!(
        sha256_hex(b""),
        "e3b0c44298fc1c149afbf4c8996fb92427ae41e4649b934ca495991b7852b855"
    );
}

// ---- writes ----

#[test]
fn reconcile_writes_new_file_atomically() {
    let mut machine = Machine::default();
    let dir = hearth_dir();
    assert_eq!(dir, "/base/hearth/php/8.4/conf.d");
    let ini = simple_ini("8.4", "memory_limit", "2G");
    let targets = vec![target(&mut machine, PhpProvider::Hearth, "8.4", &dir)];

    let report = machine.reconcile(&ini, &targets);

    let file = channel_file(&dir);
    assert!(matches!(outcome_for(&report, &file), WriteOutcome::Written));
    let content = machine.files[&file].clone();
    assert_eq!(content, render_ini(&ini.effective_for("8.4")));
    assert_eq!(machine.files.len(), 1);

    let rows = machine.rows();
    let entry = rows.iter().find(|e| e.path == file).unwrap();
    assert_eq!(entry.state, EntryState::Applied);
    assert_eq!(entry.sha256, sha256_hex(content.as_bytes()));
    assert_eq!(entry.last_outcome, LastOutcome::Written);
    assert_eq!(entry.applied_at_unix_ms, Some(1_700_000_000_000));
}

#[test]
fn reconcile_unchanged_is_noop() {
    let mut machine = Machine::default();
    let dir = hearth_dir();
    let ini = simple_ini("8.4", "memory_limit", "2G");
    let targets = vec![target(&mut machine, PhpProvider::Hearth, "8.4", &dir)];
    machine.reconcile(&ini, &targets);
    let before = machine.files.clone();
    machine.events.clear();

    let report = machine.reconcile(&ini, &targets);
    assert!(matches!(
        outcome_for(&report, &channel_file(&dir)),
        WriteOutcome::Unchanged
    ));
    assert_eq!(machine.files, before);
    assert!(machine.events.iter().all(|e| !e.starts_with("write:")));
    assert_eq!(machine.rows().len(), 1);
}

#[test]
fn reconcile_refuses_untracked_file_even_with_header() {
    let mut machine = Machine::default();
    let dir = format!("{BASE}/Herd/config/php/84");
    let file = channel_file(&dir);
    // Correct header, no manifest entry: still a collision.
    let impostor = "; managed by hearth — do not edit. `hearth php config` regenerates this file.\n\
                    ; hearth-owned: v1\n\
                    memory_limit=9G\n";
    machine.files.insert(file.clone(), impostor.to_string());
    let targets = vec![target(&mut machine, PhpProvider::Herd, "8.4", &dir)];

    let report = machine.reconcile(&simple_ini("8.4", "memory_limit", "2G"), &targets);
    match outcome_for(&report, &file) {
        WriteOutcome::Refused { reason } => {
            assert!(reason.contains("--sync"), "refusal must carry remediation: {reason}");
        }
        other => panic!("expected Refused, got {other:?}"),
    }
    assert_eq!(machine.files[&file], impostor, "untracked file must remain untouched");
}

#[test]
fn reconcile_updates_own_file_exact_hash() {
    let mut machine = Machine::default();
    let dir = hearth_dir();
    let targets = vec![target(&mut machine, PhpProvider::Hearth, "8.4", &dir)];
    machine.reconcile(&simple_ini("8.4", "memory_limit", "2G"), &targets);

    let updated = simple_ini("8.4", "memory_limit", "4G");
    let report = machine.reconcile(&updated, &targets);
    let file = channel_file(&dir);
    assert!(matches!(outcome_for(&report, &file), WriteOutcome::Written));
    assert_eq!(machine.files[&file], render_ini(&updated.effective_for("8.4")));
}

#[test]
fn pending_journal_written_before_mutation() {
    let mut machine = Machine { readonly: true, ..Machine::default() };
    let dir = format!("{BASE}/Herd/config/php/84");
    let targets = vec![target(&mut machine, PhpProvider::Herd, "8.4", &dir)];
    let report = machine.reconcile(&simple_ini("8.4", "memory_limit", "2G"), &targets);

    let file = channel_file(&dir);
    assert!(matches!(outcome_for(&report, &file), WriteOutcome::Failed { .. }));
    let rows = machine.rows();
    let entry = rows.iter().find(|e| e.path == file).unwrap();
    assert_eq!(
        entry.state,
        EntryState::Pending,
        "journal entry must exist even though the write never happened"
    );
    assert_eq!(entry.last_outcome, LastOutcome::Failed);
}

#[test]
fn reconcile_never_touches_privileged_or_besteffort() {
    let mut machine = Machine::default();
    let targets = vec![
        unwritable_target(
            PhpProvider::Herd,
            "8.4",
            ChannelClass::PrivilegedDir { dir: "/usr/local/etc/php/conf.d".to_string() },
        ),
        unwritable_target(
            PhpProvider::Homebrew,
            "8.1",
            ChannelClass::BestEffort { reason: "probe failed".to_string() },
        ),
    ];

    let report = machine.reconcile(&simple_ini("8.4", "memory_limit", "2G"), &targets);

    assert!(report.files.is_empty(), "zero filesystem outcomes: {report:?}");
    assert_eq!(report.skipped.len(), 2, "both targets get report rows");
    assert!(machine.rows().is_empty(), "no manifest entries for unwritable targets");
}

#[test]
fn reconcile_barrier_ordering_is_pending_channel_final() {
    let mut machine = Machine::default();
    let dir = hearth_dir();
    let targets = vec![target(&mut machine, PhpProvider::Hearth, "8.4", &dir)];
    let report = machine.reconcile(&simple_ini("8.4", "memory_limit", "2G"), &targets);

    let file = channel_file(&dir);
    assert!(matches!(outcome_for(&report, &file), WriteOutcome::Written));
    let saves: Vec<usize> = machine
        .events
        .iter()
        .enumerate()
        .filter(|(_, e)| **e == "save")
        .map(|(i, _)| i)
        .collect();
    assert!(saves.len() >= 2, "pending AND final saves: {:?}", machine.events);
    let write = machine
        .events
        .iter()
        .position(|e| *e == format!("write:{file}"))
        .unwrap();
    assert!(
        saves[0] < write && write < *saves.last().unwrap(),
        "required order: pending save → write → final save; got {:?}",
        machine.events
    );
}

#[test]
fn delete_sync_failure_prevents_ownership_finalization() {
    let mut machine = Machine::default();
    let dir = hearth_dir();
    let targets = vec![target(&mut machine, PhpProvider::Hearth, "8.4", &dir)];
    machine.reconcile(&simple_ini("8.4", "memory_limit", "2G"), &targets);
    let file = channel_file(&dir);
    assert!(machine.files.contains_key(&file));

    machine.fail_channel = true;
    let report = machine.reconcile(&PhpIniSettings::default(), &targets);
    machine.fail_channel = false;

    assert!(
        matches!(outcome_for(&report, &file), WriteOutcome::Failed { .. }),
        "{report:?}"
    );
    assert!(
        machine.rows().iter().any(|e| e.path == file),
        "ownership must be retained until the removal is durable"
    );

    // Recovery resolves the journaled delete.
    machine.recover().unwrap();
    assert!(machine.rows().is_empty(), "recovery finalizes the durable delete");
}

#[test]
fn unmanage_sync_failure_keeps_ownership() {
    let mut machine = Machine::default();
    let dir = hearth_dir();
    let targets = vec![target(&mut machine, PhpProvider::Hearth, "8.4", &dir)];
    machine.reconcile(&simple_ini("8.4", "memory_limit", "2G"), &targets);
    let file = channel_file(&dir);

    machine.fail_channel = true;
    let actions = machine.unmanage().unwrap();
    machine.fail_channel = false;

    assert!(
        actions
            .iter()
            .any(|a| a.path == file && matches!(a.outcome, WriteOutcome::Failed { .. })),
        "{actions:?}"
    );
    assert!(
        machine.rows().iter().any(|e| e.path == file),
        "unmanage must not drop ownership past a failed removal barrier"
    );
}

#[test]
fn final_manifest_sync_failure_after_channel_write_reports_failed() {
    let mut machine = Machine::default();
    let dir = hearth_dir();
    let targets = vec![target(&mut machine, PhpProvider::Hearth, "8.4", &dir)];
    machine.reconcile(&simple_ini("8.4", "memory_limit", "2G"), &targets);

    // Attempt 1 = pending journal save (passes); attempt 2 = finalization.
    let updated = simple_ini("8.4", "memory_limit", "4G");
    machine.fail_save = Some(2);
    let report = machine.reconcile(&updated, &targets);
    machine.fail_save = None;

    let file = channel_file(&dir);
    match outcome_for(&report, &file) {
        WriteOutcome::Failed { error } => {
            assert!(
                error.contains("finalization"),
                "must carry the persistence error: {error}"
            );
        }
        other => panic!("finalization failure must never report success: {other:?}"),
    }
    let disk_state = machine.rows()[0].state;
    assert!(
        matches!(disk_state, EntryState::Pending | EntryState::Applied),
        "unexpected disk state {disk_state:?}"
    );

    // Clean retry converges from whichever state disk exposes.
    let report = machine.reconcile(&updated, &targets);
    assert!(
        matches!(outcome_for(&report, &file), WriteOutcome::Unchanged),
        "retry must converge: {report:?}"
    );
    assert_eq!(machine.rows()[0].state, EntryState::Applied);
}

#[test]
fn final_manifest_sync_failure_after_delete_reports_failed_not_deleted() {
    let mut machine = Machine::default();
    let dir = hearth_dir();
    let targets = vec![target(&mut machine, PhpProvider::Hearth, "8.4", &dir)];
    machine.reconcile(&simple_ini("8.4", "memory_limit", "2G"), &targets);
    let file = channel_file(&dir);

    // Attempt 1 = pending delete journal (passes); attempt 2 = ownership drop.
    machine.fail_save = Some(2);
    let report = machine.reconcile(&PhpIniSettings::default(), &targets);
    machine.fail_save = None;

    assert!(
        matches!(outcome_for(&report, &file), WriteOutcome::Failed { .. }),
        "a non-durable ownership drop must never report Deleted: {report:?}"
    );
    let disk = machine.rows();
    assert!(
        disk.is_empty() || disk[0].state == EntryState::Pending,
        "unexpected disk state: {disk:?}"
    );

    // Clean retry converges whether disk exposes pending or final state.
    let report = machine.reconcile(&PhpIniSettings::default(), &targets);
    assert!(report.files.is_empty(), "{report:?}");
    assert!(machine.rows().is_empty());
    assert!(!machine.files.contains_key(&file));
}

#[test]
fn unmanage_finalization_error_propagates() {
    let mut machine = Machine::default();
    let dir = hearth_dir();
    let targets = vec![target(&mut machine, PhpProvider::Hearth, "8.4", &dir)];
    machine.reconcile(&simple_ini("8.4", "memory_limit", "2G"), &targets);

    machine.fail_saves = true;
    let result = machine.unmanage();
    machine.fail_saves = false;
    assert!(result.is_err(), "final manifest sync failure must propagate");

    // Clean retry converges.
    assert!(machine.unmanage().is_ok());
    assert!(machine.rows().is_empty());
}

#[test]
fn finalize_mode_save_always_preserves_empty_ini_manifest() {
    let mut machine = Machine::default();
    let actions = machine.unmanage().unwrap();
    assert!(actions.is_empty());
    assert!(machine.manifest.is_some());
    assert!(machine.rows().is_empty());
}

#[test]
fn reconcile_deletes_only_manifest_tracked() {
    let mut machine = Machine::default();
    let own = hearth_dir();
    let foreign = format!("{BASE}/Herd/config/php/84");
    let hearth_target = target(&mut machine, PhpProvider::Hearth, "8.4", &own);
    let herd_target = target(&mut machine, PhpProvider::Herd, "8.4", &foreign);

    machine.reconcile(&simple_ini("8.4", "memory_limit", "2G"), &vec![hearth_target.clone()]);
    let owned_file = channel_file(&own);
    assert!(machine.files.contains_key(&owned_file));
    let stranger = channel_file(&foreign);
    machine
        .files
        .insert(stranger.clone(), "; hearth-owned: v1\nmemory_limit=9G\n".to_string());

    let report = machine.reconcile(&PhpIniSettings::default(), &vec![hearth_target, herd_target]);
    assert!(matches!(outcome_for(&report, &owned_file), WriteOutcome::Deleted));
    assert!(!machine.files.contains_key(&owned_file));
    assert!(matches!(outcome_for(&report, &stranger), WriteOutcome::Refused { .. }));
    assert!(machine.files.contains_key(&stranger), "untracked file survives");
}

#[test]
fn stale_manifest_entry_dropped() {
    let mut machine = Machine::default();
    let dir = hearth_dir();
    let ini = simple_ini("8.4", "memory_limit", "2G");
    let targets = vec![target(&mut machine, PhpProvider::Hearth, "8.4", &dir)];
    machine.reconcile(&ini, &targets);

    // Channel disappears (user removed it) — file gone, entry stale.
    machine.files.clear();
    let report = machine.reconcile(&ini, &Vec::new());
    assert!(report.files.is_empty(), "{report:?}");
    assert!(
        machine.rows().is_empty(),
        "stale entry (file no longer exists) must be dropped"
    );
}

#[test]
fn stale_prune_sync_failure_appears_in_report() {
    let mut machine = Machine::default();
    let dir = hearth_dir();
    let ini = simple_ini("8.4", "memory_limit", "2G");
    let targets = vec![target(&mut machine, PhpProvider::Hearth, "8.4", &dir)];
    machine.reconcile(&ini, &targets);
    machine.files.clear();

    machine.fail_saves = true;
    let report = machine.reconcile(&ini, &Vec::new());
    machine.fail_saves = false;
    assert!(
        report.files.iter().any(
            |f| matches!(&f.outcome, WriteOutcome::Failed { error } if error.contains("stale"))
        ),
        "a non-durable stale prune must be reported, not silent: {report:?}"
    );

    // Retry removes the stale entry durably.
    let report = machine.reconcile(&ini, &Vec::new());
    assert!(report.files.is_empty(), "{report:?}");
    assert!(machine.rows().is_empty());
}

#[test]
fn refused_state_save_error_included_in_reason() {
    let mut machine = Machine {
        reject_dir: Some("group or other writable".to_string()),
        // Attempt 1 = pending journal (passes); attempt 2 = refusal recording.
        fail_save: Some(2),
        ..Machine::default()
    };
    let dir = format!("{BASE}/Herd/config/php/84");
    let targets = vec![target(&mut machine, PhpProvider::Herd, "8.4", &dir)];
    let report = machine.reconcile(&simple_ini("8.4", "memory_limit", "2G"), &targets);

    match outcome_for(&report, &channel_file(&dir)) {
        WriteOutcome::Refused { reason } => {
            assert!(reason.contains("channel blocked"), "{reason}");
            assert!(
                reason.contains("additionally"),
                "the failed state-recording save must not be lost: {reason}"
            );
        }
        other => panic!("expected Refused with appended save error, got {other:?}"),
    }
}

#[test]
fn failed_state_save_error_included_in_reason() {
    let mut machine = Machine {
        fail_channel: true,
        fail_save: Some(2),
        ..Machine::default()
    };
    let dir = hearth_dir();
    let targets = vec![target(&mut machine, PhpProvider::Hearth, "8.4", &dir)];
    let report = machine.reconcile(&simple_ini("8.4", "memory_limit", "2G"), &targets);

    match outcome_for(&report, &channel_file(&dir)) {
        WriteOutcome::Failed { error } => {
            assert!(
                error.contains("additionally"),
                "secondary persistence failure must be included: {error}"
            );
        }
        other => panic!("expected Failed, got {other:?}"),
    }
}

#[test]
fn busy_lock_touches_nothing() {
    let mut machine = Machine { busy: true, ..Machine::default() };
    let dir = hearth_dir();
    let targets = vec![target(&mut machine, PhpProvider::Hearth, "8.4", &dir)];
    let report = machine.reconcile(&simple_ini("8.4", "memory_limit", "2G"), &targets);
    assert_eq!(report.files.len(), 1);
    assert!(matches!(report.files[0].outcome, WriteOutcome::Failed { .. }));
    assert!(machine.files.is_empty());
    assert!(machine.manifest.is_none());
    assert!(machine.recover().is_err());
}

// ---- recovery ----

#[test]
fn crash_recovery_finalizes_matching_desired_hash() {
    let mut machine = Machine::default();
    let file = "/base/channel/zz-hearth.ini";
    let content = "; managed by hearth\nmemory_limit=2G\n";
    // Crash happened after rename, before manifest finalization.
    machine.files.insert(file.to_string(), content.to_string());
    let desired = sha256_hex(content.as_bytes());
    machine.manifest = Some(with_rows(vec![pending_row(file, None, Some(&desired))]));

    let actions = machine.recover().unwrap();
    assert_eq!(actions.len(), 1);
    assert!(matches!(actions[0].outcome, RecoveryOutcome::Finalized));
    let entry = &machine.rows()[0];
    assert_eq!(entry.state, EntryState::Applied);
    assert_eq!(entry.sha256, desired);
}

#[test]
fn crash_recovery_retries_matching_expected_old() {
    let mut machine = Machine::default();
    let file = "/base/channel/zz-hearth.ini";
    let old_content = "; managed by hearth\nmemory_limit=1G\n";
    // Crash happened before the rename: the old file is still in place.
    machine.files.insert(file.to_string(), old_content.to_string());
    let old = sha256_hex(old_content.as_bytes());
    let desired = sha256_hex(b"something newer");
    machine.manifest = Some(with_rows(vec![pending_row(file, Some(&old), Some(&desired))]));

    let actions = machine.recover().unwrap();
    assert!(matches!(actions[0].outcome, RecoveryOutcome::Retry));
    assert_eq!(
        machine.rows()[0].state,
        EntryState::Pending,
        "retryable entry stays journaled for the next reconcile"
    );
}

#[test]
fn crash_recovery_refuses_unknown_hash() {
    let mut machine = Machine::default();
    let file = "/base/channel/zz-hearth.ini";
    let foreign = "someone else's content\n";
    machine.files.insert(file.to_string(), foreign.to_string());
    machine.manifest = Some(with_rows(vec![pending_row(
        file,
        Some(&sha256_hex(b"old")),
        Some(&sha256_hex(b"new")),
    )]));

    let actions = machine.recover().unwrap();
    assert!(matches!(actions[0].outcome, RecoveryOutcome::Refused { .. }));
    assert_eq!(machine.files[file], foreign, "unknown content is never touched");
    assert_eq!(machine.rows()[0].last_outcome, LastOutcome::Refused);
    assert_eq!(machine.rows()[0].state, EntryState::Applied);
}

#[test]
fn unreadable_file_is_refused_throughout() {
    let mut machine = Machine::default();
    let dir = hearth_dir();
    let file = channel_file(&dir);
    let targets = vec![target(&mut machine, PhpProvider::Hearth, "8.4", &dir)];
    machine.unreadable.insert(file.clone());
    machine.files.insert(file.clone(), "locked away".to_string());

    // Neither written over without a row, nor with one, nor removed.
    let first = machine.reconcile(&simple_ini("8.4", "memory_limit", "2G"), &targets);
    match outcome_for(&first, &file) {
        WriteOutcome::Refused { reason } => {
            assert!(reason.contains(" exists but is not tracked by the Hearth manifest — "))
        }
        other => panic!("expected Refused, got {other:?}"),
    }
    let mut row = pending_row(&file, Some("aa"), Some("bb"));
    row.sha256 = "aa".to_string();
    machine.manifest = Some(with_rows(vec![row]));
    let second = machine.reconcile(&simple_ini("8.4", "memory_limit", "2G"), &targets);
    match outcome_for(&second, &file) {
        WriteOutcome::Refused { reason } => {
            assert!(reason.contains(" was modified outside Hearth — "))
        }
        other => panic!("expected Refused, got {other:?}"),
    }
    assert_eq!(machine.rows()[0].sha256, "aa", "the recorded hash is kept");
    let third = machine.reconcile(&PhpIniSettings::default(), &targets);
    assert!(matches!(outcome_for(&third, &file), WriteOutcome::Refused { .. }));
    assert_eq!(machine.files[&file], "locked away");
    assert!(machine.events.iter().all(|e| e == "save"));

    // An interrupted deletion whose file cannot be read keeps its row.
    machine.manifest = Some(with_rows(vec![pending_row(&file, Some("aa"), None)]));
    let actions = machine.recover().unwrap();
    assert!(matches!(actions[0].outcome, RecoveryOutcome::Refused { .. }));
    assert_eq!(machine.rows().len(), 1);
    assert_eq!(machine.rows()[0].last_outcome, LastOutcome::Refused);
}

#[test]
fn recovery_finalization_error_propagates() {
    let mut machine = Machine { fail_saves: true, ..Machine::default() };
    let file = "/base/channel/zz-hearth.ini";
    let desired_content = "; managed by hearth\nmemory_limit=2G\n";
    machine.files.insert(file.to_string(), desired_content.to_string());
    machine.manifest = Some(with_rows(vec![pending_row(
        file,
        None,
        Some(&sha256_hex(desired_content.as_bytes())),
    )]));
    assert!(
        machine.recover().is_err(),
        "recovery finalization save failure must propagate"
    );

    // Clean retry converges: disk exposes pending (rename not landed —
    // recovery finalizes) or applied (rename landed — nothing pending).
    machine.fail_saves = false;
    let actions = machine.recover().unwrap();
    assert!(
        actions.is_empty() || matches!(actions[0].outcome, RecoveryOutcome::Finalized),
        "{actions:?}"
    );
    assert_eq!(machine.rows()[0].state, EntryState::Applied);
}

#[test]
fn unmanage_resolves_journal_then_removes_only_tracked() {
    let mut machine = Machine::default();
    let dir_a = hearth_dir();
    let dir_b = format!("{BASE}/Herd/config/php/85");
    let targets = vec![target(&mut machine, PhpProvider::Hearth, "8.4", &dir_a)];
    machine.reconcile(&simple_ini("8.4", "memory_limit", "2G"), &targets);
    let owned_file = channel_file(&dir_a);

    // Journaled-but-unfinalized file (crash after rename).
    let pending_file = channel_file(&dir_b);
    let pending_content = "; managed by hearth\nmemory_limit=3G\n";
    machine.files.insert(pending_file.clone(), pending_content.to_string());
    let mut rows = machine.rows();
    rows.push(pending_row(
        &pending_file,
        None,
        Some(&sha256_hex(pending_content.as_bytes())),
    ));
    machine.manifest = Some(with_rows(rows));

    // Modified (no longer hash-matching) file of a row must survive.
    machine.files.insert(owned_file.clone(), "user edited this\n".to_string());

    let actions = machine.unmanage().unwrap();

    assert!(!machine.files.contains_key(&pending_file), "journal-resolved file removed");
    assert!(machine.files.contains_key(&owned_file), "hash-mismatched file survives");
    assert!(actions
        .iter()
        .any(|a| a.path == pending_file && matches!(a.outcome, WriteOutcome::Deleted)));
    assert!(actions
        .iter()
        .any(|a| a.path == owned_file && matches!(a.outcome, WriteOutcome::Refused { .. })));
}

// ---- migration ----

const LEGACY: &str = "/base/php/8.4/php.ini";

/// A config file and legacy INI files, in memory.
#[derive(Default)]
struct Legacy {
    files: BTreeMap<String, String>,
    /// The store as it was last saved.
    saved: Option<PhpIniSettings>,
    fail_save: bool,
    fail_rename: bool,
    events: Vec<String>,
}

fn legacy(content: &str) -> Legacy {
    let mut disk = Legacy::default();
    disk.files.insert(LEGACY.to_string(), content.to_string());
    disk
}

impl Legacy {
    fn migrate(&mut self, store: &mut PhpIniSettings) -> Result<MigrationReport, String> {
        let files: Vec<LegacyFile> = self
            .files
            .iter()
            .filter(|(path, _)| path.ends_with("/php.ini"))
            .map(|(path, content)| LegacyFile {
                version: path.split('/').nth(3).unwrap().to_string(),
                path: path.clone(),
                input: Ok(content.clone()),
            })
            .collect();
        let mut run = migrate_legacy_inis(store.dup(), &files);
        while !run.is_done() {
            let reply = match (&run.stage, run.retirement()) {
                (MigrationStage::Saving { .. }, _) => {
                    self.events.push("save".to_string());
                    MigrationReply::Did(if self.fail_save {
                        Err("not a directory".to_string())
                    } else {
                        self.saved = Some(run.store.dup());
                        Ok(())
                    })
                }
                (MigrationStage::Retiring { .. }, Some((_, backup))) => {
                    MigrationReply::Taken(self.files.contains_key(&backup))
                }
                (MigrationStage::Renaming { .. }, Some((from, to))) => {
                    self.events.push(format!("rename:{to}"));
                    MigrationReply::Did(if self.fail_rename {
                        Err("permission denied".to_string())
                    } else {
                        let content = self.files.remove(&from).unwrap();
                        self.files.insert(to, content);
                        Ok(())
                    })
                }
                (stage, _) => panic!("nothing to retire at {}", matches!(stage, MigrationStage::Done { .. })),
            };
            run.step(reply);
        }
        let (after, result) = run.into_result();
        *store = after;
        result
    }

    fn has(&self, path: &str) -> bool {
        self.files.contains_key(path)
    }
}

fn imported(ini: &PhpIniSettings) -> Option<String> {
    ini.overrides
        .get("8.4")
        .and_then(|own| own.get("memory_limit"))
        .cloned()
}

#[test]
fn migration_imports_legacy_ini_through_ini_guard() {
    let mut disk = legacy("[php]\nmemory_limit=1G\nextension=evil.so\n");
    let mut ini = PhpIniSettings::default();
    let report = disk.migrate(&mut ini).unwrap();
    assert_eq!(imported(&ini).as_deref(), Some("1G"));
    assert!(
        !ini.overrides.get("8.4").unwrap().contains_key("extension"),
        "denied directive must not be imported"
    );
    assert_eq!(report.imported, [("8.4".to_string(), "memory_limit".to_string())]);
    assert_eq!(report.skipped.len(), 1);
    assert_eq!(report.skipped[0].key, "extension");
    assert_eq!(report.migrated_files, [LEGACY]);
    assert!(
        disk.has("/base/php/8.4/php.ini.migrated.bak"),
        "legacy file renamed to backup"
    );
    assert!(!disk.has(LEGACY));
    assert!(disk.saved.unwrap().same(&ini), "config persisted");
}

#[test]
fn migration_backup_no_clobber() {
    let mut disk = legacy("[php]\nmemory_limit=1G\n");
    // A previous backup already exists.
    let backup = "/base/php/8.4/php.ini.migrated.bak";
    disk.files.insert(backup.to_string(), "old backup".to_string());
    let mut ini = PhpIniSettings::default();
    disk.migrate(&mut ini).unwrap();
    assert_eq!(disk.files[backup], "old backup", "existing backup must not be clobbered");
    assert!(disk.has("/base/php/8.4/php.ini.migrated.bak.1"));

    // The first free name is taken, not the first after the last.
    let mut disk = legacy("[php]\nmemory_limit=1G\n");
    for taken in [backup.to_string(), format!("{backup}.1"), format!("{backup}.3")] {
        disk.files.insert(taken, "old backup".to_string());
    }
    disk.migrate(&mut PhpIniSettings::default()).unwrap();
    assert_eq!(disk.files[&format!("{backup}.2")], "[php]\nmemory_limit=1G\n");
    assert_eq!(backup_path(LEGACY, 0), backup);
    assert_eq!(backup_path(LEGACY, 2), format!("{backup}.2"));
}

#[test]
fn migration_idempotent_second_run_noop() {
    let mut disk = legacy("[php]\nmemory_limit=1G\n");
    let mut ini = PhpIniSettings::default();
    let first = disk.migrate(&mut ini).unwrap();
    assert_eq!(first.migrated_files.len(), 1);

    // Override the imported value — the second run must not resurrect 1G.
    let mut own: StrMap<String> = StrMap::new();
    own.insert("memory_limit".to_string(), "4G".to_string());
    ini.overrides.insert("8.4".to_string(), own);

    let second = disk.migrate(&mut ini).unwrap();
    assert!(second.migrated_files.is_empty(), "{second:?}");
    assert!(second.skipped.is_empty());
    assert_eq!(imported(&ini).as_deref(), Some("4G"), "second run must be a no-op");

    // Nor does a file that is still there.
    disk.files.insert(LEGACY.to_string(), "[php]\nmemory_limit=1G\n".to_string());
    disk.events.clear();
    disk.migrate(&mut ini).unwrap();
    assert_eq!(imported(&ini).as_deref(), Some("4G"));
    assert!(!disk.events.contains(&"save".to_string()), "{:?}", disk.events);
}

#[test]
fn migration_save_failure_leaves_legacy_source_intact() {
    let mut disk = legacy("[php]\nmemory_limit=1G\n");
    disk.fail_save = true;
    let mut ini = PhpIniSettings::default();
    let error = disk.migrate(&mut ini).unwrap_err();
    assert_eq!(error, "not a directory", "save failure must surface as an error");

    // The only automatic import source must be untouched — no rename, no
    // backup, so a restart can still discover and import it.
    assert!(disk.has(LEGACY));
    assert!(!disk.has("/base/php/8.4/php.ini.migrated.bak"));
    assert!(
        ini.overrides.is_empty(),
        "failed migration must not leave staged imports in the in-memory config"
    );

    // A fresh/restarted migration must succeed and import the value.
    disk.fail_save = false;
    let mut fresh = PhpIniSettings::default();
    let report = disk.migrate(&mut fresh).unwrap();
    assert_eq!(report.migrated_files.len(), 1);
    assert_eq!(imported(&fresh).as_deref(), Some("1G"));
    assert!(disk.saved.is_some());
    assert!(!disk.has(LEGACY));
    assert!(disk.has("/base/php/8.4/php.ini.migrated.bak"));
}

#[test]
fn config_sync_failure_prevents_legacy_rename() {
    let mut disk = legacy("[php]\nmemory_limit=1G\n");
    disk.fail_save = true;
    let result = disk.migrate(&mut PhpIniSettings::default());
    assert!(result.is_err(), "config barrier failure must propagate");
    assert!(
        disk.has(LEGACY),
        "legacy source must be untouched when the canonical config is not durable"
    );
    assert_eq!(disk.events, ["save"]);
}

#[test]
fn store_is_saved_before_the_legacy_file_is_renamed() {
    let mut disk = legacy("[php]\nmemory_limit=1G\n");
    disk.migrate(&mut PhpIniSettings::default()).unwrap();
    assert_eq!(disk.events, ["save", "rename:/base/php/8.4/php.ini.migrated.bak"]);

    // A rename that fails is an error; what was saved stays.
    let mut disk = legacy("[php]\nmemory_limit=1G\n");
    disk.fail_rename = true;
    let mut ini = PhpIniSettings::default();
    assert_eq!(disk.migrate(&mut ini).unwrap_err(), "permission denied");
    assert_eq!(imported(&ini).as_deref(), Some("1G"));
}

#[test]
fn unparseable_legacy_file_is_reported_and_stays() {
    let mut ini = PhpIniSettings::default();
    let run = migrate_legacy_inis(
        ini.dup(),
        &vec![LegacyFile {
            version: "8.4".to_string(),
            path: LEGACY.to_string(),
            input: Err("denied".to_string()),
        }],
    );
    assert!(run.to_retire.is_empty());
    let report = run.into_result().1.unwrap();
    assert_eq!(report.skipped.len(), 1);
    assert_eq!(
        report.skipped[0].reason,
        "unparseable legacy INI /base/php/8.4/php.ini: couldn't read /base/php/8.4/php.ini: denied"
    );

    let mut disk = legacy("[php\nmemory_limit=1G\n");
    let report = disk.migrate(&mut ini).unwrap();
    assert_eq!(report.skipped.len(), 1);
    assert!(disk.has(LEGACY));
    assert!(disk.events.is_empty());
}

// ---- isolation and durability ----

#[test]
fn partial_failure_isolated() {
    let mut machine = Machine::default();
    let good = hearth_dir();
    let bad = format!("{BASE}/Herd/config/php/84");
    let ini = simple_ini("8.4", "memory_limit", "2G");
    let targets = vec![
        target(&mut machine, PhpProvider::Herd, "8.4", &bad),
        target(&mut machine, PhpProvider::Hearth, "8.4", &good),
    ];
    machine.readonly_dir = Some(bad.clone());
    let report = machine.reconcile(&ini, &targets);
    assert!(matches!(
        outcome_for(&report, &channel_file(&bad)),
        WriteOutcome::Failed { .. }
    ));
    assert!(
        matches!(outcome_for(&report, &channel_file(&good)), WriteOutcome::Written),
        "one channel's failure must not abort the other: {report:?}"
    );
}

#[test]
fn pending_manifest_sync_failure_prevents_channel_mutation() {
    let mut machine = Machine::default();
    let dir = hearth_dir();
    let targets = vec![target(&mut machine, PhpProvider::Hearth, "8.4", &dir)];
    machine.fail_saves = true;
    let report = machine.reconcile(&simple_ini("8.4", "memory_limit", "2G"), &targets);
    let file = channel_file(&dir);
    assert!(
        matches!(outcome_for(&report, &file), WriteOutcome::Failed { .. }),
        "{report:?}"
    );
    assert!(
        !machine.files.contains_key(&file),
        "channel must not be mutated when the pending journal is not durable"
    );
    assert!(
        !machine.events.iter().any(|e| e.starts_with("write:")),
        "no channel write may precede a durable pending journal: {:?}",
        machine.events
    );
}

#[test]
fn channel_sync_failure_leaves_recoverable_pending_state() {
    let mut machine = Machine::default();
    let dir = hearth_dir();
    let targets = vec![target(&mut machine, PhpProvider::Hearth, "8.4", &dir)];
    let ini = simple_ini("8.4", "memory_limit", "2G");
    machine.fail_channel = true;
    let report = machine.reconcile(&ini, &targets);
    let file = channel_file(&dir);
    assert!(
        matches!(outcome_for(&report, &file), WriteOutcome::Failed { .. }),
        "channel dir sync failure must be a typed failure: {report:?}"
    );
    assert_eq!(machine.rows()[0].state, EntryState::Pending);
    assert_eq!(machine.rows()[0].last_outcome, LastOutcome::Failed);

    // The content landed, so recovery finalizes the row.
    machine.fail_channel = false;
    let actions = machine.recover().unwrap();
    assert!(matches!(actions[0].outcome, RecoveryOutcome::Finalized));
    assert_eq!(machine.rows()[0].state, EntryState::Applied);
}

#[test]
fn missing_file_cleanup_sync_failure_appears_in_report() {
    let mut machine = Machine::default();
    let dir = hearth_dir();
    let targets = vec![target(&mut machine, PhpProvider::Hearth, "8.4", &dir)];
    machine.reconcile(&simple_ini("8.4", "memory_limit", "2G"), &targets);
    let file = channel_file(&dir);
    machine.files.remove(&file);

    // Delete flow, file already gone: ownership cleanup save fails.
    machine.fail_saves = true;
    let report = machine.reconcile(&PhpIniSettings::default(), &targets);
    assert!(
        matches!(outcome_for(&report, &file), WriteOutcome::Failed { .. }),
        "non-durable missing-file cleanup must be reported: {report:?}"
    );

    // Clean retry converges from whichever state disk exposes.
    machine.fail_saves = false;
    let report = machine.reconcile(&PhpIniSettings::default(), &targets);
    assert!(report.files.is_empty(), "{report:?}");
    assert!(machine.rows().is_empty());
}

#[test]
fn write_fails_typed_when_dir_disappears_after_classification_no_recreation() {
    let mut machine = Machine::default();
    let dir = hearth_dir();
    let targets = vec![target(&mut machine, PhpProvider::Hearth, "8.4", &dir)];
    machine.dirs.clear();
    let report = machine.reconcile(&simple_ini("8.4", "memory_limit", "2G"), &targets);
    match outcome_for(&report, &channel_file(&dir)) {
        WriteOutcome::Failed { error } => {
            assert!(error.contains("disappeared after classification"), "{error}");
        }
        other => panic!("unexpected {other:?}"),
    }
    assert!(machine.files.is_empty());
}

#[test]
fn write_refused_when_ancestor_substituted_by_symlink_zero_outside_mutation() {
    let mut machine = Machine::default();
    let dir = hearth_dir();
    let targets = vec![target(&mut machine, PhpProvider::Hearth, "8.4", &dir)];
    machine.reject_dir = Some("contains a symlinked path component".to_string());
    let report = machine.reconcile(&simple_ini("8.4", "memory_limit", "2G"), &targets);
    match outcome_for(&report, &channel_file(&dir)) {
        WriteOutcome::Refused { reason } => {
            assert_eq!(reason, "channel blocked: contains a symlinked path component");
        }
        other => panic!("unexpected {other:?}"),
    }
    assert!(machine.files.is_empty());
    assert_eq!(machine.rows()[0].last_outcome, LastOutcome::Refused);
}
