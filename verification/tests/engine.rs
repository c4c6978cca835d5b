use std::collections::BTreeMap;

use hearth_lib::config::PhpIniSettings;
use hearth_lib::fs::{FileMeta, IoFault, PathFacts, Snapshot};
use hearth_lib::php::artifact::{DirIdentity, Reply};
use hearth_lib::php::batch::Task;
use hearth_lib::php::engine::{
    fpm_launch_blocked_reason, require_reconciled, restart_fpm_conditionally, restart_report,
    switch_php_version, EngineReply, EngineRun, EngineStage, PhpConfigEngine, RestartChoice,
    SwitchReply, SwitchStage, World, EXTERNAL_FPM_COVERAGE,
};
use hearth_lib::php::fpm::{
    conf_path, fpm_manifest_path, load_fpm_manifest_strict, materialize_report,
    materialize_with_options, probe_script_path, recover_pending_fpm, render_fpm_conf_v,
    unmanage_fpm, FpmConfState, MaterializeReport,
};
use hearth_lib::php::lock::LockError;
use hearth_lib::php::manifest::{EntryState, LastOutcome, Manifest, ManifestEntry, WriteOutcome};
use hearth_lib::php::migration::{
    migrate_legacy_inis, LegacyFile, MigrationReply, MigrationStage,
};
use hearth_lib::php::reconcile::{
    reconcile, recover_pending, recovery_result, sha256_hex, unmanage, unmanage_result, FileAction,
    CHANNEL_FILE_NAME,
};
use hearth_lib::php::recovery::Seen;
use hearth_lib::php::resolver::{resolve_php_binary, resolve_phpfpm_binary};
use hearth_lib::php::rows::{FpmFacts, LaunchProbe};
use hearth_lib::php::targets::{
    created_channel_dir, ensure_hearth_channel_dir, probe_scan_dirs, verify_user_channel,
    ProbeInfo, ProviderRoots,
};
use hearth_lib::php::txn::{TxnReply, TxnRun, TxnStage};
use hearth_lib::service::managed::{
    FpmLaunchConf, ManagedService, Signalled, StopReply, StopStage, Waited,
};
use hearth_lib::service::manager::hearth_fpm_service;
use hearth_lib::service::supervisor::{
    FpmOwnership, FpmReplaceOutcome, ReplaceStage, RestartStage, ServiceSupervisor, SupReply,
};
use hearth_lib::service::{ServiceKind, ServiceState};
use hearth_lib::socket::{
    FileOutcome, FileWriteResult, FpmRestartOutcome, PhpConfigAction, PhpConfigOutcome, PhpScope,
    PhpTargetRow,
};

/// A file tree in memory, of which snapshots are taken.
#[derive(Default)]
struct Tree {
    nodes: BTreeMap<String, Node>,
    inodes: u64,
}

#[derive(Clone)]
enum Node {
    Dir { mode: u32, uid: u32, ino: u64 },
    File { mode: u32, ino: u64, content: String },
    Link(String),
}

const EUID: u32 = 501;

impl Tree {
    fn new() -> Self {
        let mut tree = Tree::default();
        tree.nodes.insert(
            "/".to_string(),
            Node::Dir { mode: 0o755, uid: 0, ino: 1 },
        );
        tree.inodes = 1;
        tree
    }

    fn dir(&mut self, path: &str) -> &mut Self {
        self.dir_as(path, 0o755, EUID)
    }

    fn dir_as(&mut self, path: &str, mode: u32, uid: u32) -> &mut Self {
        for (i, _) in path.match_indices('/').skip(1) {
            let up = path[..i].to_string();
            if !self.nodes.contains_key(&up) {
                self.inodes += 1;
                let ino = self.inodes;
                self.nodes.insert(up, Node::Dir { mode: 0o755, uid: EUID, ino });
            }
        }
        self.inodes += 1;
        let ino = self.inodes;
        self.nodes.insert(path.to_string(), Node::Dir { mode, uid, ino });
        self
    }

    fn file(&mut self, path: &str, mode: u32, content: &str) -> &mut Self {
        let up = path.rfind('/').unwrap();
        if !self.nodes.contains_key(&path[..up]) {
            self.dir(&path[..up].to_string());
        }
        self.inodes += 1;
        let ino = self.inodes;
        self.nodes.insert(
            path.to_string(),
            Node::File { mode, ino, content: content.to_string() },
        );
        self
    }

    fn exec(&mut self, path: &str) -> &mut Self {
        self.file(path, 0o755, "#!/bin/sh\nexit 0\n")
    }

    fn link(&mut self, path: &str, to: &str) -> &mut Self {
        let up = path.rfind('/').unwrap();
        if up > 0 && !self.nodes.contains_key(&path[..up]) {
            self.dir(&path[..up].to_string());
        }
        self.nodes.insert(path.to_string(), Node::Link(to.to_string()));
        self
    }

    /// The path without symbolic links, if everything on it is there.
    fn resolve(&self, path: &str, follow_last: bool) -> Option<String> {
        let mut at = String::new();
        let parts: Vec<&str> = path.split('/').filter(|p| !p.is_empty()).collect();
        for (i, part) in parts.iter().enumerate() {
            let next = format!("{at}/{part}");
            match self.nodes.get(&next) {
                None => return None,
                Some(Node::Link(to)) if follow_last || i + 1 < parts.len() => {
                    let target = self.resolve(to, true)?;
                    at = if target == "/" { String::new() } else { target };
                }
                Some(_) => at = next,
            }
        }
        Some(if at.is_empty() { "/".to_string() } else { at })
    }

    fn meta(&self, node: &Node) -> FileMeta {
        let (is_dir, is_file, is_symlink, mode, uid, ino) = match node {
            Node::Dir { mode, uid, ino } => (true, false, false, *mode, *uid, *ino),
            Node::File { mode, ino, .. } => (false, true, false, *mode, EUID, *ino),
            Node::Link(_) => (false, false, true, 0o777, EUID, 0),
        };
        FileMeta { is_symlink, is_dir, is_file, uid, mode, dev: 1, ino, nlink: 1, len: 0 }
    }

    fn look(&self, path: &str) -> PathFacts {
        let missing = "No such file or directory (os error 2)".to_string();
        let target = self.resolve(path, true);
        let found = target.as_ref().and_then(|t| self.nodes.get(t));
        let own = self.resolve(path, false).and_then(|t| self.nodes.get(&t).cloned());
        PathFacts {
            exists: found.is_some(),
            link: match own {
                Some(n) => Ok(self.meta(&n)),
                None => Err(IoFault { not_found: true, text: missing.clone() }),
            },
            canonical: target.clone().ok_or(missing.clone()),
            target: found.map(|n| self.meta(n)).ok_or(missing.clone()),
            hash: match found {
                Some(Node::File { content, .. }) => Ok(sha256_hex(content.as_bytes())),
                _ => Err(missing),
            },
        }
    }

    /// A snapshot of everything that is there, and of these paths with what
    /// lies above them.
    fn snapshot(&self, looks: &[&str]) -> Snapshot {
        let mut disk = Snapshot::new(EUID);
        let mut paths: Vec<String> = self.nodes.keys().cloned().collect();
        for look in looks {
            for (i, _) in look.match_indices('/').skip(1) {
                paths.push(look[..i].to_string());
            }
            paths.push(look.to_string());
        }
        for path in paths {
            let facts = self.look(&path);
            disk.record(path, facts);
        }
        disk
    }
}

const CONFIG: &str = "/base/hearth config"; // path with a space

/// What an executed binary answers.
#[derive(Clone, Default)]
struct Answers {
    scan_dir: Option<String>,
    normal: Option<String>,
    sanitized: Option<String>,
}

/// Which of the two manifests a transaction is on.
#[derive(Clone, Copy, PartialEq)]
enum Book {
    Ini,
    Fpm,
}

/// The whole machine, in memory.
struct Fixture {
    tree: Tree,
    engine: PhpConfigEngine,
    roots: ProviderRoots,
    ini_manifest: Option<Manifest>,
    fpm_manifest: Option<Manifest>,
    store: PhpIniSettings,
    default_php: String,
    /// The store and default version as they were last saved.
    saved: Option<(PhpIniSettings, String)>,
    fail_save: bool,
    ownership: FpmOwnership,
    /// When the running FPM was started.
    started_at: Option<u64>,
    answers: BTreeMap<String, Answers>,
    executed: Vec<String>,
    busy: bool,
    clock: u64,
    /// Stop before the first write of a batch.
    crash_before_write: bool,
    /// Stop before the manifest file is removed.
    crash_before_unlink: bool,
    crashed: bool,
}

fn fixture_with(ownership: FpmOwnership) -> Fixture {
    let mut tree = Tree::new();
    tree.dir(CONFIG);
    let roots = ProviderRoots::isolated(
        "/base",
        CONFIG.to_string(),
        "/base/herd".to_string(),
        "/base/homebrew".to_string(),
        &tree.snapshot(&["/base/herd", "/base/homebrew"]),
    )
    .unwrap();
    let engine = PhpConfigEngine::new(
        "/base/config.toml".to_string(),
        CONFIG.to_string(),
        roots.clone(),
        50,
    );
    Fixture {
        tree,
        engine,
        roots,
        ini_manifest: None,
        fpm_manifest: None,
        store: PhpIniSettings::default(),
        default_php: "8.4".to_string(),
        saved: None,
        fail_save: false,
        ownership,
        started_at: None,
        answers: BTreeMap::new(),
        executed: Vec::new(),
        busy: false,
        clock: 1_700_000_000_000,
        crash_before_write: false,
        crash_before_unlink: false,
        crashed: false,
    }
}

fn fixture(herd: bool) -> Fixture {
    fixture_with(if herd { FpmOwnership::Owned } else { FpmOwnership::Unowned })
}

impl Fixture {
    fn disk(&self) -> Snapshot {
        let mut looks: Vec<String> = vec![
            format!("{CONFIG}/php"),
            format!("{CONFIG}/fpm"),
            "/base/herd".to_string(),
            "/base/homebrew".to_string(),
        ];
        for v in ["8.1", "8.2", "8.3", "8.4", "8.5"] {
            looks.push(format!("{CONFIG}/php/{v}/conf.d"));
            looks.push(format!("{CONFIG}/php/{v}/php"));
            looks.push(format!("{CONFIG}/php/{v}/php-fpm"));
        }
        let refs: Vec<&str> = looks.iter().map(String::as_str).collect();
        self.tree.snapshot(&refs)
    }

    fn write(&mut self, path: &str, content: &str) {
        self.tree.file(path, 0o600, content);
    }

    fn read(&self, path: &str) -> Option<String> {
        match self.tree.nodes.get(path) {
            Some(Node::File { content, .. }) => Some(content.clone()),
            _ => None,
        }
    }

    fn hash(&self, path: &str) -> Option<String> {
        self.read(path).map(|c| sha256_hex(c.as_bytes()))
    }

    fn book(&self, book: Book) -> Option<Manifest> {
        match book {
            Book::Ini => self.ini_manifest.clone(),
            Book::Fpm => self.fpm_manifest.clone(),
        }
    }

    fn keep(&mut self, book: Book, m: Option<Manifest>) {
        match book {
            Book::Ini => self.ini_manifest = m,
            Book::Fpm => {
                let file = fpm_manifest_path(CONFIG);
                if m.is_some() {
                    self.write(&file, "manifest");
                } else {
                    self.tree.nodes.remove(&file);
                }
                self.fpm_manifest = m;
            }
        }
    }

    fn task(&mut self, book: Book, task: Task, m: &Manifest) -> Reply {
        match task {
            Task::Hash { path } => Reply::Hash(self.hash(&path)),
            Task::Save => {
                self.keep(book, Some(m.clone()));
                Reply::Did(Ok(()))
            }
            Task::FindDir { dir } => Reply::Present(self.tree.nodes.contains_key(&dir)),
            Task::VerifyDir { dir } => Reply::Identity(
                verify_user_channel(&dir, &self.roots.allowed_prefixes(), &self.disk())
                    .map(|v| DirIdentity { dev: v.dev, ino: v.ino })
                    .map_err(|e| e.message()),
            ),
            Task::Write { path, content, mode, .. } => {
                let up = path[..path.rfind('/').unwrap()].to_string();
                if let Some(Node::Dir { mode, .. }) = self.tree.nodes.get(&up) {
                    if *mode & 0o200 == 0 {
                        return Reply::Did(Err("permission denied".to_string()));
                    }
                }
                self.tree.file(&path, mode, &content);
                Reply::Did(Ok(()))
            }
            Task::RecheckDir { .. } => Reply::Did(Ok(())),
            Task::Clock => {
                self.clock += 1;
                Reply::Clock(Some(self.clock))
            }
            Task::Unlink { path } => {
                self.tree.nodes.remove(&path);
                Reply::Did(Ok(()))
            }
            Task::Nothing => panic!("a batch at work has a task"),
        }
    }

    fn drive(&mut self, book: Book, mut run: TxnRun) -> TxnRun {
        loop {
            let reply = match &run.stage {
                TxnStage::Acquire => TxnReply::Lock(if self.busy {
                    Err(LockError::Busy { manifest_dir: CONFIG.to_string(), waited_ms: 100 })
                } else {
                    Ok(())
                }),
                TxnStage::CheckLocked
                | TxnStage::CheckLoaded
                | TxnStage::CheckRecovered
                | TxnStage::CheckWorked
                | TxnStage::CheckFinal => TxnReply::Lock(Ok(())),
                TxnStage::Load => TxnReply::Loaded(match book {
                    Book::Ini => Ok(self.book(book).unwrap_or_else(Manifest::empty)),
                    Book::Fpm => load_fpm_manifest_strict(
                        CONFIG,
                        &self.disk(),
                        Ok(self.book(book).unwrap_or_else(Manifest::empty)),
                    )
                    .map(|m| m.unwrap_or_else(Manifest::empty)),
                }),
                TxnStage::Observe => TxnReply::Observed(
                    run.manifest
                        .files
                        .iter()
                        .map(|e| Seen {
                            sha256: self.hash(&e.path),
                            unreadable: false,
                            unix_ms: Some(self.clock),
                        })
                        .collect(),
                ),
                TxnStage::SaveRecovered | TxnStage::SavePruned | TxnStage::SaveFinal => {
                    let m = run.manifest.clone();
                    self.keep(book, Some(m));
                    TxnReply::Did(Ok(()))
                }
                TxnStage::Preflight => TxnReply::Looked(self.disk()),
                TxnStage::Work => {
                    let task = run.batch.task();
                    if self.crash_before_write && matches!(task, Task::Write { .. }) {
                        self.crashed = true;
                        return run;
                    }
                    let m = run.manifest.clone();
                    TxnReply::Artifact(self.task(book, task, &m))
                }
                TxnStage::Prune => TxnReply::Existing(
                    run.manifest
                        .files
                        .iter()
                        .map(|e| self.tree.nodes.contains_key(&e.path))
                        .collect(),
                ),
                TxnStage::FindManifest => TxnReply::Found(self.book(book).is_some()),
                TxnStage::UnlinkManifest => {
                    if self.crash_before_unlink {
                        self.crashed = true;
                        return run;
                    }
                    self.keep(book, None);
                    TxnReply::Did(Ok(()))
                }
                TxnStage::Done | TxnStage::Failed { .. } => return run,
            };
            run = run.step(reply);
        }
    }

    fn conf_state(&self) -> FpmConfState {
        self.engine.fpm_conf_state(
            &self.disk(),
            Ok(self.fpm_manifest.clone().unwrap_or_else(Manifest::empty)),
        )
    }

    fn world(&self) -> World {
        let disk = self.disk();
        World {
            fpm: FpmFacts {
                ownership: self.ownership.clone(),
                conf: self.conf_state(),
                binary: resolve_phpfpm_binary(&self.default_php, CONFIG, None, &disk),
                started_at: self.started_at,
            },
            disk,
            manifest: self.ini_manifest.clone().unwrap_or_else(Manifest::empty),
        }
    }

    fn materialize_v(&mut self, version: u32) -> MaterializeReport {
        for dir in ["fpm", "run", "log"] {
            let dir = format!("{CONFIG}/{dir}");
            if !self.tree.nodes.contains_key(&dir) {
                self.tree.dir_as(&dir, 0o700, EUID);
            }
        }
        match materialize_with_options(CONFIG, version) {
            Err(report) => report,
            Ok(run) => {
                let run = self.drive(Book::Fpm, run);
                materialize_report(&run, self.conf_state())
            }
        }
    }

    fn materialize(&mut self) -> MaterializeReport {
        self.materialize_v(1)
    }

    fn unmanage_fpm(&mut self) -> Result<Vec<FileAction>, String> {
        match unmanage_fpm(CONFIG, &self.disk()) {
            None => Ok(Vec::new()),
            Some(run) => {
                let run = self.drive(Book::Fpm, run);
                if self.crashed {
                    return Err("crashed".to_string());
                }
                unmanage_result(run)
            }
        }
    }

    fn create_channel(&mut self, dir: &str) -> Result<(), String> {
        let root =
            ensure_hearth_channel_dir(CONFIG, dir, &self.disk()).map_err(|e| e.message())?;
        let up = dir[..dir.rfind('/').unwrap()].to_string();
        let made = match self.tree.nodes.get(&up) {
            Some(Node::Dir { mode, .. }) if *mode & 0o200 == 0 => Err("EACCES".to_string()),
            _ => {
                self.tree.dir(dir);
                Ok(())
            }
        };
        created_channel_dir(dir, &root, made, &self.disk())
            .map(|_| ())
            .map_err(|e| e.message())
    }

    fn probe(&mut self, binary: &str) -> ProbeInfo {
        self.executed.push(binary.to_string());
        let a = self.answers.get(binary).cloned().unwrap_or_default();
        let out = match a.scan_dir {
            Some(d) => format!("Scan for additional .ini files in: {d}\n"),
            None => String::new(),
        };
        probe_scan_dirs(true, Ok(out.clone()), Ok(out), Ok(false))
    }

    fn run(&mut self, mut run: EngineRun) -> Result<PhpConfigOutcome, String> {
        while !run.is_done() {
            let reply = match &run.stage {
                EngineStage::Saving { .. } => {
                    if self.fail_save {
                        EngineReply::Did(Err("disk full".to_string()))
                    } else {
                        self.saved = Some((run.store.dup(), run.default_php.clone()));
                        EngineReply::Did(Ok(()))
                    }
                }
                EngineStage::Guarding => {
                    EngineReply::Did(self.create_channel(&format!("{CONFIG}/php")))
                }
                EngineStage::RecoveringIni => {
                    let txn = self.drive(Book::Ini, recover_pending());
                    EngineReply::Did(recovery_result(txn).map(|_| ()))
                }
                EngineStage::RecoveringFpm => {
                    EngineReply::Did(match recover_pending_fpm(CONFIG, &self.disk()) {
                        None => Ok(()),
                        Some(txn) => recovery_result(self.drive(Book::Fpm, txn)).map(|_| ()),
                    })
                }
                EngineStage::Migrating => {
                    let files: Vec<LegacyFile> = ["8.1", "8.2", "8.3", "8.4", "8.5"]
                        .iter()
                        .filter_map(|v| {
                            let path = format!("{CONFIG}/php/{v}/php.ini");
                            self.read(&path).map(|text| LegacyFile {
                                version: v.to_string(),
                                path,
                                input: Ok(text),
                            })
                        })
                        .collect();
                    let mut migration = migrate_legacy_inis(run.store.dup(), &files);
                    while !migration.is_done() {
                        let reply = match (&migration.stage, migration.retirement()) {
                            (MigrationStage::Retiring { .. }, Some((_, to))) => {
                                MigrationReply::Taken(self.read(&to).is_some())
                            }
                            (MigrationStage::Renaming { .. }, Some((from, to))) => {
                                let content = self.read(&from).unwrap();
                                self.tree.nodes.remove(&from);
                                self.write(&to, &content);
                                MigrationReply::Did(Ok(()))
                            }
                            _ => MigrationReply::Did(Ok(())),
                        };
                        migration.step(reply);
                    }
                    let (store, result) = migration.into_result();
                    EngineReply::Migrated(result.map(|_| store))
                }
                EngineStage::Creating { dirs, at } => {
                    let dir = dirs[*at].clone();
                    EngineReply::Did(self.create_channel(&dir))
                }
                EngineStage::Probing { at } => {
                    let binary = run.ids[*at].binary.clone();
                    EngineReply::Probed(self.probe(&binary))
                }
                EngineStage::Reconciling => {
                    let mut rec = reconcile(&run.store, &run.targets);
                    rec.txn = self.drive(Book::Ini, rec.txn);
                    EngineReply::Reconciled(rec.report(&self.engine.manifest_path()))
                }
                EngineStage::Materializing => EngineReply::Materialized(self.materialize()),
                EngineStage::Observing { at } => EngineReply::Observed(match &run.probes[*at] {
                    LaunchProbe::Cli { target, normal } => {
                        let binary = run.targets[*target].id.binary.clone();
                        self.executed.push(binary.clone());
                        let a = self.answers.get(&binary).cloned().unwrap_or_default();
                        if *normal { a.normal } else { a.sanitized }
                    }
                    LaunchProbe::Fpm { binary } => {
                        self.executed.push(binary.clone());
                        self.answers.get(binary).cloned().unwrap_or_default().normal
                    }
                }),
                EngineStage::RemovingIni => {
                    let txn = self.drive(Book::Ini, unmanage());
                    EngineReply::Removed(unmanage_result(txn))
                }
                EngineStage::RemovingFpm => EngineReply::Removed(self.unmanage_fpm()),
                EngineStage::Done { .. } => unreachable!(),
            };
            let world = self.world();
            run = run.step(&self.engine, reply, &world);
        }
        self.store = run.store.dup();
        run.into_outcome()
    }

    fn apply(&mut self, action: PhpConfigAction) -> Result<PhpConfigOutcome, String> {
        let world = self.world();
        let run = self
            .engine
            .apply(action, self.store.dup(), &self.default_php, &world);
        self.run(run)
    }

    fn boot_sync(&mut self) -> Result<PhpConfigOutcome, String> {
        let run = self.engine.boot_sync(self.store.dup(), &self.default_php);
        self.run(run)
    }

    fn fpm_service(&self, version: &str) -> Result<ManagedService, String> {
        hearth_fpm_service(version, CONFIG, None, &self.conf_state(), &self.disk())
    }

    fn switch(&mut self, sup: &mut ServiceSupervisor, version: &str) -> Result<String, String> {
        let disk = self.disk();
        let mut stage = switch_php_version(
            version,
            resolve_php_binary(version, CONFIG, None, &disk).is_some(),
            resolve_phpfpm_binary(version, CONFIG, None, &disk).is_some(),
        );
        loop {
            let reply = match stage {
                SwitchStage::Saving => {
                    self.default_php = version.to_string();
                    self.saved = Some((self.store.dup(), version.to_string()));
                    SwitchReply::Saved(Ok(()))
                }
                SwitchStage::Syncing => {
                    let run = self.engine.switch_sync(self.store.dup(), version);
                    SwitchReply::Synced(self.run(run))
                }
                SwitchStage::Replacing => {
                    let built = self.fpm_service(version);
                    let outcome = replace(sup, built);
                    SwitchReply::Replaced { outcome, conf: self.conf_state() }
                }
                SwitchStage::Done { result } => return result,
            };
            stage = stage.step(version, reply);
        }
    }

    fn homebrew_php(&mut self, version: &str) -> String {
        let conf_d = format!("/base/homebrew/etc/php/{version}/conf.d");
        self.tree.dir(&conf_d);
        let binary = format!("/base/homebrew/opt/php@{version}/bin/php");
        self.tree.exec(&binary);
        self.answers.insert(
            binary,
            Answers { scan_dir: Some(conf_d.clone()), normal: None, sanitized: None },
        );
        conf_d
    }

    fn answer(&mut self, binary: &str, normal: &str, sanitized: &str) {
        let a = self.answers.entry(binary.to_string()).or_default();
        a.normal = Some(normal.to_string());
        a.sanitized = Some(sanitized.to_string());
    }

    fn fpm_pair(&mut self, version: &str) {
        self.tree.exec(&format!("{CONFIG}/php/{version}/php-fpm"));
    }
}

fn stop_reply(stop: &StopStage) -> StopReply {
    match stop {
        StopStage::ProbeBefore => StopReply::Wait(Waited::Running),
        StopStage::Terminate => StopReply::Signal(Signalled::Sent),
        StopStage::Poll => StopReply::Polled { waited: Waited::Exited, elapsed_ms: 0 },
        other => panic!("unexpected {other:?}"),
    }
}

fn replace(sup: &mut ServiceSupervisor, built: Result<ManagedService, String>) -> FpmReplaceOutcome {
    let mut stage = sup.replace_fpm_service();
    let mut built = Some(built);
    loop {
        let reply = match &stage {
            ReplaceStage::Building => SupReply::Built(built.take().unwrap()),
            ReplaceStage::Stopping { stop, .. } => SupReply::Stop(stop_reply(stop)),
            ReplaceStage::Spawning { .. } => SupReply::Spawned { result: Ok(77), now: 5 },
            ReplaceStage::Done { .. } => match stage {
                ReplaceStage::Done { outcome } => return outcome,
                _ => unreachable!(),
            },
        };
        stage = sup.replace_fpm_step(stage, reply);
    }
}

/// The restart after a change: the policy first, then the transaction.
fn restart(fx: &Fixture, sup: &mut ServiceSupervisor) -> FpmRestartOutcome {
    let registered = sup.service(ServiceKind::PhpFpm).is_some();
    match restart_fpm_conditionally(&fx.ownership, registered, &fx.conf_state()) {
        RestartChoice::Report(o) => o,
        RestartChoice::Restart => {
            let mut stage = sup.restart_fpm_service();
            loop {
                let reply = match &stage {
                    RestartStage::Stopping { stop } => SupReply::Stop(stop_reply(stop)),
                    RestartStage::Spawning { .. } => SupReply::Spawned { result: Ok(78), now: 6 },
                    RestartStage::Done { .. } => match stage {
                        RestartStage::Done { outcome } => return restart_report(outcome),
                        _ => unreachable!(),
                    },
                };
                stage = sup.restart_fpm_step(stage, reply);
            }
        }
    }
}

fn unowned_supervisor() -> ServiceSupervisor {
    let mut sup = ServiceSupervisor::new();
    sup.set_fpm_ownership_probe(FpmOwnership::Unowned);
    sup
}

fn running_fpm(sup: &mut ServiceSupervisor) {
    sup.register(ManagedService::new(
        ServiceKind::PhpFpm,
        "/bin/sleep".to_string(),
        vec!["30".to_string()],
    ))
    .unwrap();
    let stamp = sup.start_service(ServiceKind::PhpFpm).unwrap();
    sup.finish_start(ServiceKind::PhpFpm, stamp, Ok(41), 3).unwrap();
}

fn set_global(key: &str, value: &str) -> PhpConfigAction {
    PhpConfigAction::SetValue {
        scope: PhpScope::Global,
        key: key.to_string(),
        value: value.to_string(),
    }
}

fn status(key: Option<&str>, token: Option<&str>) -> PhpConfigAction {
    PhpConfigAction::Status {
        key: key.map(str::to_string),
        token: token.map(str::to_string),
    }
}

fn show(key: &str) -> PhpConfigAction {
    PhpConfigAction::Show { key: Some(key.to_string()) }
}

fn row<'a>(o: &'a PhpConfigOutcome, provider: &str, sapi: &str, context: &str) -> &'a PhpTargetRow {
    o.rows
        .iter()
        .find(|r| r.provider == provider && r.sapi == sapi && r.context == context)
        .unwrap_or_else(|| panic!("no row {provider}/{sapi}/{context}: {:?}", o.rows))
}

fn unknown() -> FpmOwnership {
    FpmOwnership::Unknown("ownership probe (pgrep) failed with status 2".to_string())
}

// ---- set, unset, show, status ----

#[test]
fn set_persists_even_when_fpm_unregistered() {
    let mut fx = fixture(false);
    // FPM config exists → plain NotRegistered, not LaunchBlocked.
    fx.write(&conf_path(CONFIG), "; fpm");

    let outcome = fx.apply(set_global("memory_limit", "1G")).unwrap();
    assert_eq!(outcome.persisted, Some(true));
    assert_eq!(outcome.fpm, FpmRestartOutcome::NotAttempted);
    let (store, _) = fx.saved.as_ref().unwrap();
    assert_eq!(store.global.get("memory_limit"), Some(&"1G".to_string()));

    // Empty supervisor → informational NotRegistered, not a failure.
    let fpm = restart(&fx, &mut ServiceSupervisor::new());
    assert_eq!(fpm, FpmRestartOutcome::NotRegistered { herd_hint: false });
}

#[test]
fn failed_save_puts_the_store_back() {
    let mut fx = fixture(false);
    fx.apply(set_global("memory_limit", "1G")).unwrap();
    fx.fail_save = true;
    let err = fx.apply(set_global("memory_limit", "2G")).unwrap_err();
    assert_eq!(err, "failed to persist config: disk full");
    assert_eq!(fx.store.global.get("memory_limit"), Some(&"1G".to_string()));
}

#[test]
fn unregistered_fpm_with_missing_conf_is_launch_blocked() {
    let fx = fixture(false);
    match restart(&fx, &mut ServiceSupervisor::new()) {
        FpmRestartOutcome::LaunchBlocked { reason } => {
            assert!(reason.contains("run `hearth php config --sync`"), "{reason}");
        }
        other => panic!("expected LaunchBlocked, got {other:?}"),
    }
}

#[test]
fn unregistered_fpm_under_herd_hints_herd() {
    let fx = fixture(true);
    assert_eq!(
        restart(&fx, &mut ServiceSupervisor::new()),
        FpmRestartOutcome::NotRegistered { herd_hint: true }
    );
}

#[test]
fn set_invalid_key_rejected_nothing_written() {
    let mut fx = fixture(false);
    for key in ["extension", "SENDMAIL_PATH", "bad key"] {
        let err = fx.apply(set_global(key, "x")).unwrap_err();
        assert!(!err.is_empty());
    }
    // Injection in the value is rejected too.
    let err = fx
        .apply(set_global("memory_limit", "1G\nextension=evil.so"))
        .unwrap_err();
    assert!(!err.is_empty());
    let err = fx
        .apply(PhpConfigAction::SetValue {
            scope: PhpScope::Version { version: "eight".to_string() },
            key: "memory_limit".to_string(),
            value: "1G".to_string(),
        })
        .unwrap_err();
    assert_eq!(err, "invalid PHP version `eight` — expected e.g. 8.4");
    assert!(fx.saved.is_none(), "rejected input must not persist anything");
    assert!(fx.store.global.is_empty());
}

#[test]
fn active_scope_resolves_default_php() {
    let mut fx = fixture(false);
    fx.default_php = "8.3".to_string();
    let outcome = fx
        .apply(PhpConfigAction::SetValue {
            scope: PhpScope::Active,
            key: "memory_limit".to_string(),
            value: "2G".to_string(),
        })
        .unwrap();
    assert_eq!(outcome.persisted, Some(true));
    let (store, _) = fx.saved.as_ref().unwrap();
    assert_eq!(
        store.overrides.get("8.3").and_then(|m| m.get("memory_limit")),
        Some(&"2G".to_string())
    );
    assert!(store.global.is_empty());
}

#[test]
fn unset_removes_key_and_prunes_empty_override() {
    let mut fx = fixture(false);
    let scope = PhpScope::Version { version: "8.4".to_string() };
    fx.apply(PhpConfigAction::SetValue {
        scope: scope.clone(),
        key: "memory_limit".to_string(),
        value: "2G".to_string(),
    })
    .unwrap();
    fx.apply(PhpConfigAction::Unset { scope, key: "memory_limit".to_string() })
        .unwrap();
    let (store, _) = fx.saved.as_ref().unwrap();
    assert!(store.overrides.is_empty(), "empty override table must be pruned");
}

#[test]
fn status_reports_hearth_fpm_launch_blocked_with_sync_remediation() {
    let mut fx = fixture(false);
    let outcome = fx.apply(status(None, None)).unwrap();
    let fpm_row = row(&outcome, "hearth", "fpm", "launched");
    assert!(fpm_row.coverage.starts_with("LAUNCH-BLOCKED"), "got: {}", fpm_row.coverage);
    assert!(
        fpm_row.coverage.contains("run `hearth php config --sync`"),
        "got: {}",
        fpm_row.coverage
    );
}

#[test]
fn pre_reconcile_recovery_rejects_symlinked_ini_manifest_dir() {
    let mut fx = fixture(false);
    fx.write("/base/outside-ini-recovery/sentinel", "pre-recovery-outside");
    fx.tree.link(&format!("{CONFIG}/php"), "/base/outside-ini-recovery");
    let error = fx.boot_sync().unwrap_err();
    assert!(error.contains("manifest directory guard failed"), "{error}");
    assert!(fx.ini_manifest.is_none());
    assert_eq!(
        fx.read("/base/outside-ini-recovery/sentinel").as_deref(),
        Some("pre-recovery-outside")
    );
}

#[test]
fn boot_sync_generates_fpm_conf_and_service_registers() {
    let mut fx = fixture(false);
    fx.fpm_pair("8.4");
    let outcome = fx.boot_sync().unwrap();
    assert_eq!(outcome.fpm, FpmRestartOutcome::NotAttempted);
    assert!(matches!(fx.conf_state(), FpmConfState::HearthOwned { .. }));
    assert!(fpm_launch_blocked_reason(&fx.conf_state()).is_none());
    let service = fx.fpm_service("8.4").expect("boot sync makes FPM launchable");
    assert!(matches!(
        service.fpm_launch_conf(),
        Some(FpmLaunchConf::HearthOwned { .. })
    ));
}

#[test]
fn status_row_shows_listener_for_hearth_owned_conf() {
    let mut fx = fixture(false);
    fx.boot_sync().unwrap();
    // Owned, but there is no binary to launch.
    let outcome = fx.apply(status(None, None)).unwrap();
    assert_eq!(
        row(&outcome, "hearth", "fpm", "launched").coverage,
        "LAUNCH-BLOCKED: php-fpm binary for 8.4 not found"
    );
    fx.fpm_pair("8.4");
    let outcome = fx.apply(status(None, None)).unwrap();
    assert_eq!(
        row(&outcome, "hearth", "fpm", "launched").coverage,
        format!("supervised (scan-dir env at launch; listen: {CONFIG}/run/php-fpm.sock)")
    );
}

#[test]
fn user_managed_conf_row_is_truthful_and_launchable() {
    let mut fx = fixture(false);
    fx.fpm_pair("8.4");
    fx.write(&conf_path(CONFIG), "; foreign\n");
    let outcome = fx.apply(status(None, None)).unwrap();
    assert_eq!(
        row(&outcome, "hearth", "fpm", "launched").coverage,
        "supervised (user-managed fpm config — live observation requires Hearth-generated \
         config; remove/rename it and run --sync to adopt)"
    );
    let service = fx.fpm_service("8.4").unwrap();
    assert_eq!(
        service.fpm_launch_conf(),
        Some(&FpmLaunchConf::UserManaged { conf: conf_path(CONFIG) })
    );
}

#[test]
fn sync_under_owned_or_unknown_writes_files_zero_supervisor_mutation() {
    for ownership in [
        FpmOwnership::Owned,
        FpmOwnership::Unknown("probe unavailable".to_string()),
    ] {
        let mut fx = fixture_with(ownership);
        let outcome = fx.apply(PhpConfigAction::Sync).unwrap();
        assert!(matches!(fx.conf_state(), FpmConfState::HearthOwned { .. }));
        assert!(outcome.files.iter().any(|f| f.path.ends_with("php-fpm.conf")));
        assert_eq!(outcome.fpm, FpmRestartOutcome::NotAttempted);
    }
}

#[test]
fn unmanage_while_running_keeps_child_blocks_future_start() {
    let mut fx = fixture(false);
    fx.fpm_pair("8.4");
    fx.boot_sync().unwrap();
    let mut sup = unowned_supervisor();
    sup.register(fx.fpm_service("8.4").unwrap()).unwrap();
    let stamp = sup.start_service(ServiceKind::PhpFpm).unwrap();
    sup.finish_start(ServiceKind::PhpFpm, stamp, Ok(9), 1).unwrap();
    let before = sup.fpm_launch_snapshot().unwrap();

    fx.apply(PhpConfigAction::Unmanage).unwrap();

    assert_eq!(
        sup.fpm_launch_snapshot().unwrap(),
        before,
        "unmanage must not touch the running child"
    );
    assert!(matches!(fx.conf_state(), FpmConfState::Blocked { .. }));
    assert!(fx.fpm_service("8.4").is_err());
    let outcome = fx.apply(status(None, None)).unwrap();
    let launched = row(&outcome, "hearth", "fpm", "launched");
    assert!(launched.coverage.starts_with("LAUNCH-BLOCKED:"), "{launched:?}");

    let mut stopped = fixture(false);
    stopped.fpm_pair("8.4");
    stopped.boot_sync().unwrap();
    let mut sup = unowned_supervisor();
    sup.register(stopped.fpm_service("8.4").unwrap()).unwrap();
    stopped.apply(PhpConfigAction::Unmanage).unwrap();
    assert!(
        sup.service(ServiceKind::PhpFpm).is_some(),
        "stopped registration is also untouched"
    );
    assert!(
        stopped.fpm_service("8.4").is_err(),
        "future service construction is blocked"
    );
}

#[test]
fn status_marks_a_running_fpm_that_predates_the_materialized_config() {
    let mut fx = fixture(false);
    fx.fpm_pair("8.4");
    fx.homebrew_php("8.4");
    fx.boot_sync().unwrap();
    let marked = |fx: &mut Fixture| {
        let outcome = fx.apply(status(None, None)).unwrap();
        row(&outcome, "hearth", "fpm", "launched").pending_restart
    };
    // Nothing runs, or nothing was applied yet.
    assert!(!marked(&mut fx));
    fx.started_at = Some(fx.clock);
    assert!(!marked(&mut fx));
    // A change is applied after the start.
    let outcome = fx.apply(set_global("memory_limit", "1G")).unwrap();
    assert!(row(&outcome, "hearth", "fpm", "launched").pending_restart);
    assert!(!row(&outcome, "homebrew", "cli", "normal").pending_restart);
    assert!(marked(&mut fx));
    // A restart since then settles it.
    fx.started_at = Some(fx.clock + 1);
    assert!(!marked(&mut fx));
}

#[test]
fn status_under_herd_has_no_hearth_fpm_service_row() {
    let mut fx = fixture(true);
    let outcome = fx.apply(status(None, None)).unwrap();
    assert!(outcome.rows.iter().all(|r| r.context != "launched"));
}

#[test]
fn sync_migrates_legacy_ini_into_overrides() {
    let mut fx = fixture(false);
    let legacy = format!("{CONFIG}/php/8.4/php.ini");
    fx.write(&legacy, "[PHP]\nmemory_limit=1G\n");
    let outcome = fx.apply(PhpConfigAction::Sync).unwrap();
    assert_eq!(outcome.persisted, None);
    assert_eq!(
        fx.store.overrides.get("8.4").and_then(|m| m.get("memory_limit")),
        Some(&"1G".to_string())
    );
    assert!(fx.read(&legacy).is_none(), "legacy ini must be renamed after migration");
    assert!(fx.read(&format!("{legacy}.migrated.bak")).is_some());
}

#[test]
fn unmanage_on_empty_manifest_is_clean() {
    let mut fx = fixture(false);
    let outcome = fx.apply(PhpConfigAction::Unmanage).unwrap();
    assert!(outcome.files.is_empty());
    assert_eq!(outcome.persisted, None);
}

#[test]
fn require_reconciled_gates_hard_outcomes() {
    let clean = PhpConfigOutcome {
        persisted: Some(true),
        rows: vec![],
        files: vec![FileOutcome {
            path: "/x/zz-hearth.ini".to_string(),
            result: FileWriteResult::Written,
        }],
        fpm: FpmRestartOutcome::LaunchBlocked {
            reason: "missing fpm config — run `hearth php config --sync`".to_string(),
        },
        status_key: None,
        status_token: None,
    };
    assert!(
        require_reconciled(Ok(clean)).is_ok(),
        "informational cells are not hard"
    );

    let refused = PhpConfigOutcome {
        persisted: Some(true),
        rows: vec![],
        files: vec![FileOutcome {
            path: "/chan/zz-hearth.ini".to_string(),
            result: FileWriteResult::Refused { reason: "untracked collision".to_string() },
        }],
        fpm: FpmRestartOutcome::NotAttempted,
        status_key: None,
        status_token: None,
    };
    let err = require_reconciled(Ok(refused)).unwrap_err();
    assert!(err.contains("/chan/zz-hearth.ini"), "got: {err}");
    assert!(err.contains("untracked collision"), "got: {err}");
    assert!(err.contains("persisted"), "got: {err}");

    let failed = PhpConfigOutcome {
        persisted: None,
        rows: vec![],
        files: vec![FileOutcome {
            path: "/chan/conf.d".to_string(),
            result: FileWriteResult::Failed { error: "io".to_string() },
        }],
        fpm: FpmRestartOutcome::NotAttempted,
        status_key: None,
        status_token: None,
    };
    assert!(require_reconciled(Ok(failed)).is_err());

    assert_eq!(
        require_reconciled(Err("outer".to_string())).unwrap_err(),
        "outer"
    );
}

#[test]
fn set_with_untracked_collision_is_hard_refused_and_gated() {
    let mut fx = fixture(false);
    let conf_d = fx.homebrew_php("8.4");
    // A foreign zz-hearth.ini with no manifest entry.
    let collision = format!("{conf_d}/zz-hearth.ini");
    fx.write(&collision, "; not ours\n");

    let outcome = fx.apply(set_global("memory_limit", "1G")).unwrap();
    assert_eq!(outcome.persisted, Some(true), "config stays truthfully persisted");
    let hard = outcome.hard_failures();
    assert!(!hard.is_empty(), "collision must be a hard failure: {outcome:?}");
    assert!(hard[0].contains("zz-hearth.ini"), "got: {hard:?}");
    // The foreign file was never touched.
    assert_eq!(fx.read(&collision).as_deref(), Some("; not ours\n"));
    assert_eq!(
        row(&outcome, "homebrew", "cli", "normal").coverage,
        format!("managed* — channel blocked: {collision}")
    );
    // And the hard failure aborts a launch.
    assert!(require_reconciled(Ok(outcome)).is_err());
    let outcome = fx.apply(status(None, None)).unwrap();
    assert!(row(&outcome, "homebrew", "cli", "normal").coverage.starts_with("managed"));
}

#[test]
fn hearth_symlink_ancestor_escape_is_hard_failure_zero_mutation() {
    let mut fx = fixture(false);
    // hearth `php` component is a symlink escaping the root.
    fx.tree.exec("/base/outside-target/8.4/php");
    fx.tree.link(&format!("{CONFIG}/php"), "/base/outside-target");

    let outcome = fx.apply(set_global("memory_limit", "1G")).unwrap();
    let hard = outcome.hard_failures();
    assert!(
        hard.iter()
            .any(|h| h.contains("creation refused") && h.contains("symlink")),
        "symlinked ancestor must be a typed hard failure: {hard:?}"
    );
    assert!(
        !fx.tree.nodes.contains_key("/base/outside-target/8.4/conf.d"),
        "zero mutation outside the allowlist"
    );
    assert!(require_reconciled(Ok(outcome)).is_err());
}

#[test]
fn hearth_channel_creation_failure_is_typed_and_gated() {
    let mut fx = fixture(false);
    fx.tree.exec(&format!("{CONFIG}/php/8.4/php"));
    fx.tree.dir_as(&format!("{CONFIG}/php/8.4"), 0o555, EUID);
    let outcome = fx.apply(set_global("memory_limit", "1G")).unwrap();
    let hard = outcome.hard_failures();
    assert!(
        hard.iter().any(|h| h.contains("creation refused")),
        "creation failure must be typed + hard: {hard:?}"
    );
    assert!(require_reconciled(Ok(outcome)).is_err());
}

#[test]
fn observe_never_creates_hearth_channel_dirs() {
    let mut fx = fixture(false);
    fx.tree.exec(&format!("{CONFIG}/php/8.4/php"));
    fx.store.global.insert("memory_limit".to_string(), "1G".to_string());
    let outcome = fx.apply(status(None, None)).unwrap();
    assert!(outcome.files.is_empty(), "status is read-only");
    assert!(
        !fx.tree.nodes.contains_key(&format!("{CONFIG}/php/8.4/conf.d")),
        "discovery/probing/classification must not create directories"
    );
    // A Set creates the directory and writes into it.
    fx.answers.insert(
        format!("{CONFIG}/php/8.4/php"),
        Answers {
            scan_dir: Some(format!("{CONFIG}/php/8.4/conf.d")),
            normal: None,
            sanitized: None,
        },
    );
    let outcome = fx.apply(set_global("memory_limit", "1G")).unwrap();
    assert!(outcome.hard_failures().is_empty());
    assert!(fx
        .read(&format!("{CONFIG}/php/8.4/conf.d/{CHANNEL_FILE_NAME}"))
        .is_some());
}

// ---- switching ----

#[test]
fn switch_rebuilds_fpm_service_with_new_version_env() {
    let mut fx = fixture(false);
    fx.fpm_pair("8.3");
    fx.fpm_pair("8.4");
    fx.write(&conf_path(CONFIG), "; fpm");
    fx.default_php = "8.3".to_string();
    let mut sup = unowned_supervisor();
    // Old registration carrying the OLD version's env.
    sup.register(fx.fpm_service("8.3").unwrap()).unwrap();
    assert!(sup.service(ServiceKind::PhpFpm).unwrap().env()[0].1.contains("8.3"));

    let message = fx.switch(&mut sup, "8.4").unwrap();
    assert_eq!(message, "Switched to PHP 8.4; php-fpm restarted");
    let svc = sup.service(ServiceKind::PhpFpm).expect("fpm registered");
    assert!(
        svc.command().ends_with("php/8.4/php-fpm"),
        "new binary expected, got: {}",
        svc.command()
    );
    assert_eq!(
        svc.env(),
        &vec![(
            "PHP_INI_SCAN_DIR".to_string(),
            format!(":{CONFIG}/php/8.4/conf.d")
        )],
        "env must be the NEW version's scan dir, never the old one"
    );
    assert_eq!(fx.saved.as_ref().unwrap().1, "8.4");
}

#[test]
fn switch_to_launch_blocked_version_removes_stale_fpm() {
    let mut fx = fixture(false);
    fx.fpm_pair("8.3");
    fx.fpm_pair("8.4");
    fx.write(&conf_path(CONFIG), "; fpm");
    let mut sup = unowned_supervisor();
    sup.register(fx.fpm_service("8.3").unwrap()).unwrap();

    // Static FPM generation is reserved for boot/explicit Sync.
    fx.tree.nodes.remove(&conf_path(CONFIG));
    let message = fx.switch(&mut sup, "8.4").unwrap();
    assert!(message.contains("php-fpm not registered"), "got: {message}");
    assert!(message.contains("run `hearth php config --sync`"), "got: {message}");
    assert!(
        sup.service(ServiceKind::PhpFpm).is_none(),
        "stale registration must be removed"
    );
    assert!(matches!(fx.conf_state(), FpmConfState::Blocked { .. }));
}

#[test]
fn switch_to_missing_version_errors_before_persisting() {
    let mut fx = fixture(false);
    fx.default_php = "8.3".to_string();
    let err = fx.switch(&mut ServiceSupervisor::new(), "8.2").unwrap_err();
    assert!(err.contains("not installed"), "got: {err}");
    assert_eq!(fx.default_php, "8.3", "no persist on refusal");
    let err = fx.switch(&mut ServiceSupervisor::new(), "8").unwrap_err();
    assert!(err.contains("invalid PHP version"), "got: {err}");
}

#[test]
fn switch_aborts_fpm_restart_on_hard_reconcile_failure() {
    let mut fx = fixture(false);
    fx.fpm_pair("8.4");
    fx.write(&conf_path(CONFIG), "; fpm");
    // Configure a value + a colliding foreign channel file.
    fx.apply(set_global("memory_limit", "1G")).unwrap();
    let conf_d = fx.homebrew_php("8.4");
    fx.write(&format!("{conf_d}/zz-hearth.ini"), "; not ours\n");

    let mut sup = unowned_supervisor();
    let err = fx.switch(&mut sup, "8.4").unwrap_err();
    assert!(err.contains("persisted"), "got: {err}");
    assert!(err.contains("hard failure"), "got: {err}");
    assert!(
        sup.service(ServiceKind::PhpFpm).is_none(),
        "no FPM registration/restart after a hard reconcile failure"
    );
}

#[test]
fn switch_under_herd_performs_zero_fpm_supervisor_mutation() {
    let mut fx = fixture(true); // Herd owns FPM
    fx.tree.exec(&format!("{CONFIG}/php/8.3/php"));
    let mut sup = unowned_supervisor();
    sup.register(ManagedService::new(
        ServiceKind::PhpFpm,
        "/bin/echo".to_string(),
        vec!["sentinel".to_string()],
    ))
    .unwrap();
    sup.set_fpm_ownership_probe(FpmOwnership::Owned);

    let msg = fx.switch(&mut sup, "8.3").unwrap();
    assert!(msg.contains("php-fpm untouched"), "got: {msg}");
    assert!(msg.contains("Herd manages PHP-FPM"), "got: {msg}");
    let svc = sup.service(ServiceKind::PhpFpm).expect("registration must survive");
    assert_eq!(svc.command(), "/bin/echo", "no replacement");
    assert!(svc.started_at().is_none(), "never spawned");
    // Version selection itself is preserved and persisted.
    assert_eq!(fx.saved.as_ref().unwrap().1, "8.3");

    // And an empty supervisor gains NO registration either.
    let mut empty = ServiceSupervisor::new();
    empty.set_fpm_ownership_probe(FpmOwnership::Owned);
    fx.switch(&mut empty, "8.3").unwrap();
    assert!(
        empty.service(ServiceKind::PhpFpm).is_none(),
        "switch under Herd must never register FPM"
    );
}

// ---- ambient FPM ----

#[test]
fn external_fpm_row_is_static_and_cli_rows_stay_independent() {
    let mut fx = fixture(false);
    let channel = "/base/herd/config/php/84";
    fx.tree.dir(channel);
    fx.tree.exec("/base/herd/bin/php84");
    fx.tree.exec("/base/herd/bin/php84-fpm");
    for binary in ["/base/herd/bin/php84", "/base/herd/bin/php84-fpm"] {
        fx.answers.insert(
            binary.to_string(),
            Answers { scan_dir: Some(channel.to_string()), normal: None, sanitized: None },
        );
    }
    fx.apply(set_global("memory_limit", "1G")).unwrap();
    let outcome = fx.apply(status(None, None)).unwrap();
    let fpm_rows: Vec<&PhpTargetRow> = outcome
        .rows
        .iter()
        .filter(|r| r.provider == "herd" && r.sapi == "fpm")
        .collect();
    assert_eq!(fpm_rows.len(), 1, "exactly one external row: {fpm_rows:?}");
    assert_eq!(fpm_rows[0].context, "external");
    assert_eq!(fpm_rows[0].coverage, EXTERNAL_FPM_COVERAGE);
    assert!(fpm_rows[0].channel.is_none(), "external row never carries a channel");
    // CLI context evidence stays separate: normal row is managed.
    let cli = row(&outcome, "herd", "cli", "normal");
    assert!(cli.coverage.starts_with("managed"), "got: {}", cli.coverage);
}

#[test]
fn ambient_external_fpm_is_structurally_never_executed_and_never_writable() {
    let mut fx = fixture(false);
    let channel = "/base/herd/config/php/84";
    fx.tree.dir(channel);
    fx.tree.exec("/base/herd/bin/php84-fpm");
    let first = fx.apply(show("memory_limit")).unwrap();
    assert!(fx.executed.is_empty(), "never executed: {:?}", fx.executed);
    let external = row(&first, "herd", "fpm", "external");
    assert_eq!(external.coverage, EXTERNAL_FPM_COVERAGE);
    assert_eq!(external.observed, None);
    assert_eq!(external.observed_state, "n/a");
    assert!(external.channel.is_none());
    assert!(external.coverage.starts_with("unverified"));
    assert!(external.coverage.contains("never executes it"));

    fx.apply(set_global("memory_limit", "1G")).unwrap();
    assert!(fx.executed.is_empty(), "Set must not execute ambient FPM either");
    assert!(
        fx.read(&format!("{channel}/{CHANNEL_FILE_NAME}")).is_none(),
        "no write authority may derive from an ambient FPM target"
    );
}

// ---- launch probes ----

#[test]
fn set_and_show_fill_launch_probed_cli_values_both_contexts() {
    let mut fx = fixture(false);
    let conf_d = fx.homebrew_php("8.4");
    fx.answer("/base/homebrew/opt/php@8.4/bin/php", "1G", "777M");

    let outcome = fx.apply(set_global("memory_limit", "1G")).unwrap();
    let normal = row(&outcome, "homebrew", "cli", "normal");
    assert_eq!(normal.observed.as_deref(), Some("1G"));
    assert_eq!(normal.observed_state, "launch-probed");
    let sanitized = row(&outcome, "homebrew", "cli", "sanitized");
    assert_eq!(sanitized.observed.as_deref(), Some("777M"));
    assert_eq!(sanitized.observed_state, "launch-probed");

    let m = fx.ini_manifest.clone().unwrap();
    let entry = m
        .files
        .iter()
        .find(|e| e.path == format!("{conf_d}/{CHANNEL_FILE_NAME}"))
        .expect("manifest entry for the written channel file");
    assert!(entry.applied_at_unix_ms.is_some());

    // Read-only Show reports the same launch-probed values.
    let shown = fx.apply(show("memory_limit")).unwrap();
    let normal = row(&shown, "homebrew", "cli", "normal");
    assert_eq!(normal.observed.as_deref(), Some("1G"));
    assert_eq!(normal.observed_state, "launch-probed");
    assert_eq!(normal.coverage, "managed (channel; env ignored)");
}

#[test]
fn fpm_probe_runs_only_for_the_launched_row() {
    let mut fx = fixture(false);
    fx.write(&conf_path(CONFIG), "; fpm");
    fx.fpm_pair("8.4");
    let binary = format!("{CONFIG}/php/8.4/php-fpm");
    fx.answer(&binary, "1G", "");
    let outcome = fx.apply(set_global("memory_limit", "1G")).unwrap();
    let launched = row(&outcome, "hearth", "fpm", "launched");
    assert_eq!(launched.observed.as_deref(), Some("1G"));
    assert_eq!(launched.observed_state, "launch-probed");
    assert_eq!(fx.executed, [binary]);
}

#[test]
fn probe_failure_renders_na_never_fails_command() {
    let mut fx = fixture(false);
    fx.homebrew_php("8.4");
    let shown = fx.apply(show("memory_limit")).unwrap();
    for r in shown.rows.iter().filter(|r| r.provider == "homebrew") {
        assert_eq!(r.observed, None, "failed probe never invents: {r:?}");
        assert_eq!(r.observed_state, "n/a");
    }
    let outcome = fx.apply(set_global("memory_limit", "1G")).unwrap();
    assert_eq!(outcome.persisted, Some(true));
    assert!(outcome.hard_failures().is_empty(), "{outcome:?}");
    assert_eq!(
        row(&outcome, "homebrew", "cli", "normal").observed_state,
        "materialized",
        "probe failure preserves the channel-file state, never upgrades it"
    );
}

#[test]
fn materialized_is_said_only_of_what_is_on_disk() {
    let mut fx = fixture(false);
    let conf_d = fx.homebrew_php("8.4");
    let file = format!("{conf_d}/zz-hearth.ini");
    fx.apply(set_global("memory_limit", "1G")).unwrap();
    let kept = fx.apply(show("memory_limit")).unwrap();
    assert_eq!(row(&kept, "homebrew", "cli", "normal").observed_state, "materialized");
    assert_eq!(row(&kept, "homebrew", "cli", "normal").observed.as_deref(), Some("1G"));

    // The manifest still says applied; the file says something else, or is gone.
    fx.write(&file, "memory_limit=9G\n");
    let edited = fx.apply(show("memory_limit")).unwrap();
    let normal = row(&edited, "homebrew", "cli", "normal");
    assert_eq!(normal.observed_state, "n/a");
    assert_eq!(normal.observed, None);
    assert!(normal.coverage.ends_with(" (sync pending)"), "got: {}", normal.coverage);
    fx.tree.nodes.remove(&file);
    let gone = fx.apply(show("memory_limit")).unwrap();
    assert_eq!(row(&gone, "homebrew", "cli", "normal").observed_state, "n/a");
}

#[test]
fn status_with_key_fills_configured_and_probed_values() {
    let mut fx = fixture(false);
    fx.homebrew_php("8.4");
    fx.answer("/base/homebrew/opt/php@8.4/bin/php", "1G", "777M");
    fx.apply(set_global("memory_limit", "1G")).unwrap();

    let keyed = fx.apply(status(Some("memory_limit"), None)).unwrap();
    let normal = row(&keyed, "homebrew", "cli", "normal");
    assert_eq!(normal.configured.as_deref(), Some("1G"));
    assert_eq!(normal.observed.as_deref(), Some("1G"));
    assert_eq!(normal.observed_state, "launch-probed");
    let sanitized = row(&keyed, "homebrew", "cli", "sanitized");
    assert_eq!(sanitized.observed.as_deref(), Some("777M"));
    assert_eq!(sanitized.observed_state, "launch-probed");

    // A keyless Status never fakes values.
    let keyless = fx.apply(status(None, None)).unwrap();
    for r in &keyless.rows {
        assert_eq!(r.configured, None, "keyless status fakes no value: {r:?}");
        assert_eq!(r.observed, None, "keyless status fakes no value: {r:?}");
        assert_eq!(r.observed_state, "n/a");
    }
}

#[test]
fn sync_pending_is_said_until_it_is_reconciled() {
    let mut fx = fixture(false);
    fx.homebrew_php("8.4");
    fx.store.global.insert("memory_limit".to_string(), "1G".to_string());
    let before = fx.apply(status(None, None)).unwrap();
    assert_eq!(
        row(&before, "homebrew", "cli", "normal").coverage,
        "managed (channel; env ignored) (sync pending)"
    );
    assert_eq!(
        row(&before, "homebrew", "cli", "sanitized").coverage,
        "managed (channel) (sync pending)"
    );
    fx.apply(PhpConfigAction::Sync).unwrap();
    let after = fx.apply(status(None, None)).unwrap();
    assert_eq!(
        row(&after, "homebrew", "cli", "sanitized").coverage,
        "managed (channel)"
    );
}

// ---- ownership ----

#[test]
fn unknown_ownership_fails_closed_in_config_restart_and_switch() {
    let mut fx = fixture_with(unknown());
    fx.write(&conf_path(CONFIG), "; fpm");
    fx.tree.exec(&format!("{CONFIG}/php/8.3/php"));
    let mut sup = unowned_supervisor();
    running_fpm(&mut sup);
    sup.set_fpm_ownership_probe(unknown());
    let started = sup.service(ServiceKind::PhpFpm).unwrap().started_at();

    match restart(&fx, &mut sup) {
        FpmRestartOutcome::SkippedOwnershipUnknown { reason } => {
            assert!(reason.contains("pgrep"), "diagnostic surfaced: {reason}");
        }
        other => panic!("expected SkippedOwnershipUnknown, got {other:?}"),
    }
    assert_eq!(sup.service(ServiceKind::PhpFpm).unwrap().started_at(), started);

    let msg = fx.switch(&mut sup, "8.3").unwrap();
    assert!(msg.contains("php-fpm untouched"), "got: {msg}");
    assert!(msg.contains("ownership"), "got: {msg}");
    assert!(msg.contains("unknown"), "got: {msg}");
    assert_eq!(sup.service(ServiceKind::PhpFpm).unwrap().started_at(), started);
}

#[test]
fn unknown_ownership_renders_loud_row_and_zero_fpm_exec() {
    let mut fx = fixture_with(unknown());
    fx.write(&conf_path(CONFIG), "; fpm");
    fx.fpm_pair("8.4");
    let shown = fx.apply(show("memory_limit")).unwrap();
    assert!(fx.executed.is_empty(), "no -i execution under Unknown");
    let launched = row(&shown, "hearth", "fpm", "launched");
    assert!(launched.coverage.contains("OWNERSHIP-UNKNOWN"), "got: {}", launched.coverage);
    assert!(launched.coverage.contains("pgrep"), "{}", launched.coverage);
    assert!(!launched.coverage.contains("supervised"), "{}", launched.coverage);
    assert_eq!(launched.observed, None);

    let outcome = fx.apply(set_global("memory_limit", "1G")).unwrap();
    assert_eq!(outcome.persisted, Some(true));
    assert!(fx.executed.is_empty(), "Set must not execute FPM under Unknown");
}

#[test]
fn config_mutation_skips_registered_running_fpm_after_herd_becomes_live() {
    let mut fx = fixture(false);
    let mut sup = unowned_supervisor();
    running_fpm(&mut sup);
    let started = sup.service(ServiceKind::PhpFpm).unwrap().started_at();

    // Herd becomes live AFTER registration.
    fx.ownership = FpmOwnership::Owned;
    let outcome = fx.apply(set_global("memory_limit", "1G")).unwrap();
    assert_eq!(outcome.persisted, Some(true));
    assert_eq!(restart(&fx, &mut sup), FpmRestartOutcome::SkippedHerdOwned);
    let svc = sup.service(ServiceKind::PhpFpm).expect("still registered");
    assert!(matches!(svc.state(), ServiceState::Running { .. }));
    assert_eq!(svc.started_at(), started, "same spawn — no stop/start happened");

    sup.remove_service(ServiceKind::PhpFpm);
    assert_eq!(
        restart(&fx, &mut sup),
        FpmRestartOutcome::NotRegistered { herd_hint: true }
    );
}

#[test]
fn config_restart_flip_after_engine_check_performs_zero_fpm_mutation() {
    for flip in [FpmOwnership::Owned, unknown()] {
        let fx = fixture(false); // the read-only fast path says Unowned
        let mut sup = unowned_supervisor();
        running_fpm(&mut sup);
        let started = sup.service(ServiceKind::PhpFpm).unwrap().started_at();
        // The flip lands before the supervisor transaction snapshot.
        sup.set_fpm_ownership_probe(flip.clone());
        match (flip, restart(&fx, &mut sup)) {
            (FpmOwnership::Owned, FpmRestartOutcome::SkippedHerdOwned) => {}
            (_, FpmRestartOutcome::SkippedOwnershipUnknown { reason }) => {
                assert!(reason.contains("pgrep"), "{reason}");
            }
            other => panic!("truthful zero-mutation skip expected, got {other:?}"),
        }
        let svc = sup.service(ServiceKind::PhpFpm).unwrap();
        assert!(matches!(svc.state(), ServiceState::Running { .. }));
        assert_eq!(svc.started_at(), started);
    }
}

#[test]
fn registered_fpm_is_restarted_after_a_change() {
    let fx = fixture(false);
    let mut sup = unowned_supervisor();
    running_fpm(&mut sup);
    assert_eq!(restart(&fx, &mut sup), FpmRestartOutcome::Restarted);
    assert_eq!(sup.service(ServiceKind::PhpFpm).unwrap().child(), Some(78));
}

// ---- identity ----

#[test]
fn aliased_roots_make_targets_unverified_zero_exec_zero_write() {
    let mut fx = fixture(false);
    fx.tree.exec(&format!("{CONFIG}/php/8.4/php"));
    fx.answers.insert(
        format!("{CONFIG}/php/8.4/php"),
        Answers {
            scan_dir: Some(format!("{CONFIG}/php/8.4/conf.d")),
            normal: None,
            sanitized: None,
        },
    );
    // Alias AFTER construction.
    fx.tree.link("/base/herd", CONFIG);
    let outcome = fx.apply(show("memory_limit")).unwrap();
    assert!(fx.executed.is_empty(), "ambiguous identity is never executed");
    let r = row(&outcome, "hearth", "cli", "normal");
    assert!(
        r.coverage.contains("identity unverified") && r.coverage.contains("ambiguous"),
        "got: {}",
        r.coverage
    );
    fx.apply(set_global("memory_limit", "1G")).unwrap();
    assert!(fx.executed.is_empty(), "Set must not execute either");
    assert!(
        fx.read(&format!("{CONFIG}/php/8.4/conf.d/{CHANNEL_FILE_NAME}")).is_none(),
        "no channel authority under an ambiguous identity"
    );
}

#[test]
fn escaped_binary_target_is_unverified_and_never_executed() {
    let mut fx = fixture(false);
    fx.tree.exec("/base/outside-php");
    fx.tree.link("/base/herd/bin/php84", "/base/outside-php");
    let outcome = fx.apply(show("memory_limit")).unwrap();
    assert!(fx.executed.is_empty(), "escaped binary must never be executed");
    let r = row(&outcome, "herd", "cli", "normal");
    assert!(r.coverage.contains("identity unverified"), "got: {}", r.coverage);
    assert_eq!(r.observed, None);
    assert_eq!(r.observed_state, "n/a");

    fx.apply(set_global("memory_limit", "1G")).unwrap();
    assert!(fx.executed.is_empty(), "Set must not execute the escaped binary");
    assert!(
        fx.read(&format!("/base/herd/config/php/84/{CHANNEL_FILE_NAME}")).is_none(),
        "no write authority under a forged identity"
    );
}

#[test]
fn status_certifies_applied_key_and_rejects_invalid_keys() {
    let mut fx = fixture(false);
    let keyed = fx.apply(status(Some("memory_limit"), Some("t-1"))).unwrap();
    assert_eq!(keyed.status_key.as_deref(), Some("memory_limit"));
    assert_eq!(keyed.status_token.as_deref(), Some("t-1"));
    let keyless = fx.apply(status(None, None)).unwrap();
    assert_eq!(keyless.status_key, None);
    assert_eq!(fx.apply(show("memory_limit")).unwrap().status_key, None);
    for bad in ["bad key", "1leading", "inject\")); system(\"id"] {
        let err = fx.apply(status(Some(bad), None)).unwrap_err();
        assert!(!err.is_empty(), "invalid status key must error");
        let err = fx.apply(show(bad)).unwrap_err();
        assert!(!err.is_empty(), "invalid show key must error");
    }
}

// ---- FPM artifacts ----

#[test]
fn materialize_creates_dirs_conf_and_probe_atomically() {
    let mut fx = fixture(false);
    let report = fx.materialize();
    assert_eq!(report.conf, WriteOutcome::Written);
    assert_eq!(report.probe, WriteOutcome::Written);
    assert!(matches!(report.state, FpmConfState::HearthOwned { .. }));
    for file in [conf_path(CONFIG), probe_script_path(CONFIG)] {
        assert!(matches!(fx.tree.nodes[&file], Node::File { mode: 0o600, .. }));
    }
    let m = fx.fpm_manifest.clone().unwrap();
    assert_eq!(m.files.len(), 2);
    assert!(m
        .files
        .iter()
        .all(|e| e.state == EntryState::Applied && e.applied_at_unix_ms.is_some()));
}

#[test]
fn materialize_is_idempotent_second_run_unchanged() {
    let mut fx = fixture(false);
    assert!(matches!(fx.materialize().state, FpmConfState::HearthOwned { .. }));
    let conf = fx.read(&conf_path(CONFIG));
    let probe = fx.read(&probe_script_path(CONFIG));
    let rows = fx.fpm_manifest.clone().unwrap().files;
    let second = fx.materialize();
    assert_eq!(second.conf, WriteOutcome::Unchanged);
    assert_eq!(second.probe, WriteOutcome::Unchanged);
    assert!(matches!(second.state, FpmConfState::HearthOwned { .. }));
    assert_eq!(fx.read(&conf_path(CONFIG)), conf);
    assert_eq!(fx.read(&probe_script_path(CONFIG)), probe);
    assert_eq!(fx.fpm_manifest.unwrap().files, rows);
}

#[test]
fn foreign_conf_preflight_blocks_all_writes() {
    let mut fx = fixture(false);
    fx.write(&conf_path(CONFIG), "; smoke fpm config\n");
    let report = fx.materialize();
    assert!(matches!(report.state, FpmConfState::UserManaged { .. }));
    assert_eq!(fx.read(&conf_path(CONFIG)).as_deref(), Some("; smoke fpm config\n"));
    assert!(fx.read(&probe_script_path(CONFIG)).is_none());
    assert!(fx.fpm_manifest.is_none());
}

#[test]
fn foreign_probe_collision_blocks_all_writes() {
    let mut fx = fixture(false);
    fx.write(&probe_script_path(CONFIG), "foreign probe\n");
    let report = fx.materialize();
    assert!(matches!(report.state, FpmConfState::Blocked { .. }));
    assert!(fx.read(&conf_path(CONFIG)).is_none());
    assert_eq!(fx.read(&probe_script_path(CONFIG)).as_deref(), Some("foreign probe\n"));
    assert!(fx.fpm_manifest.is_none());
}

#[test]
fn template_upgrade_regenerates_via_version_seam() {
    let mut fx = fixture(false);
    fx.materialize_v(1);
    let stamp = |fx: &Fixture| {
        fx.fpm_manifest
            .as_ref()
            .unwrap()
            .files
            .iter()
            .find(|e| e.path == conf_path(CONFIG))
            .unwrap()
            .applied_at_unix_ms
            .unwrap()
    };
    let before = stamp(&fx);
    let upgraded = fx.materialize_v(2);
    assert_eq!(upgraded.conf, WriteOutcome::Written);
    assert!(fx.read(&conf_path(CONFIG)).unwrap().contains("fpm-conf v2"));
    assert!(stamp(&fx) > before);
}

#[test]
fn tampered_owned_conf_is_refused_with_remediation() {
    let mut fx = fixture(false);
    fx.materialize();
    fx.write(&conf_path(CONFIG), "tampered\n");
    match fx.materialize().state {
        FpmConfState::Blocked { reason } => {
            assert!(reason.contains("modified outside Hearth"), "{reason}")
        }
        other => panic!("expected Blocked, got {other:?}"),
    }
    assert_eq!(fx.read(&conf_path(CONFIG)).as_deref(), Some("tampered\n"));
}

fn fpm_row(path: String, channel: &str, content: &str) -> ManifestEntry {
    ManifestEntry {
        path,
        php_version: "-".to_string(),
        channel: channel.to_string(),
        sha256: sha256_hex(content.as_bytes()),
        state: EntryState::Applied,
        expected_old_sha256: None,
        desired_sha256: None,
        last_outcome: LastOutcome::Written,
        applied_at_unix_ms: Some(1),
    }
}

#[test]
fn forged_manifest_is_blocked_zero_mutation() {
    let conf = || fpm_row(conf_path(CONFIG), "fpm-conf", "x");
    let probe = || fpm_row(probe_script_path(CONFIG), "fpm-probe", "y");
    let outside = fpm_row("/tmp/hearth-forged-outside".to_string(), "fpm-conf", "x");
    let wrong_channel = fpm_row(conf_path(CONFIG), "wrong", "x");
    let mut wrong_version = conf();
    wrong_version.php_version = "8.4".to_string();
    let third = fpm_row("/tmp/third".to_string(), "fpm-probe", "z");
    for (version, files) in [
        (1, vec![outside]),
        (1, vec![conf(), conf()]),
        (1, vec![conf(), probe(), third]),
        (1, vec![wrong_channel]),
        (1, vec![wrong_version]),
        (999, vec![conf()]),
    ] {
        let mut fx = fixture(false);
        fx.tree.dir_as(&format!("{CONFIG}/fpm"), 0o700, EUID);
        let mut m = Manifest::empty();
        m.version = version;
        m.files = files;
        fx.keep(Book::Fpm, Some(m));
        let report = fx.materialize();
        assert!(matches!(report.state, FpmConfState::Blocked { .. }), "{report:?}");
        assert!(fx.read(&conf_path(CONFIG)).is_none());
        assert!(fx.read(&probe_script_path(CONFIG)).is_none());
    }

    let mut fx = fixture(false);
    fx.tree.dir_as(&format!("{CONFIG}/fpm"), 0o700, EUID);
    fx.write(&format!("{CONFIG}/foreign-manifest.toml"), "version = 1\nfiles = []\n");
    fx.tree.link(
        &fpm_manifest_path(CONFIG),
        &format!("{CONFIG}/foreign-manifest.toml"),
    );
    let report = fx.materialize();
    assert!(matches!(report.state, FpmConfState::Blocked { .. }));
    assert!(fx.read(&conf_path(CONFIG)).is_none());
}

#[test]
fn crash_recovery_replays_pending_fpm_journal() {
    let mut fx = fixture(false);
    fx.materialize();
    let conf = conf_path(CONFIG);
    let mut m = fx.fpm_manifest.clone().unwrap();
    let entry = m.files.iter_mut().find(|e| e.path == conf).unwrap();
    let desired = render_fpm_conf_v(2, CONFIG.as_bytes()).unwrap();
    entry.state = EntryState::Pending;
    entry.expected_old_sha256 = Some(entry.sha256.clone());
    entry.desired_sha256 = Some(sha256_hex(desired.as_bytes()));
    fx.keep(Book::Fpm, Some(m));

    let txn = recover_pending_fpm(CONFIG, &fx.disk()).unwrap();
    recovery_result(fx.drive(Book::Fpm, txn)).unwrap();
    let still = fx.fpm_manifest.clone().unwrap();
    assert_eq!(
        still.files.iter().find(|e| e.path == conf).unwrap().state,
        EntryState::Pending
    );
    assert!(matches!(fx.materialize_v(2).state, FpmConfState::HearthOwned { .. }));

    let probe = probe_script_path(CONFIG);
    let mut deleting = fx.fpm_manifest.clone().unwrap();
    let entry = deleting.files.iter_mut().find(|e| e.path == probe).unwrap();
    entry.state = EntryState::Pending;
    entry.expected_old_sha256 = Some(entry.sha256.clone());
    entry.desired_sha256 = None;
    fx.keep(Book::Fpm, Some(deleting));
    fx.tree.nodes.remove(&probe);
    let txn = recover_pending_fpm(CONFIG, &fx.disk()).unwrap();
    recovery_result(fx.drive(Book::Fpm, txn)).unwrap();
    assert!(fx.fpm_manifest.unwrap().files.iter().all(|e| e.path != probe));
}

#[test]
fn unmanage_fpm_removes_only_owned_exact_hash() {
    let mut fx = fixture(false);
    fx.materialize();
    let actions = fx.unmanage_fpm().unwrap();
    assert_eq!(actions.len(), 2);
    assert!(actions.iter().all(|a| matches!(a.outcome, WriteOutcome::Deleted)));
    assert!(fx.read(&conf_path(CONFIG)).is_none());
    assert!(fx.read(&probe_script_path(CONFIG)).is_none());
    assert!(fx.fpm_manifest.is_none());

    fx.write(&conf_path(CONFIG), "foreign\n");
    assert!(fx.unmanage_fpm().unwrap().is_empty());
    assert_eq!(fx.read(&conf_path(CONFIG)).as_deref(), Some("foreign\n"));
}

#[test]
fn crash_while_holding_lock_releases_and_recovers() {
    let mut fx = fixture(false);
    fx.materialize();
    fx.crash_before_write = true;
    let run = materialize_with_options(CONFIG, 2).unwrap();
    fx.drive(Book::Fpm, run);
    assert!(fx.crashed);
    fx.crash_before_write = false;
    // The journal is durable, the content is still the old one.
    assert!(fx
        .fpm_manifest
        .as_ref()
        .unwrap()
        .files
        .iter()
        .any(|e| e.state == EntryState::Pending));
    let report = fx.materialize_v(2);
    assert!(matches!(report.state, FpmConfState::HearthOwned { .. }));
}

#[test]
fn lock_busy_yields_conservative_refusal_zero_mutation() {
    let mut fx = fixture(false);
    fx.materialize();
    let before = fx.read(&conf_path(CONFIG));
    fx.busy = true;
    let report = fx.materialize_v(2);
    match report.conf {
        WriteOutcome::Failed { error } => {
            assert!(error.contains("another Hearth process"), "{error}");
            assert!(error.contains("waited 100ms"), "{error}");
        }
        other => panic!("{other:?}"),
    }
    assert!(matches!(report.state, FpmConfState::Blocked { .. }));
    assert_eq!(fx.read(&conf_path(CONFIG)), before);
}

#[test]
fn empty_manifest_deletion_is_durable_and_idempotent() {
    let mut fx = fixture(false);
    fx.materialize();
    fx.crash_before_unlink = true;
    assert!(fx.unmanage_fpm().is_err());
    fx.crash_before_unlink = false;
    fx.crashed = false;
    assert!(fx.read(&conf_path(CONFIG)).is_none());
    assert!(fx.read(&probe_script_path(CONFIG)).is_none());
    assert!(fx.fpm_manifest.is_some());
    assert!(fx.unmanage_fpm().unwrap().is_empty());
    assert!(fx.fpm_manifest.is_none());
    assert!(fx.unmanage_fpm().unwrap().is_empty());
}

#[test]
fn symlinked_fpm_dir_is_refused_zero_mutation_and_oversized_is_typed() {
    let mut fx = fixture(false);
    fx.tree.dir("/base/outside");
    fx.tree.link(&format!("{CONFIG}/fpm"), "/base/outside");
    let report = fx.materialize();
    assert!(matches!(report.state, FpmConfState::Blocked { .. }));
    assert!(!fx.tree.nodes.keys().any(|p| p.starts_with("/base/outside/")));

    let too_long = format!("/{}", "a".repeat(104 - "/run/php-fpm.sock".len() - 1));
    assert_eq!(format!("{too_long}/run/php-fpm.sock").len(), 104);
    match materialize_with_options(&too_long, 1).unwrap_err().state {
        FpmConfState::Blocked { reason } => assert!(reason.contains("limit 103 + NUL")),
        other => panic!("expected typed Blocked, got {other:?}"),
    }
}

#[test]
fn downgrade_isolation_ini_reconcile_never_touches_fpm_artifacts() {
    let mut fx = fixture(false);
    fx.materialize();
    let conf = fx.read(&conf_path(CONFIG));
    let probe = fx.read(&probe_script_path(CONFIG));
    let rows = fx.fpm_manifest.clone().unwrap().files;
    let mut run = reconcile(&PhpIniSettings::default(), &Vec::new());
    run.txn = fx.drive(Book::Ini, run.txn);
    let report = run.report(&fx.engine.manifest_path());
    assert!(report.files.is_empty());
    assert_eq!(fx.read(&conf_path(CONFIG)), conf);
    assert_eq!(fx.read(&probe_script_path(CONFIG)), probe);
    assert_eq!(fx.fpm_manifest.unwrap().files, rows);
}
