use std::collections::BTreeMap;

use hearth_lib::fs::{FileMeta, IoFault, PathFacts, Snapshot};
use hearth_lib::php::artifact::DirIdentity;
use hearth_lib::php::artifact_dir::{recheck, verify, ArtifactDir};
use hearth_lib::php::channel_dir::site;
use hearth_lib::php::reconcile::sha256_hex;
use hearth_lib::php::roots::{canonical_allowed_root_allowing_missing, RootOverrides};
use hearth_lib::php::targets::{
    classify_channel, cli_value, created_channel_dir, discover_provider_targets, ensure_hearth_channel_dir,
    env_honor, expected_binary_path, fpm_value, parse_parsed_ini_files, parse_scan_dir, probe_fault_text,
    probe_scan_dirs, probe_text, reported_value, verify_binary_identity, verify_user_channel,
    ChannelClass, ChannelRejection, PhpProvider, PhpSapi, ProbeFault, ProviderRoots, VerifiedDir,
};

/// A file tree in memory, of which snapshots are taken.
#[derive(Default)]
struct Tree {
    nodes: BTreeMap<String, Node>,
    inodes: u64,
}

#[derive(Clone)]
enum Node {
    Dir { mode: u32, uid: u32, ino: u64 },
    File { mode: u32, ino: u64, content: String },
    Link(String),
}

const EUID: u32 = 501;

impl Tree {
    fn new() -> Self {
        let mut tree = Tree::default();
        tree.nodes.insert(
            "/".to_string(),
            Node::Dir { mode: 0o755, uid: 0, ino: 1 },
        );
        tree.inodes = 1;
        tree
    }

    fn dir(&mut self, path: &str) -> &mut Self {
        self.dir_as(path, 0o755, EUID)
    }

    fn dir_as(&mut self, path: &str, mode: u32, uid: u32) -> &mut Self {
        for (i, _) in path.match_indices('/').skip(1) {
            let up = path[..i].to_string();
            if !self.nodes.contains_key(&up) {
                self.inodes += 1;
                let ino = self.inodes;
                self.nodes.insert(up, Node::Dir { mode: 0o755, uid: EUID, ino });
            }
        }
        self.inodes += 1;
        let ino = self.inodes;
        self.nodes.insert(path.to_string(), Node::Dir { mode, uid, ino });
        self
    }

    fn file(&mut self, path: &str, mode: u32, content: &str) -> &mut Self {
        let up = path.rfind('/').unwrap();
        if !self.nodes.contains_key(&path[..up]) {
            self.dir(&path[..up].to_string());
        }
        self.inodes += 1;
        let ino = self.inodes;
        self.nodes.insert(
            path.to_string(),
            Node::File { mode, ino, content: content.to_string() },
        );
        self
    }

    fn exec(&mut self, path: &str) -> &mut Self {
        self.file(path, 0o755, "#!/bin/sh\nexit 0\n")
    }

    fn link(&mut self, path: &str, to: &str) -> &mut Self {
        let up = path.rfind('/').unwrap();
        if up > 0 && !self.nodes.contains_key(&path[..up]) {
            self.dir(&path[..up].to_string());
        }
        self.nodes.insert(path.to_string(), Node::Link(to.to_string()));
        self
    }

    /// The path without symbolic links, if everything on it is there.
    fn resolve(&self, path: &str, follow_last: bool) -> Option<String> {
        let mut at = String::new();
        let parts: Vec<&str> = path.split('/').filter(|p| !p.is_empty()).collect();
        for (i, part) in parts.iter().enumerate() {
            let next = format!("{at}/{part}");
            match self.nodes.get(&next) {
                None => return None,
                Some(Node::Link(to)) if follow_last || i + 1 < parts.len() => {
                    let target = self.resolve(to, true)?;
                    at = if target == "/" { String::new() } else { target };
                }
                Some(_) => at = next,
            }
        }
        Some(if at.is_empty() { "/".to_string() } else { at })
    }

    fn meta(&self, node: &Node) -> FileMeta {
        let (is_dir, is_file, is_symlink, mode, uid, ino) = match node {
            Node::Dir { mode, uid, ino } => (true, false, false, *mode, *uid, *ino),
            Node::File { mode, ino, .. } => (false, true, false, *mode, EUID, *ino),
            Node::Link(_) => (false, false, true, 0o777, EUID, 0),
        };
        FileMeta { is_symlink, is_dir, is_file, uid, mode, dev: 1, ino, nlink: 1, len: 0 }
    }

    fn look(&self, path: &str) -> PathFacts {
        let missing = "No such file or directory (os error 2)".to_string();
        let target = self.resolve(path, true);
        let found = target.as_ref().and_then(|t| self.nodes.get(t));
        let own = self.resolve(path, false).and_then(|t| self.nodes.get(&t).cloned());
        PathFacts {
            exists: found.is_some(),
            link: match own {
                Some(n) => Ok(self.meta(&n)),
                None => Err(IoFault { not_found: true, text: missing.clone() }),
            },
            canonical: target.clone().ok_or(missing.clone()),
            target: found.map(|n| self.meta(n)).ok_or(missing.clone()),
            hash: match found {
                Some(Node::File { content, .. }) => Ok(sha256_hex(content.as_bytes())),
                _ => Err(missing),
            },
        }
    }

    /// A snapshot of everything that is there, and of these paths with what
    /// lies above them.
    fn snapshot(&self, looks: &[&str]) -> Snapshot {
        let mut disk = Snapshot::new(EUID);
        let mut paths: Vec<String> = self.nodes.keys().cloned().collect();
        for look in looks {
            for (i, _) in look.match_indices('/').skip(1) {
                paths.push(look[..i].to_string());
            }
            paths.push(look.to_string());
        }
        for path in paths {
            let facts = self.look(&path);
            disk.record(path, facts);
        }
        disk
    }
}

fn test_roots(tree: &Tree) -> ProviderRoots {
    ProviderRoots::isolated(
        "/base",
        "/base/hearth".to_string(),
        "/base/Herd".to_string(),
        "/base/homebrew".to_string(),
        &tree.snapshot(&["/base/hearth", "/base/Herd", "/base/homebrew"]),
    )
    .unwrap()
}

fn base() -> Tree {
    let mut tree = Tree::new();
    tree.dir("/base");
    tree
}

fn no_overrides() -> RootOverrides {
    RootOverrides { herd: None, homebrew: None, isolated: None }
}

const CONFIG: &str = "/home/me/.config/hearth";

// ---- probing ----

#[test]
fn probe_parses_cli_scan_dir_line() {
    let out = "Configuration File (php.ini) Path: /etc\n\
               Scan for additional .ini files in: /opt/homebrew/etc/php/8.5/conf.d\n";
    let info = probe_scan_dirs(true, Ok(out.to_string()), Ok(out.to_string()), Ok(true));
    assert_eq!(
        info.normal_scan_dir.as_deref(),
        Some("/opt/homebrew/etc/php/8.5/conf.d")
    );
    assert_eq!(info.sanitized_scan_dir, info.normal_scan_dir);
    assert!(info.env_honored);
    assert!(info.failures.is_empty());
}

#[test]
fn probe_parses_every_spelling_of_the_scan_dir() {
    assert_eq!(
        parse_scan_dir("Scan this dir for additional .ini files => /x/conf.d\n").as_deref(),
        Some("/x/conf.d")
    );
    assert_eq!(
        parse_scan_dir("Scan for additional .ini files in: \"/x y/conf.d\"\n").as_deref(),
        Some("/x y/conf.d")
    );
    assert_eq!(
        parse_scan_dir("Scan for additional .ini files in: :/x/conf.d\n").as_deref(),
        Some("/x/conf.d")
    );
    assert_eq!(parse_scan_dir("Scan for additional .ini files in: (none)\n"), None);
    assert_eq!(parse_scan_dir("nothing of the kind\n"), None);
}

#[test]
fn probe_failures_are_listed_in_order() {
    let info = probe_scan_dirs(
        false,
        Err("spawn failed: x".to_string()),
        Err("timed out".to_string()),
        Ok(false),
    );
    assert_eq!(info.failures.len(), 4);
    assert_eq!(info.failures[0], "normal probe: HOME missing from daemon environment");
    assert_eq!(info.failures[1], "normal probe: spawn failed: x");
    assert_eq!(info.failures[2], "sanitized probe: timed out");
    assert!(info.failures[3].starts_with("canary: marker ini absent"));
    assert!(!info.env_honored);
    let info = probe_scan_dirs(
        true,
        Ok(String::new()),
        Ok(String::new()),
        Err("boom".to_string()),
    );
    assert_eq!(info.failures, ["canary probe: boom"]);
}

#[test]
fn canary_needs_functional_proof() {
    let marker = "/tmp/hearth-canary/hearth-canary.ini";
    // Wrapped, quoted list.
    let good = "Additional .ini files parsed:      \"/a/one.ini\",\n\
                \"/tmp/hearth-canary/hearth-canary.ini\"\n";
    assert_eq!(env_honor(true, "exit status: 0", good, marker), Ok(true));
    assert_eq!(
        parse_parsed_ini_files(good),
        ["/a/one.ini", "/tmp/hearth-canary/hearth-canary.ini"]
    );
    // An echoed scan dir is no proof.
    let echo = "Scan for additional .ini files in: :/tmp/hearth-canary\n\
                Additional .ini files parsed: (none)\n";
    assert_eq!(env_honor(true, "exit status: 0", echo, marker), Ok(false));
    assert_eq!(
        env_honor(false, "exit status: 64", good, marker),
        Err("canary probe exited nonzero (exit status: 64)".to_string())
    );
}

#[test]
fn probe_faults_in_words() {
    assert_eq!(probe_fault_text(&ProbeFault::TimedOut(1500)), "timed out after 1.5s");
    assert_eq!(probe_fault_text(&ProbeFault::TimedOut(250)), "timed out after 250ms");
    assert_eq!(
        probe_fault_text(&ProbeFault::Spawn("ENOENT".to_string())),
        "spawn failed: ENOENT"
    );
    assert_eq!(
        probe_fault_text(&ProbeFault::Wait("ECHILD".to_string())),
        "wait failed: ECHILD"
    );
    assert_eq!(probe_text(&b"ok \xff".to_vec()), "ok \u{fffd}");
}

// ---- discovery ----

#[test]
fn discovery_emits_both_providers_for_same_version() {
    let mut tree = base();
    tree.exec("/base/Herd/bin/php85");
    tree.exec("/base/Herd/bin/php85-fpm");
    tree.exec("/base/homebrew/opt/php@8.5/bin/php");
    tree.exec("/base/homebrew/opt/php@8.5/sbin/php-fpm");
    let roots = test_roots(&tree);
    let ids = discover_provider_targets(&roots, &tree.snapshot(&[]));
    assert_eq!(ids.len(), 4, "no cross-provider dedup: {ids:?}");
    assert!(ids.iter().all(|id| id.version == "8.5"));
    for provider in [PhpProvider::Herd, PhpProvider::Homebrew] {
        for sapi in [PhpSapi::Cli, PhpSapi::Fpm] {
            assert!(
                ids.iter().any(|id| id.provider == provider && id.sapi == sapi),
                "missing {provider:?}/{sapi:?} in {ids:?}"
            );
        }
    }
}

#[test]
fn discover_yields_cli_and_fpm_per_provider() {
    let mut tree = base();
    let cli = "/base/hearth/php/8.4/php";
    let fpm = "/base/hearth/php/8.4/php-fpm";
    tree.exec(cli);
    tree.exec(fpm);
    let roots = test_roots(&tree);
    let ids = discover_provider_targets(&roots, &tree.snapshot(&[]));
    assert_eq!(ids.len(), 2);
    assert!(ids.iter().all(|id| id.provider == PhpProvider::Hearth));
    assert!(ids.iter().any(|id| id.sapi == PhpSapi::Cli && id.binary == cli));
    assert!(ids.iter().any(|id| id.sapi == PhpSapi::Fpm && id.binary == fpm));
    assert_eq!(
        expected_binary_path(PhpProvider::Herd, "8.4", PhpSapi::Fpm, &roots),
        "/base/Herd/bin/php84-fpm"
    );
}

#[test]
fn identity_needs_exactly_one_provider_root() {
    let mut tree = base();
    tree.exec("/base/hearth/php/8.4/php");
    tree.exec("/base/outside-php");
    tree.link("/base/Herd/bin/php84", "/base/outside-php");
    tree.dir("/base/homebrew");
    let roots = test_roots(&tree);
    let disk = tree.snapshot(&[]);
    assert_eq!(
        verify_binary_identity(PhpProvider::Hearth, "8.4", PhpSapi::Cli, &roots, &disk),
        Ok("/base/hearth/php/8.4/php".to_string())
    );
    let escaped =
        verify_binary_identity(PhpProvider::Herd, "8.4", PhpSapi::Cli, &roots, &disk).unwrap_err();
    assert!(escaped.contains("escapes"), "{escaped}");
    let missing = verify_binary_identity(PhpProvider::Homebrew, "8.4", PhpSapi::Cli, &roots, &disk)
        .unwrap_err();
    assert!(missing.contains("cannot canonicalize"), "{missing}");

    // An alias of one root for another makes every binary below it ambiguous.
    let mut tree = base();
    tree.exec("/base/hearth/php/8.4/php");
    let roots = test_roots(&tree);
    tree.link("/base/Herd", "/base/hearth");
    let twice = verify_binary_identity(
        PhpProvider::Hearth,
        "8.4",
        PhpSapi::Cli,
        &roots,
        &tree.snapshot(&[]),
    )
    .unwrap_err();
    assert!(twice.contains("ambiguous"), "{twice}");
}

// ---- classification ----

#[test]
fn classify_homebrew_verified() {
    let mut tree = base();
    let dir = "/base/homebrew/etc/php/8.5/conf.d";
    tree.dir(dir);
    let roots = test_roots(&tree);
    let class = classify_channel(
        PhpProvider::Homebrew,
        "8.5",
        Some(dir),
        None,
        &roots,
        &tree.snapshot(&[]),
    );
    assert_eq!(class, ChannelClass::Verified { dir: dir.to_string() });
}

#[test]
fn classify_herd_normal_plus_privileged_sanitized() {
    let mut tree = base();
    let herd_dir = "/base/Herd/config/php/84";
    tree.dir(herd_dir);
    let roots = test_roots(&tree);
    let disk = tree.snapshot(&[]);

    let normal = classify_channel(PhpProvider::Herd, "8.4", Some(herd_dir), None, &roots, &disk);
    assert_eq!(normal, ChannelClass::Verified { dir: herd_dir.to_string() });

    let privileged = "/usr/local/etc/php/conf.d";
    let sanitized =
        classify_channel(PhpProvider::Herd, "8.4", Some(privileged), None, &roots, &disk);
    assert_eq!(sanitized, ChannelClass::PrivilegedDir { dir: privileged.to_string() });
}

#[test]
fn denylist_rejects_usr_local_prefix() {
    let tree = base();
    let roots = test_roots(&tree);
    // The /usr/local/etc/php prefix is privileged regardless of provider,
    // layout expectations, or probe context.
    for probed in ["/usr/local/etc/php/conf.d", "/usr/local/etc/php/8.4/conf.d"] {
        let class = classify_channel(
            PhpProvider::Homebrew,
            "8.4",
            Some(probed),
            None,
            &roots,
            &tree.snapshot(&[]),
        );
        assert_eq!(
            class,
            ChannelClass::PrivilegedDir { dir: probed.to_string() },
            "{probed} must classify as PrivilegedDir"
        );
    }
}

#[test]
fn unexpected_layouts_and_failed_probes_are_best_effort() {
    let mut tree = base();
    tree.dir("/base/homebrew/etc/php/8.5/conf.d");
    let roots = test_roots(&tree);
    let disk = tree.snapshot(&[]);
    let class = classify_channel(
        PhpProvider::Homebrew,
        "8.4",
        Some("/base/homebrew/etc/php/8.5/conf.d"),
        None,
        &roots,
        &disk,
    );
    match class {
        ChannelClass::BestEffort { reason } => {
            assert!(reason.contains("does not match the expected"), "{reason}")
        }
        other => panic!("{other:?}"),
    }
    assert_eq!(
        classify_channel(
            PhpProvider::Homebrew,
            "8.4",
            None,
            Some("normal probe: boom"),
            &roots,
            &disk
        ),
        ChannelClass::BestEffort { reason: "normal probe: boom".to_string() }
    );
}

#[test]
fn verify_rejects_symlink_leaf() {
    let mut tree = base();
    tree.dir("/base/real-conf.d");
    tree.link("/base/link-conf.d", "/base/real-conf.d");
    let err = verify_user_channel(
        "/base/link-conf.d",
        &vec!["/base".to_string()],
        &tree.snapshot(&[]),
    )
    .unwrap_err();
    assert!(
        err.reason.to_lowercase().contains("symlink"),
        "rejection must name the symlink: {}",
        err.reason
    );
}

#[test]
fn verify_rejects_symlinked_ancestor_escaping_allowlist() {
    let mut tree = Tree::new();
    tree.dir("/allowed");
    tree.dir("/outside/conf.d");
    tree.link("/allowed/mid", "/outside");
    let dir = "/allowed/mid/conf.d";
    assert!(
        verify_user_channel(dir, &vec!["/allowed".to_string()], &tree.snapshot(&[dir])).is_err(),
        "canonicalization must expose the ancestor symlink escaping the allowlist"
    );
}

#[test]
fn verify_rejects_group_writable() {
    let mut tree = base();
    tree.dir_as("/base/loose-conf.d", 0o775, EUID);
    let err = verify_user_channel(
        "/base/loose-conf.d",
        &vec!["/base".to_string()],
        &tree.snapshot(&[]),
    )
    .unwrap_err();
    assert!(
        err.reason.to_lowercase().contains("writable"),
        "rejection must explain the write-mask problem: {}",
        err.reason
    );
    assert!(err.message().contains("mode 775"), "{}", err.message());
}

#[test]
fn verify_rejects_foreign_owner_and_files_and_strangers() {
    let mut tree = base();
    tree.dir_as("/base/foreign", 0o755, 0);
    tree.file("/base/plain", 0o644, "x");
    tree.dir("/elsewhere");
    let disk = tree.snapshot(&[]);
    let allowed = vec!["/base".to_string()];
    let err = verify_user_channel("/base/foreign", &allowed, &disk).unwrap_err();
    assert!(err.reason.contains("not owned"), "{}", err.reason);
    let err = verify_user_channel("/base/plain", &allowed, &disk).unwrap_err();
    assert!(err.reason.contains("not a directory"), "{}", err.reason);
    let err = verify_user_channel("/elsewhere", &allowed, &disk).unwrap_err();
    assert!(err.reason.contains("outside the allowed"), "{}", err.reason);
    let err = verify_user_channel("/base/none", &allowed, &disk).unwrap_err();
    assert!(err.reason.contains("not accessible"), "{}", err.reason);
}

#[test]
fn ambient_channel_must_preexist() {
    let tree = base();
    let roots = test_roots(&tree);
    let expected = "/base/homebrew/etc/php/8.1/conf.d";
    let class = classify_channel(
        PhpProvider::Homebrew,
        "8.1",
        Some(expected),
        None,
        &roots,
        &tree.snapshot(&[expected]),
    );
    assert!(
        matches!(class, ChannelClass::BestEffort { .. }),
        "missing ambient channel is BestEffort, got {class:?}"
    );
}

// ---- creation ----

#[test]
fn ensure_hearth_channel_dir_creates_and_verifies() {
    let mut tree = base();
    tree.dir("/base/hearth");
    let dir = "/base/hearth/php/8.4/conf.d";
    let root = ensure_hearth_channel_dir("/base/hearth", dir, &tree.snapshot(&[dir])).unwrap();
    assert_eq!(root, "/base/hearth");
    tree.dir(dir);
    let verified = created_channel_dir(dir, &root, Ok(()), &tree.snapshot(&[])).unwrap();
    assert_eq!(verified.path, dir);
    // Idempotent on an existing dir.
    assert!(ensure_hearth_channel_dir("/base/hearth", dir, &tree.snapshot(&[])).is_ok());
    let err = created_channel_dir(dir, &root, Err("EACCES".to_string()), &tree.snapshot(&[]))
        .unwrap_err();
    assert_eq!(err.reason, format!("creating {dir} failed: EACCES"));
}

#[test]
fn ensure_hearth_channel_dir_rejects_outside_root() {
    let mut tree = base();
    tree.dir("/base/hearth");
    let err = ensure_hearth_channel_dir(
        "/base/hearth",
        "/base/elsewhere/conf.d",
        &tree.snapshot(&[]),
    )
    .unwrap_err();
    assert!(err.reason.contains("outside the Hearth root"), "got: {err:?}");
}

#[test]
fn ensure_hearth_channel_dir_rejects_symlinked_ancestor() {
    let mut tree = base();
    tree.dir("/base/hearth");
    tree.dir("/base/outside");
    tree.link("/base/hearth/php", "/base/outside");
    let dir = "/base/hearth/php/8.4/conf.d";
    let err =
        ensure_hearth_channel_dir("/base/hearth", dir, &tree.snapshot(&[dir])).unwrap_err();
    assert!(err.reason.contains("symlink"), "got: {err:?}");
}

#[test]
fn ensure_hearth_channel_dir_rejects_group_writable_ancestor() {
    let mut tree = base();
    tree.dir("/base/hearth");
    tree.dir_as("/base/hearth/php", 0o777, EUID);
    let dir = "/base/hearth/php/8.4/conf.d";
    let err =
        ensure_hearth_channel_dir("/base/hearth", dir, &tree.snapshot(&[dir])).unwrap_err();
    assert!(err.reason.contains("writable"), "got: {err:?}");
}

// ---- roots ----

#[test]
fn lone_provider_override_without_isolated_root_is_rejected() {
    let tree = base();
    let err = ProviderRoots::detect_with_home(
        RootOverrides {
            herd: Some("/tmp/evil-discovery-root".to_string()),
            homebrew: None,
            isolated: None,
        },
        CONFIG.to_string(),
        Some("/base".to_string()),
        &tree.snapshot(&[]),
    )
    .unwrap_err();
    assert!(err.contains("HEARTH_ISOLATED_ROOT"), "got: {err}");
}

#[test]
fn present_but_empty_provider_override_fails_closed() {
    let mut tree = base();
    tree.dir("/base/hearth");
    let disk = tree.snapshot(&[]);
    let detect = |herd: Option<&str>, homebrew: Option<&str>, isolated: Option<&str>| {
        ProviderRoots::detect_with_home(
            RootOverrides {
                herd: herd.map(str::to_string),
                homebrew: homebrew.map(str::to_string),
                isolated: isolated.map(str::to_string),
            },
            "/base/hearth".to_string(),
            Some("/base".to_string()),
            &disk,
        )
    };
    let err = detect(Some(""), None, None).unwrap_err();
    assert!(err.contains("empty"), "got: {err}");
    let err = detect(None, Some(""), None).unwrap_err();
    assert!(err.contains("empty"), "got: {err}");
    // …and in isolated mode: a present empty provider root never silently
    // defaults beneath the runtime root.
    let err = detect(Some(""), None, Some("/base")).unwrap_err();
    assert!(err.contains("empty"), "got: {err}");
    let err = detect(None, None, Some("")).unwrap_err();
    assert!(err.contains("empty"), "got: {err}");
    let roots = detect(None, None, Some("/base")).unwrap();
    assert_eq!(roots.herd, "/base/herd");
    assert_eq!(roots.homebrew, "/base/homebrew");
}

#[test]
fn production_write_authority_is_immutable_and_never_tmp() {
    let mut tree = Tree::new();
    tree.dir(CONFIG);
    tree.dir("/opt/homebrew");
    let roots = ProviderRoots::detect_with_home(
        no_overrides(),
        CONFIG.to_string(),
        Some("/home/me".to_string()),
        &tree.snapshot(&[]),
    )
    .unwrap();
    let allowed = roots.allowed_prefixes();
    assert_eq!(allowed.len(), 3, "config dir + home + /opt/homebrew: {allowed:?}");
    assert!(
        allowed
            .iter()
            .all(|p| !p.starts_with("/tmp") && !p.starts_with("/private/tmp")),
        "no temp path may ever be production write authority: {allowed:?}"
    );
    assert!(allowed.iter().any(|p| p == "/opt/homebrew"), "got: {allowed:?}");
}

#[test]
fn home_unavailable_or_root_fails_closed_never_slash_allowlist() {
    let mut tree = base();
    tree.dir(CONFIG);
    let disk = tree.snapshot(&[]);
    let detect = |home: Option<&str>| {
        ProviderRoots::detect_with_home(
            no_overrides(),
            CONFIG.to_string(),
            home.map(str::to_string),
            &disk,
        )
    };
    let err = detect(None).unwrap_err();
    assert!(err.contains("home"), "got: {err}");
    assert!(err.contains("fail closed"), "got: {err}");

    let err = detect(Some("/")).unwrap_err();
    assert!(err.contains("can never be write authority"), "got: {err}");

    // A valid home yields an allowlist that never contains `/`.
    let roots = detect(Some("/base")).unwrap();
    let allowed = roots.allowed_prefixes();
    assert!(
        allowed.iter().all(|p| p != "/"),
        "`/` must never be write authority: {allowed:?}"
    );
    assert!(allowed.contains(&"/base".to_string()));
}

#[test]
fn home_symlink_alias_to_root_or_denylist_is_rejected() {
    let mut tree = base();
    tree.dir(CONFIG);
    tree.dir("/usr/local/etc/php");
    tree.link("/base/home-alias-root", "/");
    tree.link("/base/home-alias-denylist", "/usr/local/etc/php");
    tree.file("/base/file-home", 0o644, "x");
    let disk = tree.snapshot(&[]);
    let detect = |home: &str| {
        ProviderRoots::detect_with_home(
            no_overrides(),
            CONFIG.to_string(),
            Some(home.to_string()),
            &disk,
        )
    };
    let err = detect("/base/home-alias-root").unwrap_err();
    assert!(err.contains("/"), "got: {err}");
    assert!(detect("/base/home-alias-denylist").is_err());
    // Missing / non-directory HOME fails closed too.
    assert!(detect("/base/no-such-home").is_err());
    assert!(detect("/base/file-home").is_err());
}

#[test]
fn isolated_runtime_root_slash_or_alias_is_rejected() {
    let mut tree = base();
    tree.link("/base/runtime-alias-root", "/");
    let disk = tree.snapshot(&[]);
    let err = ProviderRoots::isolated(
        "/",
        "/hearth".to_string(),
        "/herd".to_string(),
        "/homebrew".to_string(),
        &disk,
    )
    .unwrap_err();
    assert!(err.contains("/"), "got: {err}");
    let alias = "/base/runtime-alias-root";
    assert!(
        ProviderRoots::isolated(
            alias,
            format!("{alias}/hearth"),
            format!("{alias}/herd"),
            format!("{alias}/homebrew"),
            &disk,
        )
        .is_err(),
        "runtime root aliasing `/` must be rejected"
    );
}

#[test]
fn allowed_prefixes_can_never_contain_slash() {
    let mut tree = base();
    tree.dir("/base/hearth");
    tree.dir(CONFIG);
    let disk = tree.snapshot(&["/base/herd", "/base/homebrew"]);
    let production = ProviderRoots::detect_with_home(
        no_overrides(),
        CONFIG.to_string(),
        Some("/base".to_string()),
        &disk,
    )
    .unwrap();
    let isolated = ProviderRoots::isolated(
        "/base",
        "/base/hearth".to_string(),
        "/base/herd".to_string(),
        "/base/homebrew".to_string(),
        &disk,
    )
    .unwrap();
    for roots in [production, isolated] {
        assert!(
            roots
                .allowed_prefixes()
                .iter()
                .all(|p| p != "/" && p.starts_with('/')),
            "invariant violated: {:?}",
            roots.allowed_prefixes()
        );
    }
}

#[test]
fn isolated_mode_confines_and_validates_roots() {
    let mut tree = base();
    tree.dir("/base/hearth");
    tree.dir("/tmp");
    let disk = tree.snapshot(&["/base/herd", "/base/homebrew"]);
    let isolated = |herd: &str| {
        ProviderRoots::isolated(
            "/base",
            "/base/hearth".to_string(),
            herd.to_string(),
            "/base/homebrew".to_string(),
            &disk,
        )
    };
    // Roots outside the runtime root are rejected.
    let err = isolated("/tmp").unwrap_err();
    assert!(err.contains("not contained"), "got: {err}");
    // Relative/empty roots are rejected.
    let err = isolated("relative/herd").unwrap_err();
    assert!(err.contains("absolute"), "got: {err}");
    // Valid isolated construction confines write authority to the root, and
    // /usr/local stays denied there too.
    let roots = isolated("/base/herd").unwrap();
    assert_eq!(roots.allowed_prefixes(), ["/base"]);
    assert!(verify_user_channel(
        "/usr/local/etc/php/conf.d",
        &roots.allowed_prefixes(),
        &disk
    )
    .is_err());
}

#[test]
fn missing_part_of_a_root_never_climbs_out() {
    let mut tree = base();
    tree.dir("/base/there");
    tree.dir("/outside");
    tree.link("/base/link", "/outside");
    let disk = tree.snapshot(&["/base/x/../../outside", "/base/there/../herd", "/base/homebrew"]);
    let isolated = |hearth: &str| {
        ProviderRoots::isolated(
            "/base",
            hearth.to_string(),
            "/base/herd".to_string(),
            "/base/homebrew".to_string(),
            &disk,
        )
    };
    let err = isolated("/base/x/../../outside").unwrap_err();
    assert_eq!(
        err,
        "isolated hearth root /base/x/../../outside is not contained beneath the isolated runtime \
         root /base"
    );
    assert!(isolated("/base/x/../../base/../outside").is_err());
    // Nor through a link that the climbing leads to.
    assert!(isolated("/base/x/../link/hearth").unwrap_err().contains("is not contained"));
    // Climbing that ends beneath the root is as good as none.
    for hearth in ["/base/x/../hearth", "/base/x/..", "/base/there/x/../../hearth"] {
        let roots = isolated(hearth).unwrap();
        assert_eq!(roots.hearth, hearth);
        assert_eq!(roots.allowed_prefixes(), ["/base"]);
    }
    assert!(isolated("/base/there").is_ok());
    assert!(isolated("/base/x/y").is_ok());
    assert_eq!(site("/base/x/../hearth", &disk), "/base/hearth");
    assert_eq!(site("/base/x/../../outside", &disk), "/outside");
    assert_eq!(site("/base/x/y", &disk), "/base/x/y");
}

#[test]
fn channel_is_never_created_by_climbing_out() {
    let mut tree = base();
    tree.dir("/base/there");
    tree.dir("/outside");
    tree.link("/base/link", "/outside");
    let disk = tree.snapshot(&["/base/x"]);
    let ensure = |dir: &str| ensure_hearth_channel_dir("/base", dir, &disk);
    let err = ensure("/base/x/../../outside").unwrap_err();
    assert!(err.message().contains("is outside the Hearth root"), "{}", err.message());
    let err = ensure("/base/x/../link/conf.d").unwrap_err();
    assert!(err.message().contains("is a symlink"), "{}", err.message());
    assert_eq!(ensure("/base/x/../conf.d").unwrap(), "/base");
    assert_eq!(ensure("/base/there/x/../../conf.d").unwrap(), "/base");
}

#[test]
fn root_that_is_missing_below_the_denylist_is_refused() {
    let mut tree = Tree::new();
    tree.dir("/usr/local/etc");
    let disk = tree.snapshot(&["/usr/local/etc/php/x", "/usr/local/herd", "/usr/local/homebrew"]);
    let err = ProviderRoots::isolated(
        "/usr/local",
        "/usr/local/etc/php/x".to_string(),
        "/usr/local/herd".to_string(),
        "/usr/local/homebrew".to_string(),
        &disk,
    )
    .unwrap_err();
    assert_eq!(err, "isolated hearth root /usr/local/etc/php/x is under /usr/local/etc/php");
    let err = canonical_allowed_root_allowing_missing("hearth config", "/usr/local/etc/php/x", &disk)
        .unwrap_err();
    assert!(err.contains("denylisted"), "{err}");
    let root = |p: &str| canonical_allowed_root_allowing_missing("hearth config", p, &disk);
    assert!(root("/usr/local/a/../etc/php").unwrap_err().contains("denylisted"));
    assert!(root("/usr/local/a/../../b").unwrap_err().contains("escapes its ancestor"));
    // What stays below the ancestor is kept as it is written.
    assert_eq!(root("/usr/local/a/../b").unwrap(), "/usr/local/a/../b");
}

#[test]
fn relative_canonical_path_is_none() {
    let mut disk = Snapshot::new(EUID);
    let mut facts = Tree::new().look("/");
    facts.canonical = Ok("base".to_string());
    disk.record("/base".to_string(), facts);
    assert!(disk.at("/base").canonical.is_err());
}

#[test]
fn parsed_list_after_either_separator() {
    let both = ["/a/x.ini", "/b/y.ini"];
    for out in [
        "Additional .ini files parsed => /a/x.ini,\n/b/y.ini\n",
        "Additional .ini files parsed:      /a/x.ini,\n/b/y.ini\n",
        "Additional .ini files parsed=>/a/x.ini,\n/b/y.ini\n",
        "Additional .ini files parsed :\n/a/x.ini,\n\"/b/y.ini\"\n",
    ] {
        assert_eq!(parse_parsed_ini_files(out), both, "{out}");
    }
    assert!(parse_parsed_ini_files("Additional .ini files parsed => (none)\n").is_empty());
    let out = "Additional .ini files parsed => /tmp/c/marker.ini\n";
    assert_eq!(env_honor(true, "", out, "/tmp/c/marker.ini"), Ok(true));
}

#[test]
fn reported_values_need_a_successful_launch() {
    assert_eq!(cli_value(true, "1G\n").as_deref(), Some("1G"));
    assert_eq!(cli_value(true, "").as_deref(), Some(""));
    assert_eq!(cli_value(false, "1G\n"), None);
    assert_eq!(fpm_value(true, "memory_limit => 1G => 2G\n", "memory_limit").as_deref(), Some("1G"));
    assert_eq!(fpm_value(false, "memory_limit => 1G => 2G\n", "memory_limit"), None);
}

#[test]
fn effective_value_is_the_local_one() {
    let out = "phpinfo()\nmemory_limit => 1G => 128M\nmemory_limit => 2G => 128M\nerror_log => no value => x\n";
    assert_eq!(reported_value(out, "memory_limit").as_deref(), Some("1G"));
    assert_eq!(reported_value(out, "error_log").as_deref(), Some("no value"));
    assert_eq!(reported_value("memory_limit => 1G \n", "memory_limit").as_deref(), Some("1G"));
    assert_eq!(reported_value(out, "limit"), None);
    assert_eq!(reported_value("", "memory_limit"), None);
}

#[test]
fn rewritten_directory_is_noticed_after_the_write() {
    let before = DirIdentity { dev: 1, ino: 2 };
    for (kind, said) in [
        (ArtifactDir::UserChannel, "channel directory was replaced during the write"),
        (ArtifactDir::HearthFpm, "FPM directory was replaced during the write"),
    ] {
        assert!(recheck(kind, &before, Ok(before)).is_ok());
        let other = DirIdentity { dev: 1, ino: 3 };
        assert_eq!(recheck(kind, &before, Ok(other)).unwrap_err(), said);
        assert_eq!(recheck(kind, &before, Err("EIO".to_string())).unwrap_err(), "EIO");
    }
    let verified = VerifiedDir { path: "/c".to_string(), dev: 1, ino: 2 };
    assert_eq!(verify(Ok(verified)).unwrap(), before);
    let rejected = ChannelRejection { reason: "is a symlink".to_string() };
    assert_eq!(verify(Err(rejected)).unwrap_err(), "is a symlink");
}
