use std::collections::BTreeMap;

use hearth_lib::config::{AddedPackage, HearthConfig};
use hearth_lib::fs::{FileMeta, IoFault, PathFacts, Snapshot};
use hearth_lib::php::fpm::FpmConfState;
use hearth_lib::php::reconcile::sha256_hex;
use hearth_lib::php::roots::RootOverrides;
use hearth_lib::php::targets::ProviderRoots;
use hearth_lib::service::managed::{FpmLaunchConf, ManagedService};
use hearth_lib::service::manager::{
    classify_flag_read, classify_pgrep_result, current_fpm_ownership, default_services,
    hearth_fpm_service, is_herd_running, isolated_herd_ownership_override, prune_added_packages,
    vendor_path_for, worker_service, DbOffer, OwnershipOverride, PgrepResult, Surroundings,
};
use hearth_lib::service::supervisor::FpmOwnership;
use hearth_lib::service::ServiceKind;

/// A file tree in memory, of which snapshots are taken.
#[derive(Default)]
struct Tree {
    nodes: BTreeMap<String, Node>,
    inodes: u64,
}

#[derive(Clone)]
enum Node {
    Dir { mode: u32, uid: u32, ino: u64 },
    File { mode: u32, ino: u64, content: String },
    Link(String),
}

const EUID: u32 = 501;

impl Tree {
    fn new() -> Self {
        let mut tree = Tree::default();
        tree.nodes.insert(
            "/".to_string(),
            Node::Dir { mode: 0o755, uid: 0, ino: 1 },
        );
        tree.inodes = 1;
        tree
    }

    fn dir(&mut self, path: &str) -> &mut Self {
        self.dir_as(path, 0o755, EUID)
    }

    fn dir_as(&mut self, path: &str, mode: u32, uid: u32) -> &mut Self {
        for (i, _) in path.match_indices('/').skip(1) {
            let up = path[..i].to_string();
            if !self.nodes.contains_key(&up) {
                self.inodes += 1;
                let ino = self.inodes;
                self.nodes.insert(up, Node::Dir { mode: 0o755, uid: EUID, ino });
            }
        }
        self.inodes += 1;
        let ino = self.inodes;
        self.nodes.insert(path.to_string(), Node::Dir { mode, uid, ino });
        self
    }

    fn file(&mut self, path: &str, mode: u32, content: &str) -> &mut Self {
        let up = path.rfind('/').unwrap();
        if !self.nodes.contains_key(&path[..up]) {
            self.dir(&path[..up].to_string());
        }
        self.inodes += 1;
        let ino = self.inodes;
        self.nodes.insert(
            path.to_string(),
            Node::File { mode, ino, content: content.to_string() },
        );
        self
    }

    fn exec(&mut self, path: &str) -> &mut Self {
        self.file(path, 0o755, "#!/bin/sh\nexit 0\n")
    }

    fn link(&mut self, path: &str, to: &str) -> &mut Self {
        let up = path.rfind('/').unwrap();
        if up > 0 && !self.nodes.contains_key(&path[..up]) {
            self.dir(&path[..up].to_string());
        }
        self.nodes.insert(path.to_string(), Node::Link(to.to_string()));
        self
    }

    /// The path without symbolic links, if everything on it is there.
    fn resolve(&self, path: &str, follow_last: bool) -> Option<String> {
        let mut at = String::new();
        let parts: Vec<&str> = path.split('/').filter(|p| !p.is_empty()).collect();
        for (i, part) in parts.iter().enumerate() {
            let next = format!("{at}/{part}");
            match self.nodes.get(&next) {
                None => return None,
                Some(Node::Link(to)) if follow_last || i + 1 < parts.len() => {
                    let target = self.resolve(to, true)?;
                    at = if target == "/" { String::new() } else { target };
                }
                Some(_) => at = next,
            }
        }
        Some(if at.is_empty() { "/".to_string() } else { at })
    }

    fn meta(&self, node: &Node) -> FileMeta {
        let (is_dir, is_file, is_symlink, mode, uid, ino) = match node {
            Node::Dir { mode, uid, ino } => (true, false, false, *mode, *uid, *ino),
            Node::File { mode, ino, .. } => (false, true, false, *mode, EUID, *ino),
            Node::Link(_) => (false, false, true, 0o777, EUID, 0),
        };
        FileMeta { is_symlink, is_dir, is_file, uid, mode, dev: 1, ino, nlink: 1, len: 0 }
    }

    fn look(&self, path: &str) -> PathFacts {
        let missing = "No such file or directory (os error 2)".to_string();
        let target = self.resolve(path, true);
        let found = target.as_ref().and_then(|t| self.nodes.get(t));
        let own = self.resolve(path, false).and_then(|t| self.nodes.get(&t).cloned());
        PathFacts {
            exists: found.is_some(),
            link: match own {
                Some(n) => Ok(self.meta(&n)),
                None => Err(IoFault { not_found: true, text: missing.clone() }),
            },
            canonical: target.clone().ok_or(missing.clone()),
            target: found.map(|n| self.meta(n)).ok_or(missing.clone()),
            hash: match found {
                Some(Node::File { content, .. }) => Ok(sha256_hex(content.as_bytes())),
                _ => Err(missing),
            },
        }
    }

    /// A snapshot of everything that is there, and of these paths with what
    /// lies above them.
    fn snapshot(&self, looks: &[&str]) -> Snapshot {
        let mut disk = Snapshot::new(EUID);
        let mut paths: Vec<String> = self.nodes.keys().cloned().collect();
        for look in looks {
            for (i, _) in look.match_indices('/').skip(1) {
                paths.push(look[..i].to_string());
            }
            paths.push(look.to_string());
        }
        for path in paths {
            let facts = self.look(&path);
            disk.record(path, facts);
        }
        disk
    }
}

const CONFIG: &str = "/base";

fn base() -> (Tree, ProviderRoots) {
    let mut tree = Tree::new();
    tree.dir("/base");
    let roots = ProviderRoots::isolated(
        "/base",
        "/base/hearth".to_string(),
        "/base/herd".to_string(),
        "/base/homebrew".to_string(),
        &tree.snapshot(&["/base/hearth", "/base/herd", "/base/homebrew"]),
    )
    .unwrap();
    (tree, roots)
}

fn around(ownership: FpmOwnership) -> Surroundings {
    Surroundings {
        ownership,
        home: None,
        fpm_conf: FpmConfState::UserManaged { conf: "/base/fpm/php-fpm.conf".to_string() },
        mailpit: None,
        postgres: None,
        mysql: None,
        redis: None,
    }
}

fn user_managed() -> FpmConfState {
    FpmConfState::UserManaged { conf: "/base/fpm/php-fpm.conf".to_string() }
}

fn kinds(services: &[ManagedService]) -> Vec<ServiceKind> {
    services.iter().map(|s| s.kind()).collect()
}

fn package(package: &str, site: &str, name: &str, version: Option<&str>) -> AddedPackage {
    AddedPackage {
        package: package.to_string(),
        site_path: site.to_string(),
        site_name: name.to_string(),
        command: "/php".to_string(),
        args: vec!["artisan".to_string(), package.to_string()],
        php_version: version.map(str::to_string),
        installed_at: 0,
    }
}

fn offer(kind: ServiceKind, port_in_use: bool) -> Option<DbOffer> {
    Some(DbOffer {
        port_in_use,
        service: Ok(ManagedService::new(kind, "engine".to_string(), vec![])),
    })
}

fn scan_env(version: &str) -> Vec<(String, String)> {
    vec![(
        "PHP_INI_SCAN_DIR".to_string(),
        format!(":/base/php/{version}/conf.d"),
    )]
}

#[test]
fn herd_detection_returns_bool() {
    assert!(is_herd_running(&FpmOwnership::Owned));
    assert!(!is_herd_running(&FpmOwnership::Unowned));
    assert!(!is_herd_running(&FpmOwnership::Unknown("x".to_string())));
}

#[test]
fn default_services_includes_mailpit_when_binary_found() {
    let (tree, roots) = base();
    let mut s = around(FpmOwnership::Unowned);
    s.mailpit = Some("/base/services/mailpit/mailpit".to_string());
    let services = default_services(
        &HearthConfig::default(),
        CONFIG,
        true,
        &roots,
        s,
        &tree.snapshot(&[]),
    );
    assert!(kinds(&services).contains(&ServiceKind::Mailpit));
    let mailpit = services.iter().find(|s| s.kind() == ServiceKind::Mailpit).unwrap();
    assert_eq!(
        mailpit.args(),
        &vec![
            "--smtp",
            "127.0.0.1:1025",
            "--listen",
            "127.0.0.1:8025",
            "--db-file",
            "/base/services/mailpit/mailpit.db"
        ]
    );
}

#[test]
fn default_services_excludes_mailpit_when_binary_missing() {
    let (tree, roots) = base();
    let services = default_services(
        &HearthConfig::default(),
        CONFIG,
        true,
        &roots,
        around(FpmOwnership::Unowned),
        &tree.snapshot(&[]),
    );
    assert!(!kinds(&services).contains(&ServiceKind::Mailpit));
    assert_eq!(kinds(&services), [ServiceKind::Nginx, ServiceKind::Dnsmasq]);
    assert_eq!(
        services[0].args(),
        &vec!["-c", "/base/nginx/nginx.conf", "-g", "daemon off;"]
    );
    assert_eq!(
        services[1].args(),
        &vec![
            "--keep-in-foreground",
            "--port=5354",
            "--conf-file=/base/dnsmasq/dnsmasq.conf"
        ]
    );
}

#[test]
fn default_services_registers_engines_whose_port_is_free() {
    let (tree, roots) = base();
    let build = |busy: bool| {
        let mut s = around(FpmOwnership::Owned);
        s.postgres = offer(ServiceKind::Postgresql, busy);
        s.mysql = offer(ServiceKind::Mysql, busy);
        s.redis = offer(ServiceKind::Redis, busy);
        default_services(
            &HearthConfig::default(),
            CONFIG,
            true,
            &roots,
            s,
            &tree.snapshot(&[]),
        )
    };
    assert_eq!(
        kinds(&build(false)),
        [ServiceKind::Postgresql, ServiceKind::Mysql, ServiceKind::Redis]
    );
    assert!(build(true).is_empty());
    let mut s = around(FpmOwnership::Owned);
    s.redis = Some(DbOffer { port_in_use: false, service: Err("no data dir".to_string()) });
    let none = default_services(
        &HearthConfig::default(),
        CONFIG,
        true,
        &roots,
        s,
        &tree.snapshot(&[]),
    );
    assert!(none.is_empty());
}

#[test]
fn vendor_path_for_maps_known_packages() {
    assert_eq!(vendor_path_for("horizon"), "laravel/horizon");
    assert_eq!(vendor_path_for("telescope"), "laravel/telescope");
    assert_eq!(vendor_path_for("pulse"), "laravel/pulse");
    assert_eq!(vendor_path_for("reverb"), "laravel/reverb");
}

#[test]
fn prune_drops_packages_whose_vendor_dir_is_missing() {
    let (mut tree, _) = base();
    tree.dir("/base/site-kept/vendor/laravel/horizon");
    tree.dir("/base/site-gone/vendor");
    let packages = vec![
        package("horizon", "/base/site-kept", "kept", None),
        package("horizon", "/base/site-gone", "gone", None),
    ];
    let (kept, dropped) = prune_added_packages(&packages, &tree.snapshot(&[]));
    assert_eq!(kept.len(), 1);
    assert_eq!(kept[0].site_name, "kept");
    assert_eq!(kept[0].args, ["artisan", "horizon"]);
    assert_eq!(dropped.len(), 1);
    assert_eq!(dropped[0].site_name, "gone");
}

#[test]
fn prune_empty_input_returns_empty() {
    let (kept, dropped) = prune_added_packages(&[], &Snapshot::new(EUID));
    assert!(kept.is_empty());
    assert!(dropped.is_empty());
}

#[test]
fn default_services_registers_horizon_from_added_packages() {
    let (tree, roots) = base();
    let mut config = HearthConfig::default();
    config.added_packages.push(package("horizon", "/base", "shopfront", None));
    let services = default_services(
        &config,
        CONFIG,
        true,
        &roots,
        around(FpmOwnership::Unowned),
        &tree.snapshot(&[]),
    );
    let horizon = services
        .iter()
        .find(|s| s.kind() == ServiceKind::Horizon)
        .expect("Horizon should be registered");
    assert_eq!(horizon.site_name().map(String::as_str), Some("shopfront"));
    assert_eq!(horizon.display_name(), "horizon[shopfront]");
}

#[test]
fn default_services_ignores_telescope_in_added_packages() {
    let (tree, roots) = base();
    let mut config = HearthConfig::default();
    config.added_packages.push(package("telescope", "/base", "blog", None));
    let services = default_services(
        &config,
        CONFIG,
        true,
        &roots,
        around(FpmOwnership::Unowned),
        &tree.snapshot(&[]),
    );
    assert!(services.iter().all(|s| s.kind() != ServiceKind::Horizon));
    assert!(services.iter().all(|s| s.kind() != ServiceKind::Reverb));
}

#[test]
fn php_disabled_skips_fpm_and_workers_keeps_others() {
    let (mut tree, roots) = base();
    // Launchable FPM + a worker entry that WOULD register.
    tree.exec("/base/php/8.4/php-fpm");
    tree.file("/base/fpm/php-fpm.conf", 0o600, "; fpm");
    let mut config = HearthConfig::default();
    config.added_packages.push(package("horizon", "/base", "s", Some("8.4")));
    let build = |enabled: bool| {
        let mut s = around(FpmOwnership::Unowned);
        s.mailpit = Some("/base/services/mailpit/mailpit".to_string());
        kinds(&default_services(
            &config,
            CONFIG,
            enabled,
            &roots,
            s,
            &tree.snapshot(&[]),
        ))
    };
    let got = build(false);
    assert!(!got.contains(&ServiceKind::PhpFpm), "got: {got:?}");
    assert!(!got.contains(&ServiceKind::Horizon), "got: {got:?}");
    assert!(got.contains(&ServiceKind::Mailpit), "got: {got:?}");
    assert_eq!(
        build(true),
        [
            ServiceKind::Nginx,
            ServiceKind::Dnsmasq,
            ServiceKind::PhpFpm,
            ServiceKind::Mailpit,
            ServiceKind::Horizon
        ]
    );
}

#[test]
fn foreign_ownership_registers_none_of_the_trio() {
    let (mut tree, roots) = base();
    tree.exec("/base/php/8.4/php-fpm");
    tree.file("/base/fpm/php-fpm.conf", 0o600, "; fpm");
    for o in [FpmOwnership::Owned, FpmOwnership::Unknown("pgrep".to_string())] {
        let services = default_services(
            &HearthConfig::default(),
            CONFIG,
            true,
            &roots,
            around(o),
            &tree.snapshot(&[]),
        );
        assert!(services.is_empty());
    }
}

#[test]
fn fpm_uses_resolved_binary_and_scan_env() {
    let (mut tree, _) = base();
    tree.exec("/base/php/8.4/php-fpm");
    tree.file("/base/fpm/php-fpm.conf", 0o600, "; fpm");
    let svc = hearth_fpm_service("8.4", CONFIG, None, &user_managed(), &tree.snapshot(&[]))
        .expect("fpm should register");
    assert_eq!(svc.env(), &scan_env("8.4"));
    // Resolved absolute binary, never bare PATH "php-fpm".
    assert_eq!(svc.command(), "/base/php/8.4/php-fpm");
    assert_eq!(svc.display_name(), "php-fpm");
    assert_eq!(
        svc.args(),
        &vec!["--nodaemonize", "--fpm-config=/base/fpm/php-fpm.conf"]
    );
    assert_eq!(
        svc.fpm_launch_conf(),
        Some(&FpmLaunchConf::UserManaged { conf: "/base/fpm/php-fpm.conf".to_string() })
    );
}

#[test]
fn fpm_launch_conf_follows_the_state_of_the_config() {
    let (mut tree, _) = base();
    tree.exec("/base/php/8.4/php-fpm");
    tree.file("/base/fpm/php-fpm.conf", 0o600, "; fpm");
    let disk = tree.snapshot(&[]);
    let owned = FpmConfState::HearthOwned {
        conf: "/base/fpm/php-fpm.conf".to_string(),
        conf_sha256: "a".to_string(),
        probe_sha256: "b".to_string(),
        listen: "/base/run/php-fpm.sock".to_string(),
    };
    let svc = hearth_fpm_service("8.4", CONFIG, None, &owned, &disk).unwrap();
    assert!(matches!(
        svc.fpm_launch_conf(),
        Some(FpmLaunchConf::HearthOwned { .. })
    ));
    // A state that vouches for nothing keeps no record; the config is there.
    let blocked = FpmConfState::Blocked { reason: "interrupted".to_string() };
    let svc = hearth_fpm_service("8.4", CONFIG, None, &blocked, &disk).unwrap();
    assert_eq!(svc.fpm_launch_conf(), None);
    assert_eq!(svc.env(), &scan_env("8.4"));
}

#[test]
fn fpm_skipped_and_launch_blocked_when_conf_missing() {
    let (mut tree, _) = base();
    tree.exec("/base/php/8.4/php-fpm");
    let err = match hearth_fpm_service("8.4", CONFIG, None, &user_managed(), &tree.snapshot(&[])) {
        Err(e) => e,
        Ok(_) => panic!("expected launch-blocked skip"),
    };
    assert!(err.contains("launch-blocked"), "got: {err}");
    assert!(err.contains("#2343"), "got: {err}");
    let blocked = FpmConfState::Blocked { reason: "missing".to_string() };
    assert_eq!(
        hearth_fpm_service("8.4", CONFIG, None, &blocked, &tree.snapshot(&[])).unwrap_err(),
        "launch-blocked: missing fpm config — see todo #2343"
    );
}

#[test]
fn fpm_skipped_when_unresolvable() {
    let (mut tree, _) = base();
    tree.file("/base/fpm/php-fpm.conf", 0o600, "; fpm");
    let err = match hearth_fpm_service("7.4", CONFIG, None, &user_managed(), &tree.snapshot(&[])) {
        Err(e) => e,
        Ok(_) => panic!("expected unresolvable skip"),
    };
    assert!(err.contains("not found"), "got: {err}");
}

#[test]
fn worker_env_injected_at_boot_and_add_registration() {
    let (tree, roots) = base();
    let pkg = package("horizon", "/base", "shopfront", Some("8.3"));
    let svc = worker_service(
        ServiceKind::Horizon,
        &pkg,
        CONFIG,
        &roots,
        &tree.snapshot(&[]),
    );
    assert_eq!(svc.env(), &scan_env("8.3"));
    assert_eq!(svc.site_name().map(String::as_str), Some("shopfront"));
    assert_eq!(svc.cwd().map(String::as_str), Some("/base"));
}

#[test]
fn legacy_added_package_inferred_only_on_canonical_match_else_unguaranteed() {
    let (mut tree, roots) = base();
    // A discoverable Herd 8.4 CLI binary.
    tree.exec("/base/herd/bin/php84");
    tree.link("/base/php-alias", "/base/herd/bin/php84");
    let disk = tree.snapshot(&[]);
    let mut pkg = package("horizon", "/base", "legacy", None);
    for command in ["/base/herd/bin/php84", "/base/php-alias"] {
        pkg.command = command.to_string();
        // Canonical match → version inferred → env granted.
        let svc = worker_service(ServiceKind::Horizon, &pkg, CONFIG, &roots, &disk);
        assert_eq!(svc.env(), &scan_env("8.4"));
    }

    // No canonical match → unguaranteed: NO env, never a guess.
    pkg.command = "/base/somewhere-else/php".to_string();
    let svc = worker_service(ServiceKind::Horizon, &pkg, CONFIG, &roots, &disk);
    assert!(
        svc.env().is_empty(),
        "unmatched legacy command must not get env credit"
    );
}

#[test]
fn root_failure_can_never_register_php_workers() {
    // A lone discovery override makes the detection of the roots fail closed,
    // and services are built from an explicit validated set of them.
    let (tree, roots) = base();
    let lone = RootOverrides {
        herd: Some("/tmp/lone-override".to_string()),
        homebrew: None,
        isolated: None,
    };
    assert!(
        ProviderRoots::detect_with_home(
            lone,
            CONFIG.to_string(),
            Some("/base".to_string()),
            &tree.snapshot(&[])
        )
        .is_err(),
        "a failed detection is a typed error — never a warning"
    );
    let mut config = HearthConfig::default();
    config
        .added_packages
        .push(package("horizon", "/base", "shopfront", Some("8.3")));
    let services = default_services(
        &config,
        CONFIG,
        true,
        &roots,
        around(FpmOwnership::Unowned),
        &tree.snapshot(&[]),
    );
    let worker = services
        .iter()
        .find(|s| s.kind() == ServiceKind::Horizon)
        .expect("explicit snapshot registers the worker");
    assert_eq!(worker.env(), &scan_env("8.3"));
}

// ---- ownership evidence ----

#[test]
fn pgrep_classification_matrix() {
    let exit = |code: i32| {
        classify_pgrep_result(PgrepResult::Ended {
            code: Some(code),
            status: format!("exit status: {code}"),
        })
    };
    assert_eq!(exit(0), FpmOwnership::Owned);
    assert_eq!(exit(1), FpmOwnership::Unowned);
    assert_eq!(
        exit(2),
        FpmOwnership::Unknown(
            "ownership probe (pgrep) failed with status exit status: 2".to_string()
        )
    );
    // Death by signal: no exit code.
    assert!(matches!(
        classify_pgrep_result(PgrepResult::Ended {
            code: None,
            status: "signal: 15 (SIGTERM)".to_string()
        }),
        FpmOwnership::Unknown(_)
    ));
    match classify_pgrep_result(PgrepResult::NotSpawned { kind: "entity not found".to_string() }) {
        FpmOwnership::Unknown(diag) => {
            assert!(diag.contains("could not be spawned"), "{diag}");
            assert!(!diag.contains("HEARTH_"), "{diag}");
        }
        other => panic!("expected Unknown, got {other:?}"),
    }
}

#[test]
fn isolated_answer_beats_the_process_check() {
    let pgrep = || PgrepResult::Ended { code: Some(1), status: "exit status: 1".to_string() };
    assert_eq!(
        current_fpm_ownership(Some(FpmOwnership::Owned), pgrep()),
        FpmOwnership::Owned
    );
    assert_eq!(current_fpm_ownership(None, pgrep()), FpmOwnership::Unowned);
}

#[test]
fn override_is_ignored_outside_the_isolated_runtime() {
    assert!(matches!(
        isolated_herd_ownership_override(false, Some("1")),
        OwnershipOverride::Ignored
    ));
    assert!(matches!(
        isolated_herd_ownership_override(true, None),
        OwnershipOverride::Ignored
    ));
    assert!(matches!(
        isolated_herd_ownership_override(true, Some("yes")),
        OwnershipOverride::Ignored
    ));
    assert!(matches!(
        isolated_herd_ownership_override(true, Some("1")),
        OwnershipOverride::Decided(FpmOwnership::Owned)
    ));
    assert!(matches!(
        isolated_herd_ownership_override(true, Some("0")),
        OwnershipOverride::Decided(FpmOwnership::Unowned)
    ));
    match isolated_herd_ownership_override(true, Some("file:/tmp/flag")) {
        OwnershipOverride::ReadFlag(p) => assert_eq!(p, "/tmp/flag"),
        other => panic!("{other:?}"),
    }
}

#[test]
fn flag_file_classification_matrix() {
    assert_eq!(
        classify_flag_read(Ok(b"1".to_vec())),
        FpmOwnership::Owned,
        "exact byte 1"
    );
    assert_eq!(
        classify_flag_read(Ok(b"0".to_vec())),
        FpmOwnership::Unowned,
        "exact byte 0"
    );
    let invalid_cases: &[&[u8]] = &[
        b"",
        b"1\n",
        b"0\n",
        b" 0 ",
        b"\t1",
        b"1 ",
        b"0 0",
        b"\xef\xbb\xbf1", // BOM + 1
        b"10",
        b"01",
        b"yes",
        b"2",
        b"\xff\x31", // invalid UTF-8 followed by '1'
    ];
    for invalid in invalid_cases {
        assert!(
            matches!(
                classify_flag_read(Ok(invalid.to_vec())),
                FpmOwnership::Unknown(_)
            ),
            "bytes {invalid:?} must be Unknown"
        );
    }
    assert!(matches!(
        classify_flag_read(Err(std::io::ErrorKind::NotFound.to_string())),
        FpmOwnership::Unknown(_)
    ));
    assert!(matches!(
        classify_flag_read(Err(std::io::ErrorKind::PermissionDenied.to_string())),
        FpmOwnership::Unknown(_)
    ));
}
