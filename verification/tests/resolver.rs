use std::collections::BTreeMap;

use hearth_lib::fs::{FileMeta, IoFault, PathFacts, Snapshot};
use hearth_lib::php::reconcile::sha256_hex;
use hearth_lib::php::resolver::{
    all_phpfpm_candidates, binary_places, choose_phpfpm_serve_candidate, resolve_php_binary,
    resolve_phpfpm_binary, FpmCandidateSet, FpmTier,
};
use hearth_lib::php::targets::{expected_binary_path, PhpProvider, PhpSapi, ProviderRoots};

/// A file tree in memory, of which snapshots are taken.
#[derive(Default)]
struct Tree {
    nodes: BTreeMap<String, Node>,
    inodes: u64,
}

#[derive(Clone)]
enum Node {
    Dir { mode: u32, uid: u32, ino: u64 },
    File { mode: u32, ino: u64, content: String },
    Link(String),
}

const EUID: u32 = 501;

impl Tree {
    fn new() -> Self {
        let mut tree = Tree::default();
        tree.nodes.insert(
            "/".to_string(),
            Node::Dir { mode: 0o755, uid: 0, ino: 1 },
        );
        tree.inodes = 1;
        tree
    }

    fn dir(&mut self, path: &str) -> &mut Self {
        self.dir_as(path, 0o755, EUID)
    }

    fn dir_as(&mut self, path: &str, mode: u32, uid: u32) -> &mut Self {
        for (i, _) in path.match_indices('/').skip(1) {
            let up = path[..i].to_string();
            if !self.nodes.contains_key(&up) {
                self.inodes += 1;
                let ino = self.inodes;
                self.nodes.insert(up, Node::Dir { mode: 0o755, uid: EUID, ino });
            }
        }
        self.inodes += 1;
        let ino = self.inodes;
        self.nodes.insert(path.to_string(), Node::Dir { mode, uid, ino });
        self
    }

    fn file(&mut self, path: &str, mode: u32, content: &str) -> &mut Self {
        let up = path.rfind('/').unwrap();
        if !self.nodes.contains_key(&path[..up]) {
            self.dir(&path[..up].to_string());
        }
        self.inodes += 1;
        let ino = self.inodes;
        self.nodes.insert(
            path.to_string(),
            Node::File { mode, ino, content: content.to_string() },
        );
        self
    }

    fn exec(&mut self, path: &str) -> &mut Self {
        self.file(path, 0o755, "#!/bin/sh\nexit 0\n")
    }

    fn link(&mut self, path: &str, to: &str) -> &mut Self {
        let up = path.rfind('/').unwrap();
        if up > 0 && !self.nodes.contains_key(&path[..up]) {
            self.dir(&path[..up].to_string());
        }
        self.nodes.insert(path.to_string(), Node::Link(to.to_string()));
        self
    }

    /// The path without symbolic links, if everything on it is there.
    fn resolve(&self, path: &str, follow_last: bool) -> Option<String> {
        let mut at = String::new();
        let parts: Vec<&str> = path.split('/').filter(|p| !p.is_empty()).collect();
        for (i, part) in parts.iter().enumerate() {
            let next = format!("{at}/{part}");
            match self.nodes.get(&next) {
                None => return None,
                Some(Node::Link(to)) if follow_last || i + 1 < parts.len() => {
                    let target = self.resolve(to, true)?;
                    at = if target == "/" { String::new() } else { target };
                }
                Some(_) => at = next,
            }
        }
        Some(if at.is_empty() { "/".to_string() } else { at })
    }

    fn meta(&self, node: &Node) -> FileMeta {
        let (is_dir, is_file, is_symlink, mode, uid, ino) = match node {
            Node::Dir { mode, uid, ino } => (true, false, false, *mode, *uid, *ino),
            Node::File { mode, ino, .. } => (false, true, false, *mode, EUID, *ino),
            Node::Link(_) => (false, false, true, 0o777, EUID, 0),
        };
        FileMeta { is_symlink, is_dir, is_file, uid, mode, dev: 1, ino, nlink: 1, len: 0 }
    }

    fn look(&self, path: &str) -> PathFacts {
        let missing = "No such file or directory (os error 2)".to_string();
        let target = self.resolve(path, true);
        let found = target.as_ref().and_then(|t| self.nodes.get(t));
        let own = self.resolve(path, false).and_then(|t| self.nodes.get(&t).cloned());
        PathFacts {
            exists: found.is_some(),
            link: match own {
                Some(n) => Ok(self.meta(&n)),
                None => Err(IoFault { not_found: true, text: missing.clone() }),
            },
            canonical: target.clone().ok_or(missing.clone()),
            target: found.map(|n| self.meta(n)).ok_or(missing.clone()),
            hash: match found {
                Some(Node::File { content, .. }) => Ok(sha256_hex(content.as_bytes())),
                _ => Err(missing),
            },
        }
    }

    /// A snapshot of everything that is there, and of these paths with what
    /// lies above them.
    fn snapshot(&self, looks: &[&str]) -> Snapshot {
        let mut disk = Snapshot::new(EUID);
        let mut paths: Vec<String> = self.nodes.keys().cloned().collect();
        for look in looks {
            for (i, _) in look.match_indices('/').skip(1) {
                paths.push(look[..i].to_string());
            }
            paths.push(look.to_string());
        }
        for path in paths {
            let facts = self.look(&path);
            disk.record(path, facts);
        }
        disk
    }
}

fn fixture() -> (Tree, ProviderRoots) {
    let mut tree = Tree::new();
    tree.dir("/base/hearth").dir("/base/herd").dir("/base/homebrew");
    let roots = ProviderRoots::isolated(
        "/base",
        "/base/hearth".to_string(),
        "/base/herd".to_string(),
        "/base/homebrew".to_string(),
        &tree.snapshot(&[]),
    )
    .unwrap();
    (tree, roots)
}

fn candidate_path(roots: &ProviderRoots, tier: FpmTier, version: &str) -> String {
    let provider = match tier {
        FpmTier::Hearth => PhpProvider::Hearth,
        FpmTier::Herd => PhpProvider::Herd,
        FpmTier::Homebrew => PhpProvider::Homebrew,
    };
    expected_binary_path(provider, version, PhpSapi::Fpm, roots)
}

fn tiers(set: &FpmCandidateSet, version: &str) -> Vec<FpmTier> {
    set.candidates
        .iter()
        .filter(|c| c.version == version)
        .map(|c| c.tier)
        .collect()
}

#[test]
fn resolves_hearth_binary_first() {
    let mut tree = Tree::new();
    tree.exec("/cfg/php/8.4/php");
    tree.exec("/home/me/Library/Application Support/Herd/bin/php84");
    tree.exec("/opt/homebrew/opt/php@8.4/bin/php");
    let found = resolve_php_binary("8.4", "/cfg", Some("/home/me"), &tree.snapshot(&[])).unwrap();
    assert!(found.ends_with("php/8.4/php"));
    assert_eq!(
        resolve_php_binary("8.4", "/other", Some("/home/me"), &tree.snapshot(&[])).as_deref(),
        Some("/home/me/Library/Application Support/Herd/bin/php84")
    );
    assert_eq!(
        resolve_php_binary("8.4", "/other", None, &tree.snapshot(&[])).as_deref(),
        Some("/opt/homebrew/opt/php@8.4/bin/php")
    );
}

#[test]
fn returns_none_when_not_installed() {
    let tree = Tree::new();
    assert_eq!(
        resolve_php_binary("9.9", "/cfg", Some("/home/me"), &tree.snapshot(&[])),
        None
    );
}

#[test]
fn resolves_fpm_through_the_same_chain() {
    let mut tree = Tree::new();
    tree.exec("/home/me/Library/Application Support/Herd/bin/php84-fpm");
    tree.exec("/opt/homebrew/opt/php@8.4/sbin/php-fpm");
    let disk = tree.snapshot(&[]);
    assert_eq!(
        resolve_phpfpm_binary("8.4", "/cfg", Some("/home/me"), &disk).as_deref(),
        Some("/home/me/Library/Application Support/Herd/bin/php84-fpm")
    );
    assert_eq!(
        resolve_phpfpm_binary("8.4", "/cfg", None, &disk).as_deref(),
        Some("/opt/homebrew/opt/php@8.4/sbin/php-fpm")
    );
    assert_eq!(resolve_phpfpm_binary("8.3", "/cfg", None, &disk), None);
}

#[test]
fn places_are_those_that_resolution_looks_at() {
    assert_eq!(
        binary_places("8.4", "/cfg", Some("/home/me")),
        [
            "/cfg/php/8.4/php",
            "/cfg/php/8.4/php-fpm",
            "/opt/homebrew/opt/php@8.4/bin/php",
            "/opt/homebrew/opt/php@8.4/sbin/php-fpm",
            "/home/me/Library/Application Support/Herd/bin/php84",
            "/home/me/Library/Application Support/Herd/bin/php84-fpm",
        ]
    );
    assert_eq!(binary_places("8.4", "/cfg", None).len(), 4);
    // A snapshot of one of them is enough to resolve it.
    for place in binary_places("8.4", "/cfg", Some("/home/me")) {
        let mut tree = Tree::new();
        tree.exec(&place);
        let disk = tree.snapshot(&[]);
        let found = if place.ends_with("-fpm") {
            resolve_phpfpm_binary("8.4", "/cfg", Some("/home/me"), &disk)
        } else {
            resolve_php_binary("8.4", "/cfg", Some("/home/me"), &disk)
        };
        assert_eq!(found, Some(place));
    }
}

#[test]
fn enumerator_keeps_shadowed_lower_tier_candidates() {
    let (mut tree, roots) = fixture();
    tree.exec(&candidate_path(&roots, FpmTier::Hearth, "8.4"));
    tree.exec(&candidate_path(&roots, FpmTier::Homebrew, "8.4"));

    let set = all_phpfpm_candidates(&roots, &tree.snapshot(&[]));
    assert_eq!(tiers(&set, "8.4"), vec![FpmTier::Hearth, FpmTier::Homebrew]);
}

#[test]
fn verified_resolver_pick_maps_to_enumerated_candidate() {
    for lower_tiers in [
        &[][..],
        &[FpmTier::Herd][..],
        &[FpmTier::Homebrew][..],
        &[FpmTier::Herd, FpmTier::Homebrew][..],
    ] {
        let (mut tree, roots) = fixture();
        tree.exec(&candidate_path(&roots, FpmTier::Hearth, "8.4"));
        for tier in lower_tiers {
            tree.exec(&candidate_path(&roots, *tier, "8.4"));
        }
        let disk = tree.snapshot(&[]);

        let pick = resolve_phpfpm_binary("8.4", "/base/hearth", None, &disk).unwrap();
        let set = all_phpfpm_candidates(&roots, &disk);
        let choice =
            choose_phpfpm_serve_candidate("8.4", Some(&pick), &roots, &set.candidates, &disk)
                .unwrap();
        assert_eq!(choice.candidate.canonical, pick);
        assert_eq!(choice.resolver_mismatch, None);
    }
}

fn spoil(tree: &mut Tree, path: &str, how: &str) {
    match how {
        "directory" => {
            tree.dir(path);
        }
        "non-executable" => {
            tree.file(path, 0o644, "plain");
        }
        _ => {
            tree.exec("/base/herd/outside-fpm");
            tree.link(path, "/base/herd/outside-fpm");
        }
    }
}

#[test]
fn unverifiable_resolver_pick_records_mismatch_and_falls_back_deterministically() {
    for invalid in ["directory", "non-executable", "escaping-symlink"] {
        let (mut tree, roots) = fixture();
        let higher = candidate_path(&roots, FpmTier::Hearth, "8.4");
        spoil(&mut tree, &higher, invalid);
        tree.exec(&candidate_path(&roots, FpmTier::Homebrew, "8.4"));
        let disk = tree.snapshot(&[]);

        assert_eq!(
            resolve_phpfpm_binary("8.4", "/base/hearth", None, &disk),
            Some(higher.clone())
        );
        let set = all_phpfpm_candidates(&roots, &disk);
        let rejection = set
            .rejected
            .iter()
            .find(|item| item.path == higher)
            .expect("resolver mismatch recorded");
        assert!(rejection.reason.chars().count() <= 512);
        assert_eq!(tiers(&set, "8.4"), [FpmTier::Homebrew]);
        let choice =
            choose_phpfpm_serve_candidate("8.4", Some(&higher), &roots, &set.candidates, &disk)
                .unwrap();
        assert_eq!(choice.candidate.tier, FpmTier::Homebrew);
        let mismatch = choice
            .resolver_mismatch
            .expect("serve choice must expose the resolver mismatch");
        assert!(mismatch.contains("failed verified provider mapping"));
        assert!(mismatch.chars().count() <= 512);
    }
}

#[test]
fn cross_provider_out_of_root_symlink_is_rejected_not_relabeled() {
    let (mut tree, roots) = fixture();
    let homebrew = candidate_path(&roots, FpmTier::Homebrew, "8.4");
    tree.exec(&homebrew);
    let herd = candidate_path(&roots, FpmTier::Herd, "8.4");
    tree.link(&herd, &homebrew);
    let disk = tree.snapshot(&[]);

    let set = all_phpfpm_candidates(&roots, &disk);
    assert!(set.rejected.iter().any(|item| item.path == herd));
    assert_eq!(tiers(&set, "8.4"), [FpmTier::Homebrew]);
    let choice =
        choose_phpfpm_serve_candidate("8.4", Some(&herd), &roots, &set.candidates, &disk).unwrap();
    assert_eq!(choice.candidate.tier, FpmTier::Homebrew);
    assert!(choice
        .resolver_mismatch
        .as_deref()
        .is_some_and(|reason| reason.contains("Herd identity verification failed")));
}

#[test]
fn same_inode_dedup_is_version_scoped_after_independent_verification() {
    let (mut tree, roots) = fixture();
    let hearth84 = candidate_path(&roots, FpmTier::Hearth, "8.4");
    tree.exec(&hearth84);
    // Hard links: the same inode under other names.
    let node = tree.nodes[&hearth84].clone();
    for (tier, version) in [(FpmTier::Herd, "8.4"), (FpmTier::Hearth, "8.5")] {
        let path = candidate_path(&roots, tier, version);
        tree.exec(&path);
        tree.nodes.insert(path, node.clone());
    }
    tree.exec(&candidate_path(&roots, FpmTier::Hearth, "8.3"));
    let disk = tree.snapshot(&[]);

    let set = all_phpfpm_candidates(&roots, &disk);
    assert_eq!(tiers(&set, "8.4"), [FpmTier::Hearth]);
    assert_eq!(tiers(&set, "8.5"), [FpmTier::Hearth]);
    assert_eq!(tiers(&set, "8.3"), [FpmTier::Hearth]);

    // A pick of the other name maps to the candidate that is the same file.
    let herd84 = candidate_path(&roots, FpmTier::Herd, "8.4");
    let choice =
        choose_phpfpm_serve_candidate("8.4", Some(&herd84), &roots, &set.candidates, &disk)
            .unwrap();
    assert_eq!(choice.candidate.canonical, hearth84);
    assert_eq!(choice.resolver_mismatch, None);
}

#[test]
fn enumerator_skips_non_regular_or_non_executable_read_only() {
    let (mut tree, roots) = fixture();
    let directory = candidate_path(&roots, FpmTier::Hearth, "8.1");
    tree.dir(&directory);
    let plain = candidate_path(&roots, FpmTier::Hearth, "8.2");
    tree.file(&plain, 0o644, "plain");
    let dangling = candidate_path(&roots, FpmTier::Herd, "8.3");
    tree.link(&dangling, "/base/herd/missing");

    let set = all_phpfpm_candidates(&roots, &tree.snapshot(&[]));
    assert!(set.candidates.is_empty());
    for path in [directory, plain, dangling] {
        assert!(set.rejected.iter().any(|item| item.path == path));
    }
}

#[test]
fn invalid_higher_tier_never_shadows_valid_lower_tier() {
    for invalid in ["directory", "non-executable", "escaping-symlink"] {
        let (mut tree, roots) = fixture();
        spoil(&mut tree, &candidate_path(&roots, FpmTier::Hearth, "8.4"), invalid);
        tree.exec(&candidate_path(&roots, FpmTier::Homebrew, "8.4"));
        let set = all_phpfpm_candidates(&roots, &tree.snapshot(&[]));
        assert_eq!(tiers(&set, "8.4"), [FpmTier::Homebrew], "{invalid}");
        assert_eq!(set.rejected.len(), 1, "{invalid}");
    }
}

#[test]
fn a_pick_from_nowhere_is_replaced_and_reported() {
    let (mut tree, roots) = fixture();
    let own = candidate_path(&roots, FpmTier::Herd, "8.4");
    tree.exec(&own);
    let disk = tree.snapshot(&[]);
    let set = all_phpfpm_candidates(&roots, &disk);
    let choice = choose_phpfpm_serve_candidate(
        "8.4",
        Some("/usr/bin/php-fpm"),
        &roots,
        &set.candidates,
        &disk,
    )
    .unwrap();
    assert_eq!(
        choice.resolver_mismatch.unwrap(),
        format!(
            "resolver pick /usr/bin/php-fpm for PHP 8.4 failed verified provider mapping: path is \
             not an expected provider layout; falling back to Herd {own}"
        )
    );
    assert!(choose_phpfpm_serve_candidate("8.2", None, &roots, &set.candidates, &disk).is_none());
    let long = format!("/{}", "x".repeat(900));
    let choice =
        choose_phpfpm_serve_candidate("8.4", Some(&long), &roots, &set.candidates, &disk).unwrap();
    assert_eq!(choice.resolver_mismatch.unwrap().chars().count(), 512);
}
