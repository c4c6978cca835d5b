use hearth_lib::fs::{FileMeta, PathFacts, Snapshot};
use hearth_lib::site::{Site, SiteEntry, SiteListing, SiteManager};

const HOME: &str = "/valet";

fn entry(name: &str, link: Option<&str>) -> SiteEntry {
    SiteEntry { name: name.to_string(), link: link.map(str::to_string) }
}

fn present(disk: &mut Snapshot, path: &str) {
    let meta = FileMeta {
        is_symlink: false,
        is_dir: false,
        is_file: true,
        uid: 501,
        mode: 0o644,
        dev: 1,
        ino: 2,
        nlink: 1,
        len: 9,
    };
    disk.record(
        path.to_string(),
        PathFacts {
            exists: true,
            link: Ok(meta.clone()),
            canonical: Ok(path.to_string()),
            target: Ok(meta),
            hash: Ok(String::new()),
        },
    );
}

fn mock_valet() -> (SiteListing, Snapshot) {
    let mut disk = Snapshot::new(501);
    present(&mut disk, "/valet/Certificates/beta.crt");
    let listing = SiteListing {
        linked: vec![
            entry("beta", Some("/tmp/beta-project")),
            entry(".hidden", None),
            entry("alpha", Some("/tmp/alpha-project")),
        ],
        served: vec![],
        isolated: vec![("alpha.test".to_string(), "8.3\n".to_string())],
    };
    (listing, disk)
}

fn manager(tld: &str) -> SiteManager {
    SiteManager::new(HOME.to_string(), tld.to_string())
}

fn named<'a>(sites: &'a [Site], name: &str) -> &'a Site {
    sites.iter().find(|s| s.name == name).unwrap()
}

#[test]
fn list_sites_returns_sorted_sites() {
    let (listing, disk) = mock_valet();
    let sites = manager("test").list_sites(&listing, &disk);
    assert_eq!(sites.len(), 2); // .hidden should be excluded
    assert_eq!(sites[0].name, "alpha");
    assert_eq!(sites[1].name, "beta");
    assert_eq!(manager("test").valet_home(), HOME);
}

#[test]
fn list_sites_detects_secured() {
    let (listing, disk) = mock_valet();
    let sites = manager("test").list_sites(&listing, &disk);
    assert!(!named(&sites, "alpha").secured);
    assert!(named(&sites, "beta").secured);
}

#[test]
fn list_sites_reads_php_isolation() {
    let (listing, disk) = mock_valet();
    let sites = manager("test").list_sites(&listing, &disk);
    assert_eq!(named(&sites, "alpha").php_version.as_deref(), Some("8.3"));
    assert_eq!(named(&sites, "beta").php_version, None);
}

#[test]
fn list_sites_resolves_symlink_path() {
    let (listing, disk) = mock_valet();
    let sites = manager("test").list_sites(&listing, &disk);
    assert_eq!(named(&sites, "alpha").path, "/tmp/alpha-project");
}

#[test]
fn list_sites_empty_when_no_dirs() {
    let listing = SiteListing { linked: vec![], served: vec![], isolated: vec![] };
    assert!(manager("test").list_sites(&listing, &Snapshot::new(501)).is_empty());
}

#[test]
fn list_sites_falls_back_to_nginx_dir() {
    let listing = SiteListing {
        linked: vec![],
        served: vec![entry("herd-site", None), entry(".keep", None)],
        isolated: vec![],
    };
    let sites = manager("test").list_sites(&listing, &Snapshot::new(501));
    assert_eq!(sites.len(), 1);
    assert_eq!(sites[0].name, "herd-site");
    assert_eq!(sites[0].path, "");
}

#[test]
fn list_sites_deduplicates_across_sources() {
    let listing = SiteListing {
        linked: vec![entry("mysite", Some("/tmp/mysite"))],
        served: vec![entry("mysite", Some("/tmp/other"))],
        isolated: vec![],
    };
    let sites = manager("test").list_sites(&listing, &Snapshot::new(501));
    assert_eq!(sites.len(), 1); // no duplicate
    assert_eq!(sites[0].name, "mysite");
    assert_eq!(sites[0].path, "/tmp/mysite");
}

#[test]
fn isolation_uses_configured_tld() {
    let listing = SiteListing {
        linked: vec![entry("mysite", Some("/tmp/mysite"))],
        served: vec![],
        isolated: vec![("mysite.dev".to_string(), "8.2\n".to_string())],
    };
    let disk = Snapshot::new(501);
    // With matching TLD: should find isolation
    let sites = manager("dev").list_sites(&listing, &disk);
    assert_eq!(named(&sites, "mysite").php_version.as_deref(), Some("8.2"));
    // With non-matching TLD: should NOT find isolation
    let sites = manager("test").list_sites(&listing, &disk);
    assert_eq!(named(&sites, "mysite").php_version, None);
}

#[test]
fn isolation_fallback_to_bare_filename() {
    let listing = SiteListing {
        linked: vec![entry("legacy", Some("/tmp/legacy"))],
        served: vec![],
        isolated: vec![
            ("legacy.test".to_string(), "  \n".to_string()),
            ("legacy".to_string(), "7.4\n".to_string()),
        ],
    };
    let sites = manager("test").list_sites(&listing, &Snapshot::new(501));
    assert_eq!(named(&sites, "legacy").php_version.as_deref(), Some("7.4"));
}

#[test]
fn a_plain_directory_is_its_own_site() {
    let listing = SiteListing {
        linked: vec![entry("plain", None)],
        served: vec![entry("zeta", None), entry("eta", Some("/tmp/eta"))],
        isolated: vec![],
    };
    let sites = manager("test").list_sites(&listing, &Snapshot::new(501));
    let names: Vec<&str> = sites.iter().map(|s| s.name.as_str()).collect();
    assert_eq!(names, ["eta", "plain", "zeta"]);
    assert_eq!(named(&sites, "plain").path, "/valet/Sites/plain");
    assert_eq!(named(&sites, "eta").path, "/tmp/eta");
}
