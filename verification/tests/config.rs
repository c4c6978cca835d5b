use hearth_lib::clock::duration_debug;
use hearth_lib::config::{HearthConfig, PhpIniSettings};
use hearth_lib::path::{directory, is_absolute, join, parent, path_less, same_path, starts_with};
use hearth_lib::php::mutation::{mutate_store, refuse_key, refuse_mutation, validate_version};
use hearth_lib::php::scan_dir_env;
use hearth_lib::scan::{after, contains, cut_at, lines, trim, Class};
use hearth_lib::socket::{socket_path, PhpScope};
use hearth_lib::strmap::StrMap;
use hearth_lib::text::{decimal_string, less, octal_string, to_ascii_lower};

fn version(v: &str) -> PhpScope {
    PhpScope::Version { version: v.to_string() }
}

fn set(store: &mut PhpIniSettings, scope: &PhpScope, key: &str, value: &str) {
    mutate_store(store, scope, "8.4", key, Some(value));
}

#[test]
fn defaults_are_the_documented_ports() {
    let c = HearthConfig::default();
    assert_eq!(c.tld, "test");
    assert_eq!(c.default_php, "8.4");
    assert_eq!(
        [c.dns_port, c.dump_port, c.mail_smtp_port, c.mail_ui_port, c.mcp_port],
        [5354, 9912, 1025, 8025, 9900]
    );
    assert_eq!([c.mysql_port, c.postgres_port, c.redis_port], [3306, 5432, 6379]);
    assert!(c.added_packages.is_empty());
    assert!(c.php_ini.global.is_empty() && c.php_ini.overrides.is_empty());
}

#[test]
fn override_wins_over_global_for_its_version_only() {
    let mut store = PhpIniSettings::default();
    set(&mut store, &PhpScope::Global, "memory_limit", "1G");
    set(&mut store, &PhpScope::Global, "post_max_size", "8M");
    set(&mut store, &version("8.3"), "memory_limit", "2G");
    let own = store.effective_for("8.3");
    assert_eq!(own.get("memory_limit"), Some(&"2G".to_string()));
    assert_eq!(own.get("post_max_size"), Some(&"8M".to_string()));
    let other = store.effective_for("8.4");
    assert_eq!(other.get("memory_limit"), Some(&"1G".to_string()));
    assert_eq!(other.len(), 2);
}

#[test]
fn active_scope_is_the_default_version() {
    let mut a = PhpIniSettings::default();
    let mut b = PhpIniSettings::default();
    mutate_store(&mut a, &PhpScope::Active, "8.2", "display_errors", Some("1"));
    mutate_store(&mut b, &version("8.2"), "8.5", "display_errors", Some("1"));
    assert!(a.same(&b));
    assert!(!a.same(&PhpIniSettings::default()));
}

#[test]
fn unset_undoes_a_fresh_set() {
    for scope in [PhpScope::Global, version("8.1"), PhpScope::Active] {
        let mut store = PhpIniSettings::default();
        set(&mut store, &PhpScope::Global, "post_max_size", "8M");
        let before = store.dup();
        set(&mut store, &scope, "memory_limit", "1G");
        assert!(!store.same(&before));
        mutate_store(&mut store, &scope, "8.4", "memory_limit", None);
        assert!(store.same(&before));
        // Unset of what is not there changes nothing.
        mutate_store(&mut store, &scope, "8.4", "memory_limit", None);
        assert!(store.same(&before));
    }
}

#[test]
fn unset_keeps_the_other_directives_of_the_version() {
    let mut store = PhpIniSettings::default();
    set(&mut store, &version("8.4"), "a", "1");
    set(&mut store, &version("8.4"), "b", "2");
    mutate_store(&mut store, &version("8.4"), "8.4", "a", None);
    let left = store.overrides.get("8.4").unwrap();
    assert_eq!(left.len(), 1);
    assert_eq!(left.get("b"), Some(&"2".to_string()));
}

#[test]
fn refusals_name_what_is_wrong() {
    assert!(validate_version("8.4").is_ok());
    // Digits and dots, with a dot: nothing more is asked.
    assert!(validate_version("10.12").is_ok());
    assert!(validate_version("8.4.1").is_ok());
    for bad in ["", "8", "8.x", "eight.four", "8 .4"] {
        assert_eq!(
            validate_version(bad).unwrap_err(),
            format!("invalid PHP version `{bad}` — expected e.g. 8.4")
        );
    }
    assert!(refuse_key("memory_limit").is_none());
    assert!(refuse_key("bad key").is_some());
    assert!(refuse_mutation(&PhpScope::Global, "memory_limit", Some("1G")).is_none());
    assert!(refuse_mutation(&PhpScope::Global, "memory_limit", None).is_none());
    assert!(refuse_mutation(&PhpScope::Global, "memory_limit", Some("1\n2")).is_some());
    assert!(refuse_mutation(&version("8"), "memory_limit", None).is_some());
    assert!(refuse_mutation(&PhpScope::Global, "extension", None).is_some());
}

#[test]
fn channel_and_socket_paths() {
    assert_eq!(
        scan_dir_env("/c", "8.4"),
        ("PHP_INI_SCAN_DIR".to_string(), ":/c/php/8.4/conf.d".to_string())
    );
    assert_eq!(socket_path("/c"), "/c/hearth.sock");
}

#[test]
fn maps_are_walked_in_key_order() {
    let mut m: StrMap<String> = StrMap::new();
    for k in ["b", "a", "c", "a"] {
        m.insert(k.to_string(), format!("v{k}"));
    }
    assert_eq!(m.len(), 3);
    let keys: Vec<&String> = (0..m.len()).map(|i| m.key_at(i)).collect();
    assert_eq!(keys, ["a", "b", "c"]);
    assert_eq!(m.value_at(1), "vb");
    assert!(m.remove("b"));
    assert!(!m.remove("b"));
    assert!(!m.contains_key("b"));
}

#[test]
fn paths_are_compared_by_component() {
    assert!(same_path("/a//b/./c/", "/a/b/c"));
    assert!(!same_path("a/b", "/a/b"));
    assert!(starts_with("/a/b/c", "/a/b"));
    assert!(!starts_with("/a/bc", "/a/b"));
    assert!(is_absolute("/a") && !is_absolute("a"));
    assert_eq!(join("/a", "b"), "/a/b");
    assert_eq!(join("/a/", "b"), "/a/b");
    assert_eq!(join("/a", "/b"), "/b");
    assert_eq!(parent("/a/b").as_deref(), Some("/a"));
    assert_eq!(parent("/"), None);
    assert_eq!(directory("/a/b"), "/a");
    assert!(path_less("/a/b", "/a-b"));
    assert!(!path_less("/a/b", "/a/b"));
}

#[test]
fn text_helpers() {
    assert_eq!(decimal_string(0), "0");
    assert_eq!(decimal_string(18_446_744_073_709_551_615), "18446744073709551615");
    assert_eq!(octal_string(0o644, 4), "0644");
    assert_eq!(to_ascii_lower("PHP-Fpm É"), "php-fpm É");
    assert!(less("ab", "b") && less("a", "ab") && !less("b", "ab"));
    assert_eq!(lines("a\r\nb\n\nc\r"), ["a", "b", "", "c\r"]);
    assert_eq!(cut_at("a:b:", ':'), ["a", "b", ""]);
    assert_eq!(after("key => v", "=> ").as_deref(), Some("v"));
    assert_eq!(after("key", "=> "), None);
    assert!(contains("abc", "bc") && !contains("abc", "cb"));
    assert_eq!(trim("  a b\t", Class::Space), "a b");
}

#[test]
fn durations_read_as_those_of_std() {
    for ms in [0, 1, 60, 100, 999, 1000, 1001, 1010, 1100, 1500, 5000, 60_000, 61_230, 3_600_005] {
        let std = std::time::Duration::from_millis(ms);
        assert_eq!(duration_debug(ms), format!("{std:?}"));
    }
}
