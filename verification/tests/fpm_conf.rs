use hearth_lib::php::fpm::{
    conf_path, fpm_manifest_path, probe_script_path, render_fpm_conf, render_fpm_conf_v,
    socket_path, FPM_CONF_HEADER_V1, PROBE_SCRIPT_V1,
};

fn config_dir_for_socket_len(len: usize) -> String {
    let suffix = "/run/php-fpm.sock".len();
    format!("/{}", "x".repeat(len - suffix - 1))
}

#[test]
fn render_is_byte_stable_and_contains_listener() {
    let config_dir = "/tmp/hearth config";
    let first = render_fpm_conf(config_dir).unwrap();
    let second = render_fpm_conf(config_dir).unwrap();

    assert_eq!(first, second);
    assert!(first.starts_with(FPM_CONF_HEADER_V1));
    assert!(first.contains("listen = /tmp/hearth config/run/php-fpm.sock"));
    assert!(first.contains("listen.mode = 0600"));
    assert!(first.contains("pm = ondemand"));
    assert!(first.contains("error_log = /tmp/hearth config/log/php-fpm.log"));
    assert!(first.contains("clear_env = yes"));
    assert!(first.contains("security.limit_extensions = .php"));
    assert!(!first.contains("php_admin_value"));
    assert!(!first.contains("user ="));
}

#[test]
fn render_refuses_oversized_socket_path_byte_exact() {
    let at_limit = config_dir_for_socket_len(103);
    assert_eq!(socket_path(&at_limit).as_bytes().len(), 103);
    assert!(render_fpm_conf(&at_limit).is_ok());

    let too_long = config_dir_for_socket_len(104);
    assert_eq!(socket_path(&too_long).as_bytes().len(), 104);
    let error = render_fpm_conf(&too_long).unwrap_err();
    assert!(error.contains("104 bytes"), "{error}");
    assert!(error.contains("limit 103 + NUL"), "{error}");
    assert!(error.contains(&too_long), "{error}");
}

#[test]
fn render_refuses_multibyte_overflow() {
    let config_dir = format!("/{}", "é".repeat(50));
    let listener = socket_path(&config_dir);
    assert!(listener.chars().count() < 104);
    assert!(listener.as_bytes().len() > 103);
    assert!(render_fpm_conf(&config_dir).is_err());
}

#[test]
fn render_refuses_crlf_bearing_paths() {
    for config_dir in ["/tmp/hearth\nconfig", "/tmp/hearth\rconfig"] {
        let error = render_fpm_conf(config_dir).unwrap_err();
        assert!(error.contains("must not contain CR, LF, or NUL"), "{error}");
    }
    let error = render_fpm_conf_v(1, b"/tmp/hearth\0config").unwrap_err();
    assert!(error.contains("must not contain CR, LF, or NUL"), "{error}");
}

#[test]
fn render_refuses_a_path_that_is_not_text() {
    assert!(render_fpm_conf_v(1, b"/tmp/\xff").is_err());
}

#[test]
fn paths_derive_only_from_config_dir() {
    let config_dir = "/tmp/hearth config";
    assert_eq!(socket_path(config_dir), "/tmp/hearth config/run/php-fpm.sock");
    assert_eq!(conf_path(config_dir), "/tmp/hearth config/fpm/php-fpm.conf");
    assert_eq!(
        probe_script_path(config_dir),
        "/tmp/hearth config/fpm/hearth-probe.php"
    );
    assert_eq!(
        fpm_manifest_path(config_dir),
        "/tmp/hearth config/fpm/manifest.toml"
    );
    assert!(PROBE_SCRIPT_V1.contains("json_encode"));
    assert!(PROBE_SCRIPT_V1.contains("getmypid"));
    assert!(PROBE_SCRIPT_V1.contains("Content-Type"));
}
