use hearth_lib::php::ini_guard::{validate_key, validate_value, IniGuardError};

#[test]
fn accepts_common_directives() {
    assert!(validate_key("memory_limit").is_ok());
    assert!(validate_key("opcache.enable").is_ok());
}

#[test]
fn rejects_key_with_space() {
    assert!(validate_key("memory limit").is_err());
}

#[test]
fn rejects_key_with_leading_digit() {
    assert!(validate_key("9lives").is_err());
}

#[test]
fn rejects_key_too_long() {
    // 128 chars is the cap; 129 must fail.
    assert!(validate_key(&"a".repeat(128)).is_ok());
    assert!(validate_key(&"a".repeat(129)).is_err());
}

#[test]
fn rejects_empty_key() {
    assert!(validate_key("").is_err());
}

#[test]
fn accepts_reasonable_values() {
    assert!(validate_value("1G").is_ok());
    assert!(validate_value("").is_ok());
    assert!(validate_value("/tmp/some path/with spaces").is_ok());
}

#[test]
fn rejects_value_with_newline() {
    assert!(validate_value("1G\nextension=evil.so").is_err());
}

#[test]
fn rejects_value_with_carriage_return() {
    assert!(validate_value("1G\r").is_err());
}

#[test]
fn rejects_value_with_nul() {
    assert!(validate_value("1G\0").is_err());
}

#[test]
fn rejects_value_with_leading_bracket() {
    // A leading '[' could smuggle an INI section header.
    assert!(validate_value("[PHP]").is_err());
}

#[test]
fn rejects_value_too_long() {
    assert!(validate_value(&"x".repeat(1024)).is_ok());
    assert!(validate_value(&"x".repeat(1025)).is_err());
}

#[test]
fn rejects_all_denied_keys() {
    for key in [
        "extension",
        "zend_extension",
        "extension_dir",
        "auto_prepend_file",
        "auto_append_file",
        "sendmail_path",
    ] {
        let err = validate_key(key).unwrap_err();
        assert!(
            err.message().contains(key),
            "error must name the denied directive '{key}': {err:?}"
        );
    }
}

#[test]
fn rejects_denied_keys_case_insensitively() {
    for key in [
        "Extension",
        "SENDMAIL_PATH",
        "Zend_Extension",
        "Auto_Prepend_File",
    ] {
        let err = validate_key(key).unwrap_err();
        assert!(
            err.message()
                .to_ascii_lowercase()
                .contains(&key.to_ascii_lowercase()),
            "error must name the denied directive '{key}': {err:?}"
        );
    }
}

#[test]
fn each_guard_error_says_what_is_wrong() {
    assert!(matches!(
        validate_key("a b"),
        Err(IniGuardError::InvalidKey { .. })
    ));
    assert!(matches!(
        validate_key("extension"),
        Err(IniGuardError::DeniedKey { .. })
    ));
    assert!(matches!(
        validate_value("a\tb"),
        Err(IniGuardError::InvalidValue { .. })
    ));
    assert_eq!(
        validate_key("extension").unwrap_err().message(),
        "PHP INI directive 'extension' is denied: it can load or execute code and must never be \
         set through Hearth"
    );
    assert!(validate_value("  [PHP]").is_err());
    assert!(validate_value("a[b]").is_ok());
}
