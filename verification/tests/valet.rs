use hearth_lib::fs::{FileMeta, PathFacts, Snapshot};
use hearth_lib::valet::{
    filter_lines, BackendPolicy, CommandOutput, InstallStage, SiteBackendKind, SiteCliBackend,
    SiteCommand, ValetCli, HERD_CLI_FROM_CONFIG_DIR, HERD_CLI_FROM_HOME_DIR,
};

fn with_file(path: &str) -> Snapshot {
    let meta = FileMeta {
        is_symlink: false,
        is_dir: false,
        is_file: true,
        uid: 501,
        mode: 0o755,
        dev: 1,
        ino: 2,
        nlink: 1,
        len: 9,
    };
    let mut disk = Snapshot::new(501);
    disk.record(
        path.to_string(),
        PathFacts {
            exists: true,
            link: Ok(meta.clone()),
            canonical: Ok(path.to_string()),
            target: Ok(meta),
            hash: Ok(String::new()),
        },
    );
    disk
}

const CONFIG: &str = "/home/me/Application Support";

fn herd_executable() -> String {
    format!("{CONFIG}/{HERD_CLI_FROM_CONFIG_DIR}")
}

fn herd() -> (ValetCli, Snapshot) {
    (
        ValetCli {
            herd_running: true,
            config_dir: Some(CONFIG.to_string()),
            home_dir: None,
        },
        with_file(&herd_executable()),
    )
}

fn argv(command: &SiteCommand) -> Vec<String> {
    let mut out = vec![command.operation.to_string()];
    out.extend(command.args.iter().cloned());
    out
}

fn output(success: bool, stdout: &str, stderr: &str) -> Result<CommandOutput, String> {
    Ok(CommandOutput {
        success,
        stdout: stdout.as_bytes().to_vec(),
        stderr: stderr.as_bytes().to_vec(),
    })
}

#[test]
fn selects_valet_when_herd_is_not_running() {
    let backend = SiteCliBackend::select(
        BackendPolicy::HerdAware,
        false,
        None,
        None,
        &Snapshot::new(501),
    )
    .unwrap();
    assert_eq!(backend.kind, SiteBackendKind::Valet);
    assert_eq!(backend.executable, "valet");
}

#[test]
fn selects_herd_from_config_dir_with_spaces() {
    let backend = SiteCliBackend::select(
        BackendPolicy::HerdAware,
        true,
        Some(CONFIG),
        None,
        &with_file(&herd_executable()),
    )
    .unwrap();
    assert_eq!(backend.kind, SiteBackendKind::Herd);
    assert_eq!(backend.executable, herd_executable());
    assert!(backend.executable.contains(' '));
}

#[test]
fn selects_herd_from_home_when_config_candidate_is_missing() {
    let executable = format!("/home directory/{HERD_CLI_FROM_HOME_DIR}");
    let backend = SiteCliBackend::select(
        BackendPolicy::HerdAware,
        true,
        Some("/missing config"),
        Some("/home directory"),
        &with_file(&executable),
    )
    .unwrap();
    assert_eq!(backend.kind, SiteBackendKind::Herd);
    assert_eq!(backend.executable, executable);
}

#[test]
fn missing_herd_cli_reports_the_herd_backend_and_searched_paths() {
    let disk = Snapshot::new(501);
    let error = SiteCliBackend::select(BackendPolicy::HerdAware, true, Some(CONFIG), None, &disk)
        .unwrap_err();
    assert!(error.contains("Herd is running"));
    assert!(error.contains(&herd_executable()));

    // The same place is searched and named once.
    let error = SiteCliBackend::select(
        BackendPolicy::HerdAware,
        true,
        Some("/me/Library/Application Support"),
        Some("/me"),
        &disk,
    )
    .unwrap_err();
    assert_eq!(
        error,
        "Herd is running, but the Herd CLI was not found. Searched: \
         /me/Library/Application Support/Herd/bin/herd"
    );
    let error = SiteCliBackend::select(BackendPolicy::HerdAware, true, Some("/c"), Some("/h"), &disk)
        .unwrap_err();
    assert!(error.ends_with(
        "Searched: /c/Herd/bin/herd, /h/Library/Application Support/Herd/bin/herd"
    ));
    let error = SiteCliBackend::select(BackendPolicy::HerdAware, true, None, None, &disk)
        .unwrap_err();
    assert!(error.contains("could not be resolved"), "{error}");
}

#[test]
fn link_preserves_optional_name_and_inherited_current_dir() {
    let (cli, disk) = herd();
    let command = cli.link(None, &disk).unwrap();
    assert_eq!(
        command.finish(output(true, "  fake success output  \n", "")).unwrap(),
        "fake success output"
    );
    assert_eq!(argv(&command), ["link"]);
    assert_eq!(command.current_dir, None);

    let command = cli.link(Some("custom-name"), &disk).unwrap();
    assert_eq!(argv(&command), ["link", "custom-name"]);
}

#[test]
fn link_in_preserves_optional_name_and_uses_requested_current_dir() {
    let (cli, disk) = herd();
    let command = cli.link_in("/site with spaces", None, &disk).unwrap();
    assert_eq!(argv(&command), ["link"]);
    assert_eq!(command.current_dir.as_deref(), Some("/site with spaces"));

    let command = cli.link_in("/site with spaces", Some("custom-name"), &disk).unwrap();
    assert_eq!(argv(&command), ["link", "custom-name"]);
}

#[test]
fn unlink_secure_and_unsecure_map_commands_and_names() {
    let (cli, disk) = herd();
    assert_eq!(argv(&cli.unlink("demo", &disk).unwrap()), ["unlink", "demo"]);
    assert_eq!(argv(&cli.secure("demo", &disk).unwrap()), ["secure", "demo"]);
    assert_eq!(argv(&cli.unsecure("demo", &disk).unwrap()), ["unsecure", "demo"]);
}

#[test]
fn park_maps_command_and_uses_requested_current_dir() {
    let (cli, disk) = herd();
    let command = cli.park("/parked projects", &disk).unwrap();
    assert_eq!(
        command.finish(output(true, "  fake success output  \n", "")).unwrap(),
        "fake success output"
    );
    assert_eq!(argv(&command), ["park"]);
    assert_eq!(command.current_dir.as_deref(), Some("/parked projects"));
    assert_eq!(command.backend.executable, herd_executable());
}

#[test]
fn herd_command_failure_names_herd_and_filters_deprecations() {
    let (cli, disk) = herd();
    let error = cli
        .secure("demo", &disk)
        .unwrap()
        .finish(output(
            false,
            "",
            "Deprecated: filtered warning\nbackend exploded\n",
        ))
        .unwrap_err();
    assert_eq!(error, "Herd secure failed: backend exploded");
}

#[test]
fn valet_command_failure_names_valet() {
    let cli = ValetCli { herd_running: false, config_dir: None, home_dir: None };
    let error = cli
        .unlink("demo", &Snapshot::new(501))
        .unwrap()
        .finish(output(false, "", "Deprecated: filtered warning\nvalet exploded\n"))
        .unwrap_err();
    assert_eq!(error, "Valet unlink failed: valet exploded");
}

#[test]
fn spawn_failure_context_names_the_selected_backend() {
    let (cli, disk) = herd();
    let error = cli
        .link(None, &disk)
        .unwrap()
        .finish(Err("No such file or directory".to_string()))
        .unwrap_err();
    assert!(error.contains("Failed to run Herd link"));
}

#[test]
fn isolate_remains_valet_only_and_preserves_its_existing_argv() {
    let (cli, disk) = herd();
    let selected =
        SiteCliBackend::select(BackendPolicy::ValetOnly, true, Some(CONFIG), None, &disk).unwrap();
    assert_eq!(selected, SiteCliBackend::valet());

    let command = cli.isolate("demo", "8.3", &disk).unwrap();
    assert_eq!(command.backend, SiteCliBackend::valet());
    assert_eq!(argv(&command), ["isolate", "demo", "--site=demo", "php@8.3"]);
}

#[test]
fn only_lines_that_start_with_the_warning_are_dropped() {
    assert_eq!(
        filter_lines("Deprecated: a\r\n  kept\nnot Deprecated: b\nDeprecated:\n\n"),
        "kept\nnot Deprecated: b"
    );
    assert_eq!(filter_lines(""), "");
}

#[test]
fn installation_runs_composer_then_valet() {
    assert!(ValetCli::is_installed(&output(true, "Laravel Valet 4", "")));
    assert!(!ValetCli::is_installed(&Err("ENOENT".to_string())));
    // Already there: nothing to do.
    let done = ValetCli::install().finish(output(true, "", ""));
    assert!(matches!(done, InstallStage::Done { result: Ok(()) }));

    let stage = ValetCli::install().finish(Err("ENOENT".to_string()));
    assert!(matches!(stage, InstallStage::Require));
    let failed = ValetCli::install()
        .finish(output(false, "", ""))
        .finish(Err("ENOENT".to_string()));
    match failed {
        InstallStage::Done { result: Err(e) } => {
            assert_eq!(e, "Failed to run composer. Is Composer installed?")
        }
        other => panic!("{other:?}"),
    }
    let failed = ValetCli::install()
        .finish(output(false, "", ""))
        .finish(output(false, "", "Deprecated: x\nno network"));
    match failed {
        InstallStage::Done { result: Err(e) } => {
            assert_eq!(e, "Valet installation failed: no network")
        }
        other => panic!("{other:?}"),
    }
    let set_up = || {
        ValetCli::install()
            .finish(output(false, "", ""))
            .finish(output(true, "", ""))
    };
    // Issues of the set-up itself are no failure.
    assert!(matches!(
        set_up().finish(output(false, "", "issue")),
        InstallStage::Done { result: Ok(()) }
    ));
    assert!(matches!(
        set_up().finish(Err("ENOENT".to_string())),
        InstallStage::Done { result: Err(_) }
    ));
}
