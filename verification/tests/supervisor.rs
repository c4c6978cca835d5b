use std::collections::BTreeMap;

use hearth_lib::service::managed::{
    FpmLaunchConf, ManagedService, ShutdownStrategy, Signalled, StopReply, StopStage, Waited,
};
use hearth_lib::service::supervisor::{
    FpmOwnership, FpmReplaceOutcome, FpmRestartTxOutcome, ReplaceStage, RestartStage,
    ServiceSupervisor, SupReply,
};
use hearth_lib::service::sweep::{stop_all_result, SweepRun, SweepStage};
use hearth_lib::service::{ServiceKind, ServiceState};

/// Processes in memory.
#[derive(Default)]
struct Procs {
    /// By process group: whether it is still running.
    alive: BTreeMap<u32, bool>,
    next_pid: u32,
    clock: u64,
    /// Signals to groups are refused this often.
    deny_signals: usize,
    /// Every spawn fails.
    no_spawn: bool,
    log: Vec<String>,
}

impl Procs {
    fn spawn(&mut self, svc: &ManagedService) -> Result<u32, String> {
        self.clock += 1;
        if self.no_spawn || svc.command().starts_with("/nonexistent") {
            return Err("No such file or directory (os error 2)".to_string());
        }
        self.next_pid += 1;
        let pid = 1000 + self.next_pid;
        let exits = svc.args().iter().any(|a| a == "exit 0");
        self.alive.insert(pid, !exits);
        self.log.push(format!("spawn {}", svc.display_name()));
        Ok(pid)
    }

    fn wait(&self, pid: u32) -> Waited {
        match self.alive.get(&pid) {
            Some(true) => Waited::Running,
            _ => Waited::Exited,
        }
    }

    fn stop_reply(&mut self, svc: &ManagedService, stage: &StopStage) -> StopReply {
        let pid = svc.child().expect("a stop at work has a child");
        match stage {
            StopStage::ProbeBefore
            | StopStage::ProbeAfterTerm { .. }
            | StopStage::ProbeAfterKill { .. } => StopReply::Wait(self.wait(pid)),
            StopStage::PgCtl => StopReply::PgCtl(false),
            StopStage::Terminate => {
                if self.deny_signals > 0 {
                    self.deny_signals -= 1;
                    return StopReply::Signal(Signalled::Error("EPERM".to_string()));
                }
                self.log.push(format!("term {}", svc.display_name()));
                self.alive.insert(pid, false);
                StopReply::Signal(Signalled::Sent)
            }
            StopStage::Poll => StopReply::Polled {
                waited: self.wait(pid),
                elapsed_ms: 0,
            },
            StopStage::Kill | StopStage::Reap => StopReply::Did(Ok(())),
            StopStage::Done { .. } => panic!("a stop that is over waits for nothing"),
        }
    }
}

struct Host {
    sup: ServiceSupervisor,
    procs: Procs,
}

impl Host {
    fn new() -> Self {
        Host {
            sup: ServiceSupervisor::new(),
            procs: Procs::default(),
        }
    }

    fn unowned() -> Self {
        let mut host = Host::new();
        host.own(FpmOwnership::Unowned);
        host
    }

    fn own(&mut self, o: FpmOwnership) {
        self.sup.set_fpm_ownership_probe(o);
    }

    fn start_service(&mut self, kind: ServiceKind) -> Result<(), String> {
        let stamp = self.sup.start_service(kind)?;
        let spawned = self.procs.spawn(self.sup.service(kind).unwrap());
        let now = self.procs.clock;
        self.sup.finish_start(kind, stamp, spawned, now)
    }

    fn stop_service(&mut self, kind: ServiceKind) -> Result<(), String> {
        let mut stage = self.sup.stop_service(kind)?;
        loop {
            if let StopStage::Done { result } = stage {
                return result;
            }
            let reply = self.procs.stop_reply(self.sup.service(kind).unwrap(), &stage);
            stage = self.sup.stop_service_step(kind, stage, reply);
        }
    }

    fn run(&mut self, mut run: SweepRun) -> SweepRun {
        while !run.is_finished() {
            let reply = match &run.stage {
                SweepStage::Stopping { stop } => {
                    let svc = self.sup.service_at(run.at);
                    SupReply::Stop(self.procs.stop_reply(svc, stop))
                }
                SweepStage::Probing => {
                    let svc = self.sup.service_at(run.at);
                    SupReply::Probed {
                        waited: match svc.child() {
                            Some(pid) => self.procs.wait(pid),
                            None => Waited::Exited,
                        },
                        now: self.procs.clock as u128,
                    }
                }
                SweepStage::Spawning { .. } => {
                    let result = self.procs.spawn(self.sup.service_at(run.at));
                    SupReply::Spawned { result, now: self.procs.clock }
                }
                SweepStage::Fpm { restart } => restart_reply(&mut self.procs, &self.sup, restart),
                SweepStage::Finished => unreachable!(),
            };
            run = run.step(&mut self.sup, reply);
        }
        run
    }

    fn start_all(&mut self) {
        let run = self.sup.start_all();
        self.run(run);
    }

    fn stop_all(&mut self) -> Result<(), String> {
        let run = self.sup.stop_all();
        stop_all_result(&self.run(run))
    }

    fn restart_all(&mut self) -> (Option<FpmRestartTxOutcome>, Vec<(ServiceKind, String)>) {
        let run = self.sup.restart_all();
        let run = self.run(run);
        (run.fpm, run.errors)
    }

    fn health_check(&mut self) -> Vec<ServiceKind> {
        let run = self.sup.health_check();
        self.run(run).crashed
    }

    fn restart_fpm(&mut self) -> FpmRestartTxOutcome {
        let mut stage = self.sup.restart_fpm_service();
        loop {
            if let RestartStage::Done { outcome } = stage {
                return outcome;
            }
            let reply = restart_reply(&mut self.procs, &self.sup, &stage);
            stage = self.sup.restart_fpm_step(stage, reply);
        }
    }

    fn replace_fpm<F>(&mut self, build: F) -> FpmReplaceOutcome
    where
        F: FnOnce() -> Result<ManagedService, String>,
    {
        let mut stage = self.sup.replace_fpm_service();
        let mut build = Some(build);
        loop {
            let reply = match &stage {
                ReplaceStage::Building => SupReply::Built((build.take().unwrap())()),
                ReplaceStage::Stopping { stop, .. } => {
                    let svc = self.sup.service(ServiceKind::PhpFpm).unwrap();
                    SupReply::Stop(self.procs.stop_reply(svc, stop))
                }
                ReplaceStage::Spawning { .. } => {
                    let result = self.procs.spawn(self.sup.service(ServiceKind::PhpFpm).unwrap());
                    SupReply::Spawned { result, now: self.procs.clock }
                }
                ReplaceStage::Done { .. } => match stage {
                    ReplaceStage::Done { outcome } => return outcome,
                    _ => unreachable!(),
                },
            };
            stage = self.sup.replace_fpm_step(stage, reply);
        }
    }

    fn svc(&self, kind: ServiceKind) -> &ManagedService {
        self.sup.service(kind).unwrap()
    }
}

fn restart_reply(procs: &mut Procs, sup: &ServiceSupervisor, restart: &RestartStage) -> SupReply {
    let svc = sup.service(ServiceKind::PhpFpm).unwrap();
    match restart {
        RestartStage::Stopping { stop } => SupReply::Stop(procs.stop_reply(svc, stop)),
        RestartStage::Spawning { .. } => {
            let result = procs.spawn(svc);
            SupReply::Spawned { result, now: procs.clock }
        }
        RestartStage::Done { .. } => unreachable!(),
    }
}

fn sleeper(kind: ServiceKind) -> ManagedService {
    ManagedService::new(kind, "/bin/sleep".to_string(), vec!["30".to_string()])
}

fn exiting(kind: ServiceKind) -> ManagedService {
    ManagedService::new(
        kind,
        "/bin/sh".to_string(),
        vec!["-c".to_string(), "exit 0".to_string()],
    )
}

fn stamped_fpm_service(command: &str, args: Vec<String>) -> ManagedService {
    ManagedService::new(ServiceKind::PhpFpm, command.to_string(), args).with_fpm_launch_conf(
        FpmLaunchConf::HearthOwned {
            conf: "/tmp/hearth/fpm/php-fpm.conf".to_string(),
            conf_sha256: "conf-sha".to_string(),
            probe_sha256: "probe-sha".to_string(),
            listen: "/tmp/hearth/run/php-fpm.sock".to_string(),
        },
    )
}

fn stamped_sleeper() -> ManagedService {
    stamped_fpm_service("/bin/sleep", vec!["30".to_string()])
}

fn with_nginx() -> Host {
    let mut host = Host::new();
    host.sup
        .register(ManagedService::new(ServiceKind::Nginx, "true".to_string(), vec![]))
        .unwrap();
    host
}

fn unknown() -> FpmOwnership {
    FpmOwnership::Unknown("ownership probe (pgrep) failed with status 2".to_string())
}

// ---- single services ----

#[test]
fn start_service_errors_on_unregistered() {
    let mut sup = ServiceSupervisor::new();
    let result = sup.start_service(ServiceKind::DumpServer);
    assert!(result.is_err());
    assert!(result.unwrap_err().contains("not registered"));
}

#[test]
fn stop_service_errors_on_unregistered() {
    let mut sup = ServiceSupervisor::new();
    let result = sup.stop_service(ServiceKind::Redis);
    assert!(result.is_err());
    assert_eq!(result.unwrap_err(), "service redis is not registered");
}

#[test]
fn start_service_succeeds_for_registered() {
    let mut host = with_nginx();
    assert!(host.start_service(ServiceKind::Nginx).is_ok());
    assert!(matches!(
        host.svc(ServiceKind::Nginx).state(),
        ServiceState::Running { .. }
    ));
}

#[test]
fn stop_service_succeeds_for_registered() {
    let mut host = with_nginx();
    // Start then stop
    host.start_service(ServiceKind::Nginx).unwrap();
    assert!(host.stop_service(ServiceKind::Nginx).is_ok());
    assert!(matches!(
        host.svc(ServiceKind::Nginx).state(),
        ServiceState::Stopped
    ));
}

#[test]
fn reconfigure_service_updates_command() {
    let mut host = with_nginx();
    host.sup
        .reconfigure_service(
            ServiceKind::Nginx,
            "/usr/sbin/nginx-new".to_string(),
            vec!["-g".to_string(), "daemon off;".to_string()],
            vec![("A".to_string(), "1".to_string())],
        )
        .unwrap();
    let svc = host.svc(ServiceKind::Nginx);
    assert_eq!(svc.command(), "/usr/sbin/nginx-new");
    assert_eq!(svc.args(), &vec!["-g", "daemon off;"]);
    assert_eq!(svc.env(), &vec![("A".to_string(), "1".to_string())]);
}

#[test]
fn reconfigure_replaces_env_never_retains_old() {
    let mut host = Host::unowned();
    host.sup
        .register(
            ManagedService::new(ServiceKind::PhpFpm, "php-fpm".to_string(), vec![]).with_env(
                vec![(
                    "PHP_INI_SCAN_DIR".to_string(),
                    ":/old/8.3/conf.d".to_string(),
                )],
            ),
        )
        .unwrap();
    host.sup
        .reconfigure_service(
            ServiceKind::PhpFpm,
            "/new/php-fpm".to_string(),
            vec![],
            vec![(
                "PHP_INI_SCAN_DIR".to_string(),
                ":/new/8.4/conf.d".to_string(),
            )],
        )
        .unwrap();
    assert_eq!(
        host.svc(ServiceKind::PhpFpm).env(),
        &vec![(
            "PHP_INI_SCAN_DIR".to_string(),
            ":/new/8.4/conf.d".to_string()
        )]
    );
}

#[test]
fn remove_service_deregisters() {
    let mut host = with_nginx();
    assert!(host.sup.remove_service(ServiceKind::Nginx));
    assert!(!host.sup.remove_service(ServiceKind::Nginx));
    assert_eq!(host.sup.len(), 0);
}

#[test]
fn reconfigure_unregistered_service_is_noop() {
    let mut sup = ServiceSupervisor::new();
    sup.reconfigure_service(ServiceKind::Redis, "redis-server".to_string(), vec![], vec![])
        .unwrap();
    assert_eq!(sup.len(), 0);
}

#[test]
fn status_returns_registered_services() {
    let host = with_nginx();
    let status = host.sup.status();
    assert_eq!(status.len(), 1);
    assert_eq!(status[0].0, ServiceKind::Nginx);
    assert!(matches!(status[0].1, ServiceState::Stopped));
    let detailed = host.sup.services_detailed();
    assert_eq!(detailed[0].display_name, "nginx");
    assert_eq!(host.sup.health_interval_ms(), 5000);
}

#[test]
fn register_replaces_existing_service() {
    let mut sup = ServiceSupervisor::default();
    sup.register(ManagedService::new(ServiceKind::Nginx, "nginx-old".to_string(), vec![]))
        .unwrap();
    sup.register(ManagedService::new(ServiceKind::Nginx, "nginx-new".to_string(), vec![]))
        .unwrap();
    assert_eq!(sup.len(), 1);
    assert_eq!(sup.service(ServiceKind::Nginx).unwrap().command(), "nginx-new");
}

#[test]
fn managed_service_new_has_no_cwd() {
    let svc = ManagedService::new(ServiceKind::Nginx, "true".to_string(), vec![]);
    assert!(svc.cwd().is_none());
}

#[test]
fn managed_service_with_cwd_stores_path() {
    let svc = ManagedService::with_cwd(
        ServiceKind::Nginx,
        "true".to_string(),
        vec![],
        "/tmp/site".to_string(),
    );
    assert_eq!(svc.cwd(), Some(&"/tmp/site".to_string()));
}

#[test]
fn managed_service_with_cwd_and_site_renders_display_name() {
    let svc = ManagedService::with_cwd_and_site(
        ServiceKind::Horizon,
        "/php".to_string(),
        vec!["artisan".to_string(), "horizon".to_string()],
        "/site".to_string(),
        "shopfront",
    );
    assert_eq!(svc.display_name(), "horizon[shopfront]");
    assert_eq!(svc.site_name(), Some(&"shopfront".to_string()));
}

#[test]
fn managed_service_display_name_falls_back_to_kind_name() {
    let svc = ManagedService::new(ServiceKind::Nginx, "nginx".to_string(), vec![]);
    assert_eq!(svc.display_name(), "nginx");
    assert!(svc.site_name().is_none());
}

#[test]
fn started_at_recorded_on_start_cleared_on_stop() {
    let mut host = Host::unowned();
    host.sup.register(sleeper(ServiceKind::PhpFpm)).unwrap();
    assert!(host.svc(ServiceKind::PhpFpm).started_at().is_none(), "no spawn yet");

    let before = host.procs.clock;
    host.start_service(ServiceKind::PhpFpm).unwrap();
    let started = host.svc(ServiceKind::PhpFpm).started_at().expect("spawn recorded");
    let after = host.procs.clock;
    assert!(started >= before && started <= after, "started_at is the spawn moment");

    host.stop_service(ServiceKind::PhpFpm).unwrap();
    assert!(host.svc(ServiceKind::PhpFpm).started_at().is_none(), "cleared on stop");
}

#[test]
fn stop_reaps_already_exited_child_without_false_failure() {
    let mut host = Host::unowned();
    host.procs.deny_signals = 1;
    host.sup.register(exiting(ServiceKind::PhpFpm)).unwrap();
    host.start_service(ServiceKind::PhpFpm).unwrap();
    host.stop_service(ServiceKind::PhpFpm).unwrap();
    assert!(matches!(host.svc(ServiceKind::PhpFpm).state(), ServiceState::Stopped));
    assert!(host.svc(ServiceKind::PhpFpm).started_at().is_none());
    assert_eq!(host.procs.deny_signals, 1, "no signal was needed");
}

#[test]
fn graces_and_strategies() {
    assert_eq!(ShutdownStrategy::Default.grace(), 5000);
    assert_eq!(ShutdownStrategy::LongGrace { grace_ms: 20_000 }.grace(), 20_000);
    let pg = ShutdownStrategy::Postgres {
        datadir: "/data".to_string(),
        pg_ctl_binary: "/bin/pg_ctl".to_string(),
    };
    assert_eq!(pg.grace(), 20_000);
    let mut svc = sleeper(ServiceKind::Postgresql).with_shutdown_strategy(pg);
    let stamp = {
        let mut sup = ServiceSupervisor::new();
        sup.register(sleeper(ServiceKind::Postgresql)).unwrap();
        sup.start_service(ServiceKind::Postgresql).unwrap()
    };
    svc.start(stamp, Ok(7), 1).unwrap();
    let stage = svc.stop();
    let stage = svc.stop_step(stage, StopReply::Wait(Waited::Running));
    assert!(matches!(stage, StopStage::PgCtl));
    // A clean checkpoint needs no signal; then the exit is awaited.
    let stage = svc.stop_step(stage, StopReply::PgCtl(true));
    assert!(matches!(stage, StopStage::Poll));
    let stage = svc.stop_step(stage, StopReply::Polled { waited: Waited::Running, elapsed_ms: 20_000 });
    assert!(matches!(stage, StopStage::Kill));
    let stage = svc.stop_step(stage, StopReply::Did(Ok(())));
    assert!(matches!(stage, StopStage::Reap));
    let stage = svc.stop_step(stage, StopReply::Did(Ok(())));
    assert!(matches!(stage, StopStage::Done { result: Ok(()) }));
    assert!(svc.child().is_none());
}

#[test]
fn every_unresolved_stop_says_why_and_keeps_the_child() {
    let expect = |replies: Vec<StopReply>, text: &str| {
        let mut sup = ServiceSupervisor::new();
        sup.register(sleeper(ServiceKind::Mailpit)).unwrap();
        let stamp = sup.start_service(ServiceKind::Mailpit).unwrap();
        let mut svc = sleeper(ServiceKind::Mailpit);
        svc.start(stamp, Ok(4242), 9).unwrap();
        let mut stage = svc.stop();
        for reply in replies {
            stage = svc.stop_step(stage, reply);
        }
        match stage {
            StopStage::Done { result: Err(e) } => assert_eq!(e, text),
            other => panic!("expected an error, got {other:?}"),
        }
        assert_eq!(svc.child(), Some(4242));
        assert_eq!(svc.started_at(), Some(9));
        assert_eq!(svc.launch_generation(), Some(1));
        assert!(matches!(svc.state(), ServiceState::Running { pid: 4242 }));
    };
    let running = || StopReply::Wait(Waited::Running);
    let error = || Waited::Error("ECHILD".to_string());
    expect(
        vec![StopReply::Wait(error())],
        "could not verify mailpit liveness before stop (try_wait: ECHILD) — child remains supervised for retry",
    );
    expect(
        vec![
            running(),
            StopReply::Signal(Signalled::Error("EPERM".to_string())),
            running(),
        ],
        "SIGTERM to mailpit process group 4242 failed (EPERM) with the child still live/unresolved — child remains supervised for retry",
    );
    expect(
        vec![
            running(),
            StopReply::Signal(Signalled::Gone),
            StopReply::Polled { waited: error(), elapsed_ms: 0 },
        ],
        "could not verify mailpit termination (try_wait: ECHILD) — child remains supervised for retry",
    );
    expect(
        vec![
            running(),
            StopReply::Signal(Signalled::Sent),
            StopReply::Polled { waited: Waited::Running, elapsed_ms: 0 },
            StopReply::Polled { waited: Waited::Running, elapsed_ms: 20_000 },
            StopReply::Did(Err("EPERM".to_string())),
            running(),
        ],
        "SIGKILL to mailpit process group failed (EPERM) — child remains supervised for retry",
    );
    expect(
        vec![
            running(),
            StopReply::Signal(Signalled::Sent),
            StopReply::Polled { waited: Waited::Running, elapsed_ms: 20_000 },
            StopReply::Did(Ok(())),
            StopReply::Did(Err("EINTR".to_string())),
        ],
        "could not reap mailpit after SIGKILL (EINTR) — child remains supervised for retry",
    );
}

#[test]
fn liveness_lets_go_of_an_exited_child() {
    let mut sup = ServiceSupervisor::new();
    sup.register(sleeper(ServiceKind::Mailpit)).unwrap();
    let stamp = sup.start_service(ServiceKind::Mailpit).unwrap();
    let mut svc = sleeper(ServiceKind::Mailpit);
    assert!(!svc.is_alive(&Waited::Running));
    svc.start(stamp, Ok(5), 1).unwrap();
    assert!(svc.is_alive(&Waited::Running));
    assert!(!svc.is_alive(&Waited::Error("x".to_string())));
    assert!(svc.child().is_some());
    assert!(!svc.is_alive(&Waited::Exited));
    assert!(svc.child().is_none());
}

// ---- current-ownership policy ----

#[test]
fn generic_start_skips_fpm_under_external_ownership() {
    let mut host = Host::unowned();
    host.sup.register(sleeper(ServiceKind::PhpFpm)).unwrap();
    host.sup.register(sleeper(ServiceKind::Mailpit)).unwrap();
    host.own(FpmOwnership::Owned);

    host.start_all();
    let fpm = host.svc(ServiceKind::PhpFpm);
    assert!(fpm.started_at().is_none(), "no FPM child under Herd");
    assert!(matches!(fpm.state(), ServiceState::Stopped));
    assert!(
        host.svc(ServiceKind::Mailpit).started_at().is_some(),
        "non-conflicting services start normally"
    );

    let err = host.start_service(ServiceKind::PhpFpm).unwrap_err();
    assert!(err.contains("Herd"), "got: {err}");
    assert!(
        host.svc(ServiceKind::PhpFpm).started_at().is_none(),
        "explicit start refused with zero spawn"
    );
    host.stop_all().unwrap();
}

#[test]
fn health_relinquishes_running_fpm_once_when_ownership_appears() {
    let mut host = Host::unowned();
    host.sup.register(sleeper(ServiceKind::PhpFpm)).unwrap();
    host.start_service(ServiceKind::PhpFpm).unwrap();
    assert!(host.svc(ServiceKind::PhpFpm).started_at().is_some());

    host.own(FpmOwnership::Owned);
    host.health_check();
    let fpm = host.svc(ServiceKind::PhpFpm);
    assert!(matches!(fpm.state(), ServiceState::Stopped), "{:?}", fpm.state());
    assert!(fpm.started_at().is_none(), "own child relinquished");

    // Subsequent ticks are no-ops — never restarted while Herd owns it.
    host.health_check();
    host.health_check();
    let fpm = host.svc(ServiceKind::PhpFpm);
    assert!(matches!(fpm.state(), ServiceState::Stopped));
    assert!(fpm.started_at().is_none());
    assert_eq!(host.procs.log, ["spawn php-fpm", "term php-fpm"]);
}

#[test]
fn injected_stop_failure_is_transactional() {
    let mut host = Host::unowned();
    host.sup.register(sleeper(ServiceKind::PhpFpm)).unwrap();
    host.start_service(ServiceKind::PhpFpm).unwrap();
    let started = host.svc(ServiceKind::PhpFpm).started_at().expect("running");

    host.procs.deny_signals = 1;
    let err = host.stop_service(ServiceKind::PhpFpm).unwrap_err();
    assert!(err.contains("SIGTERM to php-fpm"), "{err}");
    let svc = host.svc(ServiceKind::PhpFpm);
    assert!(
        matches!(svc.state(), ServiceState::Running { .. }),
        "no false Stopped: {:?}",
        svc.state()
    );
    assert_eq!(svc.started_at(), Some(started), "timestamp retained");
    assert!(svc.child().is_some(), "child handle retained for retry");

    // Retry without injection completes the transition.
    host.stop_service(ServiceKind::PhpFpm).unwrap();
    let svc = host.svc(ServiceKind::PhpFpm);
    assert!(matches!(svc.state(), ServiceState::Stopped));
    assert!(svc.started_at().is_none());
    assert!(svc.child().is_none());
}

#[test]
fn health_handoff_stop_failure_keeps_supervision_and_retries() {
    let mut host = Host::unowned();
    host.sup.register(sleeper(ServiceKind::PhpFpm)).unwrap();
    host.start_service(ServiceKind::PhpFpm).unwrap();
    let started = host.svc(ServiceKind::PhpFpm).started_at().expect("running");

    host.own(FpmOwnership::Owned);
    host.procs.deny_signals = 1;
    host.health_check();
    let svc = host.svc(ServiceKind::PhpFpm);
    assert!(
        matches!(svc.state(), ServiceState::Running { .. }),
        "failed handoff must not mark false Stopped: {:?}",
        svc.state()
    );
    assert_eq!(svc.started_at(), Some(started), "same spawn — no replacement child");
    assert!(svc.child().is_some(), "child still supervised");

    // Next tick (no injection) completes the handoff exactly once.
    host.health_check();
    let svc = host.svc(ServiceKind::PhpFpm);
    assert!(matches!(svc.state(), ServiceState::Stopped));
    assert!(svc.started_at().is_none());
    assert!(svc.child().is_none(), "handoff completed, no orphan handle");
}

#[test]
fn stop_all_aggregates_failures_but_stops_others() {
    let mut host = Host::unowned();
    host.sup.register(sleeper(ServiceKind::PhpFpm)).unwrap();
    host.sup.register(sleeper(ServiceKind::Mailpit)).unwrap();
    host.start_service(ServiceKind::PhpFpm).unwrap();
    host.start_service(ServiceKind::Mailpit).unwrap();

    // The first group to be signalled is php-fpm's.
    host.procs.deny_signals = 1;
    let err = host.stop_all().unwrap_err();
    assert!(err.contains("php-fpm"), "{err}");
    assert!(err.starts_with("failed to stop: php-fpm: SIGTERM"), "{err}");
    let other = host.svc(ServiceKind::Mailpit);
    assert!(
        matches!(other.state(), ServiceState::Stopped),
        "other services still stopped: {:?}",
        other.state()
    );
    // The failed service is still supervised and stoppable.
    host.stop_service(ServiceKind::PhpFpm).unwrap();
}

#[test]
fn register_and_reconfigure_refuse_fpm_after_flip_to_owned() {
    let mut host = Host::unowned();
    host.sup.register(sleeper(ServiceKind::PhpFpm)).unwrap(); // Unowned: normal

    host.own(FpmOwnership::Owned);
    let err = host.sup.register(sleeper(ServiceKind::PhpFpm)).unwrap_err();
    assert!(err.contains("owned by Herd"), "{err}");
    let err = host
        .sup
        .reconfigure_service(ServiceKind::PhpFpm, "/bin/echo".to_string(), vec![], vec![])
        .unwrap_err();
    assert!(err.contains("owned by Herd"), "{err}");
    let fpm = host.svc(ServiceKind::PhpFpm);
    assert_eq!(fpm.command(), "/bin/sleep", "zero mutation on refusal");
    assert!(fpm.started_at().is_none(), "never spawned, no leak");

    // Non-FPM registration/reconfiguration unaffected under Owned.
    host.sup.register(sleeper(ServiceKind::Mailpit)).unwrap();
    host.sup
        .reconfigure_service(ServiceKind::Mailpit, "/bin/echo".to_string(), vec![], vec![])
        .unwrap();
}

#[test]
fn unknown_ownership_fails_closed_everywhere() {
    let mut host = Host::unowned();
    host.sup.register(sleeper(ServiceKind::PhpFpm)).unwrap();
    host.sup.register(sleeper(ServiceKind::Mailpit)).unwrap();
    host.own(unknown());

    let err = host.sup.register(sleeper(ServiceKind::PhpFpm)).unwrap_err();
    assert!(err.contains("registration refused"), "{err}");
    let original_command = host.svc(ServiceKind::PhpFpm).command().to_string();
    let err = host
        .sup
        .reconfigure_service(ServiceKind::PhpFpm, "/bin/echo".to_string(), vec![], vec![])
        .unwrap_err();
    assert!(err.contains("reconfiguration refused"), "{err}");
    assert_eq!(
        host.svc(ServiceKind::PhpFpm).command(),
        original_command,
        "zero mutation on refusal"
    );

    // Generic start: FPM skipped, others start.
    host.start_all();
    assert!(host.svc(ServiceKind::PhpFpm).started_at().is_none());
    assert!(host.svc(ServiceKind::Mailpit).started_at().is_some());

    // Explicit start: actionable refusal, zero spawn.
    let err = host.start_service(ServiceKind::PhpFpm).unwrap_err();
    assert!(err.contains("unknown"), "{err}");
    assert!(host.svc(ServiceKind::PhpFpm).started_at().is_none());
    host.stop_all().unwrap();

    // Health with a RUNNING child under unknown ownership: the child stays
    // supervised, no relinquish, no restart.
    let mut owned = Host::unowned();
    owned.sup.register(sleeper(ServiceKind::PhpFpm)).unwrap();
    owned.start_service(ServiceKind::PhpFpm).unwrap();
    let started = owned.svc(ServiceKind::PhpFpm).started_at().expect("running");
    owned.own(unknown());
    owned.health_check();
    let svc = owned.svc(ServiceKind::PhpFpm);
    assert!(matches!(svc.state(), ServiceState::Running { .. }));
    assert_eq!(svc.started_at(), Some(started), "no relinquish, no respawn");
}

#[test]
fn health_never_replaces_crashed_fpm_under_external_ownership() {
    let mut host = Host::unowned();
    // A child that exits immediately: recorded Running, actually gone.
    host.sup.register(exiting(ServiceKind::PhpFpm)).unwrap();
    host.start_service(ServiceKind::PhpFpm).unwrap();

    host.own(FpmOwnership::Owned);
    host.health_check();
    let fpm = host.svc(ServiceKind::PhpFpm);
    assert!(
        !matches!(fpm.state(), ServiceState::Running { .. }),
        "no replacement child under Herd: {:?}",
        fpm.state()
    );
    assert!(fpm.started_at().is_none(), "no new spawn recorded");
}

#[test]
fn ownership_false_keeps_existing_behavior() {
    let mut host = Host::unowned();
    host.sup.register(exiting(ServiceKind::PhpFpm)).unwrap();
    host.start_all();
    assert!(host.svc(ServiceKind::PhpFpm).started_at().is_some());
    let crashed = host.health_check();
    assert!(crashed.contains(&ServiceKind::PhpFpm), "crash detected");
    // Restart attempted (spawn recorded again by the restart path).
    assert!(
        host.svc(ServiceKind::PhpFpm).started_at().is_some(),
        "herd-absent crash restart unchanged"
    );
    assert_eq!(host.procs.log, ["spawn php-fpm", "spawn php-fpm"]);
}

#[test]
fn circuit_breaker_ends_a_restart_loop() {
    let mut host = Host::new();
    host.sup.register(exiting(ServiceKind::Mailpit)).unwrap();
    host.start_all();
    assert_eq!(host.health_check(), [ServiceKind::Mailpit]);
    assert_eq!(host.health_check(), [ServiceKind::Mailpit]);
    assert_eq!(host.health_check(), [ServiceKind::Mailpit]);
    match host.svc(ServiceKind::Mailpit).state() {
        ServiceState::Failed { reason } => {
            assert_eq!(reason, "Too many restarts (3 failures in 60s)")
        }
        other => panic!("expected Failed, got {other:?}"),
    }
    // A failed service is left alone.
    assert!(host.health_check().is_empty());
    assert_eq!(host.procs.log.len(), 3);
    // A manual start forgets the failures.
    host.start_service(ServiceKind::Mailpit).unwrap();
    assert!(matches!(
        host.svc(ServiceKind::Mailpit).state(),
        ServiceState::Running { .. }
    ));
}

#[test]
fn unconfigured_supervisor_fails_closed_on_every_fpm_path() {
    let mut host = Host::new();
    match host.sup.current_fpm_ownership() {
        FpmOwnership::Unknown(diag) => assert!(diag.contains("not configured"), "{diag}"),
        other => panic!("expected Unknown(not configured), got {other:?}"),
    }

    let err = host.sup.register(sleeper(ServiceKind::PhpFpm)).unwrap_err();
    assert!(err.contains("not configured"), "{err}");
    assert!(host.sup.service(ServiceKind::PhpFpm).is_none(), "zero mutation");

    let err = host
        .sup
        .reconfigure_service(ServiceKind::PhpFpm, "/bin/echo".to_string(), vec![], vec![])
        .unwrap_err();
    assert!(err.contains("not configured"), "{err}");

    let err = host.start_service(ServiceKind::PhpFpm).unwrap_err();
    assert!(err.contains("not configured"), "{err}");

    match host.replace_fpm(|| panic!("build must not run under Unknown")) {
        FpmReplaceOutcome::SkippedOwnershipUnknown(diag) => {
            assert!(diag.contains("not configured"), "{diag}")
        }
        other => panic!("expected SkippedOwnershipUnknown, got {other:?}"),
    }

    // Non-FPM services are entirely unaffected by the missing probe…
    host.sup.register(sleeper(ServiceKind::Mailpit)).unwrap();
    host.start_all();
    assert!(host.svc(ServiceKind::Mailpit).started_at().is_some());
    host.stop_all().unwrap();

    // …and explicit Unowned evidence unlocks normal FPM operation.
    host.own(FpmOwnership::Unowned);
    host.sup.register(sleeper(ServiceKind::PhpFpm)).unwrap();
    host.start_service(ServiceKind::PhpFpm).unwrap();
    host.stop_service(ServiceKind::PhpFpm).unwrap();
}

// ---- replacement ----

#[test]
fn replace_fpm_skips_with_zero_mutation_when_snapshot_sees_owned() {
    let mut host = Host::unowned();
    host.sup.register(sleeper(ServiceKind::PhpFpm)).unwrap();
    host.start_service(ServiceKind::PhpFpm).unwrap();
    let started = host.svc(ServiceKind::PhpFpm).started_at().expect("running");

    host.own(FpmOwnership::Owned);
    match host.replace_fpm(|| panic!("build must not run under Owned")) {
        FpmReplaceOutcome::SkippedOwned => {}
        other => panic!("expected SkippedOwned, got {other:?}"),
    }
    let svc = host.svc(ServiceKind::PhpFpm);
    assert_eq!(svc.started_at(), Some(started), "old child untouched");
    assert!(matches!(svc.state(), ServiceState::Running { .. }), "{:?}", svc.state());
}

#[test]
fn replace_fpm_replaces_old_child_with_new_service_under_unowned() {
    let mut host = Host::unowned();
    host.sup.register(sleeper(ServiceKind::PhpFpm)).unwrap();
    host.start_service(ServiceKind::PhpFpm).unwrap();

    let outcome = host.replace_fpm(|| {
        Ok(ManagedService::new(
            ServiceKind::PhpFpm,
            "/bin/sleep".to_string(),
            vec!["37".to_string()],
        )
        .with_env(vec![(
            "PHP_INI_SCAN_DIR".to_string(),
            ":/new/8.4/conf.d".to_string(),
        )]))
    });
    assert!(matches!(outcome, FpmReplaceOutcome::Replaced), "{outcome:?}");
    let svc = host.svc(ServiceKind::PhpFpm);
    assert_eq!(svc.args(), &vec!["37"], "replacement config took effect");
    assert_eq!(
        svc.env(),
        &vec![(
            "PHP_INI_SCAN_DIR".to_string(),
            ":/new/8.4/conf.d".to_string()
        )]
    );
    assert!(svc.started_at().is_some(), "replacement running");
    assert!(matches!(svc.state(), ServiceState::Running { .. }), "{:?}", svc.state());
    assert_eq!(
        host.procs.log,
        ["spawn php-fpm", "term php-fpm", "spawn php-fpm"]
    );
}

#[test]
fn replace_fpm_stop_failure_keeps_old_child_and_registration() {
    let mut host = Host::unowned();
    host.sup.register(sleeper(ServiceKind::PhpFpm)).unwrap();
    host.start_service(ServiceKind::PhpFpm).unwrap();
    let started = host.svc(ServiceKind::PhpFpm).started_at().expect("running");

    host.procs.deny_signals = 1;
    let outcome = host.replace_fpm(|| {
        Ok(ManagedService::new(
            ServiceKind::PhpFpm,
            "/bin/echo".to_string(),
            vec![],
        ))
    });
    match outcome {
        FpmReplaceOutcome::StopFailed { error } => assert!(error.contains("SIGTERM"), "{error}"),
        other => panic!("expected StopFailed, got {other:?}"),
    }
    let svc = host.svc(ServiceKind::PhpFpm);
    assert!(
        matches!(svc.state(), ServiceState::Running { .. }),
        "no false Stopped: {:?}",
        svc.state()
    );
    assert_eq!(svc.started_at(), Some(started), "old child intact");
    assert!(svc.child().is_some(), "child handle retained for retry");
    assert_ne!(svc.command(), "/bin/echo", "replacement never inserted");
}

#[test]
fn replace_fpm_build_failure_never_stops_running_old_child() {
    let mut host = Host::unowned();
    host.sup.register(sleeper(ServiceKind::PhpFpm)).unwrap();
    host.start_service(ServiceKind::PhpFpm).unwrap();
    let started = host.svc(ServiceKind::PhpFpm).started_at().expect("running");

    let outcome = host.replace_fpm(|| Err("launch-blocked: missing fpm config".to_string()));
    match outcome {
        FpmReplaceOutcome::BuildFailed { reason, removed_stale } => {
            assert!(reason.contains("launch-blocked"), "{reason}");
            assert!(!removed_stale, "running child never removed");
        }
        other => panic!("expected BuildFailed, got {other:?}"),
    }
    assert_eq!(
        host.svc(ServiceKind::PhpFpm).started_at(),
        Some(started),
        "old child untouched"
    );
}

#[test]
fn replace_fpm_build_failure_removes_only_stale_non_running_registration() {
    let mut host = Host::unowned();
    host.sup.register(sleeper(ServiceKind::PhpFpm)).unwrap();

    let outcome = host.replace_fpm(|| Err("boom".to_string()));
    assert!(
        matches!(outcome, FpmReplaceOutcome::BuildFailed { removed_stale: true, .. }),
        "{outcome:?}"
    );
    assert!(
        host.sup.service(ServiceKind::PhpFpm).is_none(),
        "stale registration removed"
    );

    let outcome = host.replace_fpm(|| Err("boom".to_string()));
    assert!(
        matches!(outcome, FpmReplaceOutcome::BuildFailed { removed_stale: false, .. }),
        "{outcome:?}"
    );
}

#[test]
fn replace_fpm_start_failure_reports_truthful_partial_state() {
    let mut host = Host::unowned();
    host.sup.register(sleeper(ServiceKind::PhpFpm)).unwrap();
    host.start_service(ServiceKind::PhpFpm).unwrap();

    let outcome = host.replace_fpm(|| {
        Ok(ManagedService::new(
            ServiceKind::PhpFpm,
            "/nonexistent/php-fpm-definitely-missing".to_string(),
            vec![],
        ))
    });
    match outcome {
        FpmReplaceOutcome::StartFailed { error } => {
            assert!(!error.is_empty(), "diagnostic surfaced")
        }
        other => panic!("expected StartFailed, got {other:?}"),
    }
    let svc = host.svc(ServiceKind::PhpFpm);
    assert_eq!(
        svc.command(),
        "/nonexistent/php-fpm-definitely-missing",
        "the replacement (not the old service) is what remains"
    );
    assert!(
        matches!(svc.state(), ServiceState::Failed { .. }),
        "truthful Failed state: {:?}",
        svc.state()
    );
    assert!(svc.started_at().is_none(), "never recorded as running");
}

// ---- restart ----

#[test]
fn restart_fpm_tx_skips_zero_mutation_under_owned_and_unknown() {
    let mut host = Host::unowned();
    host.sup.register(sleeper(ServiceKind::PhpFpm)).unwrap();
    host.start_service(ServiceKind::PhpFpm).unwrap();
    let started = host.svc(ServiceKind::PhpFpm).started_at().expect("running");

    host.own(FpmOwnership::Owned);
    assert_eq!(host.restart_fpm(), FpmRestartTxOutcome::SkippedOwned);
    let svc = host.svc(ServiceKind::PhpFpm);
    assert_eq!(svc.started_at(), Some(started), "old child untouched");
    assert!(matches!(svc.state(), ServiceState::Running { .. }));

    host.own(unknown());
    match host.restart_fpm() {
        FpmRestartTxOutcome::SkippedOwnershipUnknown(diag) => {
            assert!(diag.contains("pgrep"), "{diag}")
        }
        other => panic!("expected SkippedOwnershipUnknown, got {other:?}"),
    }
    let svc = host.svc(ServiceKind::PhpFpm);
    assert_eq!(svc.started_at(), Some(started), "old child untouched");
    assert!(matches!(svc.state(), ServiceState::Running { .. }));
}

#[test]
fn restart_fpm_tx_unconfigured_supervisor_refuses_zero_mutation() {
    let mut host = Host::new();
    match host.restart_fpm() {
        FpmRestartTxOutcome::SkippedOwnershipUnknown(diag) => {
            assert!(diag.contains("not configured"), "{diag}")
        }
        other => panic!("expected SkippedOwnershipUnknown, got {other:?}"),
    }
    assert_eq!(host.sup.len(), 0, "zero mutation");
}

#[test]
fn restart_fpm_tx_restarts_under_unowned() {
    let mut host = Host::unowned();
    host.sup.register(sleeper(ServiceKind::PhpFpm)).unwrap();
    host.start_service(ServiceKind::PhpFpm).unwrap();
    let old_pid = host.svc(ServiceKind::PhpFpm).child().unwrap();

    assert_eq!(host.restart_fpm(), FpmRestartTxOutcome::Restarted);
    let svc = host.svc(ServiceKind::PhpFpm);
    match svc.state() {
        ServiceState::Running { pid } => assert_ne!(*pid, old_pid, "fresh spawn"),
        other => panic!("running expected, got {other:?}"),
    }
    assert!(svc.started_at().is_some());

    // Nothing registered: truthful NotRegistered, zero mutation.
    let mut empty = Host::unowned();
    assert_eq!(empty.restart_fpm(), FpmRestartTxOutcome::NotRegistered);
}

#[test]
fn restart_keeps_to_its_snapshot() {
    let mut host = Host::unowned();
    host.sup.register(sleeper(ServiceKind::PhpFpm)).unwrap();
    host.start_service(ServiceKind::PhpFpm).unwrap();
    let mut stage = host.sup.restart_fpm_service();
    // Ownership flips after the snapshot: the transaction stays coherent.
    host.own(FpmOwnership::Owned);
    loop {
        if let RestartStage::Done { outcome } = stage {
            assert_eq!(outcome, FpmRestartTxOutcome::Restarted);
            break;
        }
        let reply = restart_reply(&mut host.procs, &host.sup, &stage);
        stage = host.sup.restart_fpm_step(stage, reply);
    }
    // The next health tick hands it over.
    host.health_check();
    assert!(host.svc(ServiceKind::PhpFpm).child().is_none());
}

#[test]
fn restart_fpm_tx_stop_failure_keeps_old_child() {
    let mut host = Host::unowned();
    host.sup.register(sleeper(ServiceKind::PhpFpm)).unwrap();
    host.start_service(ServiceKind::PhpFpm).unwrap();
    let started = host.svc(ServiceKind::PhpFpm).started_at().expect("running");

    host.procs.deny_signals = 1;
    match host.restart_fpm() {
        FpmRestartTxOutcome::StopFailed { error } => assert!(error.contains("SIGTERM"), "{error}"),
        other => panic!("expected StopFailed, got {other:?}"),
    }
    let svc = host.svc(ServiceKind::PhpFpm);
    assert!(matches!(svc.state(), ServiceState::Running { .. }));
    assert_eq!(svc.started_at(), Some(started), "old child intact");
    assert!(svc.child().is_some(), "child handle retained for retry");
}

#[test]
fn restart_fpm_tx_start_failure_reports_truthful_failed_state() {
    let mut host = Host::unowned();
    host.sup.register(sleeper(ServiceKind::PhpFpm)).unwrap();
    host.start_service(ServiceKind::PhpFpm).unwrap();
    host.procs.no_spawn = true;

    match host.restart_fpm() {
        FpmRestartTxOutcome::StartFailed { error } => {
            assert!(!error.is_empty(), "diagnostic surfaced")
        }
        other => panic!("expected StartFailed, got {other:?}"),
    }
    let svc = host.svc(ServiceKind::PhpFpm);
    assert!(
        matches!(svc.state(), ServiceState::Failed { .. }),
        "truthful Failed state: {:?}",
        svc.state()
    );
    assert!(svc.child().is_none(), "no child, no orphan");
    assert!(svc.started_at().is_none(), "never recorded as running");
}

#[test]
fn restart_all_handles_fpm_atomically_and_non_fpm_normally() {
    let mut host = Host::unowned();
    host.sup.register(sleeper(ServiceKind::PhpFpm)).unwrap();
    host.sup.register(sleeper(ServiceKind::Mailpit)).unwrap();
    host.start_service(ServiceKind::PhpFpm).unwrap();
    host.start_service(ServiceKind::Mailpit).unwrap();
    let fpm_started = host.svc(ServiceKind::PhpFpm).started_at().expect("running");
    let mailpit_started = host.svc(ServiceKind::Mailpit).started_at().expect("running");

    // Herd takes ownership: FPM untouched, Mailpit restarts.
    host.own(FpmOwnership::Owned);
    let (fpm, errors) = host.restart_all();
    assert!(errors.is_empty(), "{errors:?}");
    assert_eq!(fpm, Some(FpmRestartTxOutcome::SkippedOwned));
    let svc = host.svc(ServiceKind::PhpFpm);
    assert_eq!(svc.started_at(), Some(fpm_started), "FPM untouched");
    assert!(matches!(svc.state(), ServiceState::Running { .. }));
    let mp = host.svc(ServiceKind::Mailpit);
    assert!(mp.started_at().is_some());
    assert_ne!(
        mp.started_at(),
        Some(mailpit_started),
        "non-FPM service actually restarted"
    );

    // Unowned again: FPM restarts coherently too.
    host.own(FpmOwnership::Unowned);
    let (fpm, errors) = host.restart_all();
    assert!(errors.is_empty(), "{errors:?}");
    assert_eq!(fpm, Some(FpmRestartTxOutcome::Restarted));
    assert_ne!(
        host.svc(ServiceKind::PhpFpm).started_at(),
        Some(fpm_started),
        "FPM restarted under Unowned"
    );
    host.stop_all().unwrap();
}

#[test]
fn restart_all_collects_errors_by_service() {
    let mut host = Host::new();
    host.sup.register(sleeper(ServiceKind::Mailpit)).unwrap();
    host.sup.register(sleeper(ServiceKind::Redis)).unwrap();
    host.start_all();
    host.procs.deny_signals = 1;
    host.procs.no_spawn = true;
    let (fpm, errors) = host.restart_all();
    assert_eq!(fpm, None);
    assert_eq!(errors.len(), 2);
    assert_eq!(errors[0].0, ServiceKind::Mailpit);
    assert!(errors[0].1.starts_with("stop failed: "), "{errors:?}");
    assert_eq!(errors[1].0, ServiceKind::Redis);
    assert!(errors[1].1.starts_with("start failed: "), "{errors:?}");
}

#[test]
fn start_all_marks_what_cannot_start() {
    let mut host = Host::new();
    host.sup
        .register(ManagedService::new(
            ServiceKind::Redis,
            "/nonexistent/redis".to_string(),
            vec![],
        ))
        .unwrap();
    host.sup.register(sleeper(ServiceKind::Mailpit)).unwrap();
    host.start_all();
    assert!(matches!(
        host.svc(ServiceKind::Redis).state(),
        ServiceState::Failed { .. }
    ));
    assert!(matches!(
        host.svc(ServiceKind::Mailpit).state(),
        ServiceState::Running { .. }
    ));
}

// ---- launches ----

#[test]
fn start_all_stamps_fresh_generation() {
    let mut host = Host::unowned();
    host.sup.register(stamped_sleeper()).unwrap();
    host.start_all();
    let snapshot = host.sup.fpm_launch_snapshot().expect("stamped FPM");
    assert!(snapshot.generation > 0);
    assert!(snapshot.group_id.is_some());
    assert!(snapshot.running);
    host.stop_all().unwrap();
}

#[test]
fn named_start_service_stamps_fresh_generation() {
    let mut host = Host::unowned();
    host.sup.register(stamped_sleeper()).unwrap();
    host.start_service(ServiceKind::PhpFpm).unwrap();
    let first = host.sup.fpm_launch_snapshot().unwrap().generation;
    host.stop_service(ServiceKind::PhpFpm).unwrap();
    host.start_service(ServiceKind::PhpFpm).unwrap();
    let second = host.sup.fpm_launch_snapshot().unwrap().generation;
    host.stop_service(ServiceKind::PhpFpm).unwrap();
    host.start_service(ServiceKind::PhpFpm).unwrap();
    let third = host.sup.fpm_launch_snapshot().unwrap().generation;
    assert!(first < second && second < third);
    host.stop_all().unwrap();
}

#[test]
fn replace_fpm_service_stamps_fresh_generation() {
    let mut host = Host::unowned();
    host.sup.register(stamped_sleeper()).unwrap();
    host.start_service(ServiceKind::PhpFpm).unwrap();
    let before = host.sup.fpm_launch_snapshot().unwrap();
    assert!(matches!(
        host.replace_fpm(|| Ok(stamped_sleeper())),
        FpmReplaceOutcome::Replaced
    ));
    let after = host.sup.fpm_launch_snapshot().unwrap();
    assert!(after.generation > before.generation);
    assert_ne!(after.group_id, before.group_id);
    host.stop_all().unwrap();
}

#[test]
fn restart_fpm_service_and_restart_all_stamp_fresh_generations() {
    let mut host = Host::unowned();
    host.sup.register(stamped_sleeper()).unwrap();
    host.sup.register(sleeper(ServiceKind::Mailpit)).unwrap();
    host.start_all();
    let first = host.sup.fpm_launch_snapshot().unwrap().generation;
    assert_eq!(host.restart_fpm(), FpmRestartTxOutcome::Restarted);
    let second = host.sup.fpm_launch_snapshot().unwrap().generation;
    let mailpit_before = host.svc(ServiceKind::Mailpit).launch_generation().unwrap();
    let (fpm, errors) = host.restart_all();
    assert!(errors.is_empty());
    assert_eq!(fpm, Some(FpmRestartTxOutcome::Restarted));
    let third = host.sup.fpm_launch_snapshot().unwrap().generation;
    let mailpit_after = host.svc(ServiceKind::Mailpit).launch_generation().unwrap();
    assert!(first < second && second < third);
    assert!(
        mailpit_after > mailpit_before,
        "uniform seam stamps non-FPM starts too"
    );
    host.stop_all().unwrap();
}

#[test]
fn health_respawn_stamps_fresh_generation_and_new_group() {
    let mut host = Host::unowned();
    host.sup
        .register(stamped_fpm_service(
            "/bin/sh",
            vec!["-c".to_string(), "exit 0".to_string()],
        ))
        .unwrap();
    host.start_service(ServiceKind::PhpFpm).unwrap();
    let before = host.sup.fpm_launch_snapshot().unwrap();
    let crashed = host.health_check();
    assert!(crashed.contains(&ServiceKind::PhpFpm));
    let after = host.sup.fpm_launch_snapshot().unwrap();
    assert!(after.generation > before.generation);
    assert_ne!(after.group_id, before.group_id);
}

#[test]
fn generation_cleared_only_on_positively_confirmed_termination() {
    let mut host = Host::unowned();
    host.sup.register(stamped_sleeper()).unwrap();
    host.start_service(ServiceKind::PhpFpm).unwrap();
    let before = host.sup.fpm_launch_snapshot().unwrap();
    host.procs.deny_signals = 1;
    assert!(host.stop_service(ServiceKind::PhpFpm).is_err());
    let retained = host.sup.fpm_launch_snapshot().unwrap();
    assert_eq!(retained.generation, before.generation);
    assert_eq!(retained.group_id, before.group_id);
    assert_eq!(retained.started_at, before.started_at);
    host.stop_service(ServiceKind::PhpFpm).unwrap();
    assert!(host.sup.fpm_launch_snapshot().is_none());
}

#[test]
fn grace_window_decides_the_kill() {
    let pg = ShutdownStrategy::Postgres {
        datadir: "/data".to_string(),
        pg_ctl_binary: "/bin/pg_ctl".to_string(),
    };
    let long = ShutdownStrategy::LongGrace { grace_ms: 7 };
    for (strategy, grace) in [(&ShutdownStrategy::Default, 5000), (&pg, 20_000), (&long, 7)] {
        assert!(!strategy.grace_over(grace - 1));
        assert!(strategy.grace_over(grace));
    }
    assert_eq!(
        pg.coordinated(),
        Some((
            "/bin/pg_ctl".to_string(),
            ["stop", "-m", "fast", "-w", "-D", "/data"].map(str::to_string).to_vec()
        ))
    );
    assert_eq!(long.coordinated(), None);
}
