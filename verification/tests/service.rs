use hearth_lib::service::{CircuitBreaker, ServiceKind};

#[test]
fn service_kind_from_str_valid() {
    assert_eq!("nginx".parse::<ServiceKind>().unwrap(), ServiceKind::Nginx);
    assert_eq!("php-fpm".parse::<ServiceKind>().unwrap(), ServiceKind::PhpFpm);
    assert_eq!("php".parse::<ServiceKind>().unwrap(), ServiceKind::PhpFpm);
    assert_eq!("dnsmasq".parse::<ServiceKind>().unwrap(), ServiceKind::Dnsmasq);
    assert_eq!("dns".parse::<ServiceKind>().unwrap(), ServiceKind::Dnsmasq);
    assert_eq!("mysql".parse::<ServiceKind>().unwrap(), ServiceKind::Mysql);
    assert_eq!("redis".parse::<ServiceKind>().unwrap(), ServiceKind::Redis);
    assert_eq!("postgresql".parse::<ServiceKind>().unwrap(), ServiceKind::Postgresql);
    assert_eq!("postgres".parse::<ServiceKind>().unwrap(), ServiceKind::Postgresql);
    assert_eq!("pg".parse::<ServiceKind>().unwrap(), ServiceKind::Postgresql);
    assert_eq!("mailpit".parse::<ServiceKind>().unwrap(), ServiceKind::Mailpit);
    assert_eq!("mail".parse::<ServiceKind>().unwrap(), ServiceKind::Mailpit);
    assert_eq!("dump-server".parse::<ServiceKind>().unwrap(), ServiceKind::DumpServer);
    assert_eq!("dump".parse::<ServiceKind>().unwrap(), ServiceKind::DumpServer);
}

#[test]
fn service_kind_from_str_case_insensitive() {
    assert_eq!("NGINX".parse::<ServiceKind>().unwrap(), ServiceKind::Nginx);
    assert_eq!("Nginx".parse::<ServiceKind>().unwrap(), ServiceKind::Nginx);
}

#[test]
fn service_kind_from_str_unknown() {
    assert!("foobar".parse::<ServiceKind>().is_err());
}

#[test]
fn service_kind_display_round_trips() {
    let kinds = [
        ServiceKind::Nginx,
        ServiceKind::PhpFpm,
        ServiceKind::Dnsmasq,
        ServiceKind::Mysql,
        ServiceKind::Redis,
        ServiceKind::Postgresql,
        ServiceKind::Mailpit,
        ServiceKind::DumpServer,
    ];
    for kind in kinds {
        let name = kind.display();
        let parsed: ServiceKind = name.parse().unwrap();
        assert_eq!(parsed, kind);
    }
}

#[test]
fn circuit_breaker_trips_after_max_failures() {
    let mut cb = CircuitBreaker::new(3, 60_000);
    assert!(!cb.record_failure());
    assert!(!cb.record_failure());
    assert!(cb.record_failure()); // 3rd failure trips it
}

#[test]
fn circuit_breaker_resets() {
    let mut cb = CircuitBreaker::new(3, 60_000);
    cb.record_failure();
    cb.record_failure();
    cb.reset();
    assert!(!cb.record_failure()); // reset clears history
}

#[test]
fn failures_outside_the_window_do_not_count() {
    let second: u128 = 1_000_000_000;
    let mut cb = CircuitBreaker::new(3, 60_000);
    assert!(!cb.record_failure_at(0));
    assert!(!cb.record_failure_at(second));
    // Both are out of the window by now.
    assert!(!cb.record_failure_at(70 * second));
    assert!(!cb.record_failure_at(71 * second));
    assert!(cb.record_failure_at(72 * second));
    assert!(cb.elapsed_nanos() < 60 * second);
}

#[test]
fn unknown_kind_is_named_as_typed() {
    let err = ServiceKind::parse("FooBar").unwrap_err();
    assert!(err.contains("FooBar"), "{err}");
    assert_eq!(ServiceKind::parse("PG"), Ok(ServiceKind::Postgresql));
    assert!(ServiceKind::Redis.is_db());
    assert!(!ServiceKind::Nginx.is_db());
    assert_eq!(ServiceKind::db_engines().len(), 3);
    assert_eq!(ServiceKind::parse("horizon"), Ok(ServiceKind::Horizon));
    assert_eq!(ServiceKind::parse("reverb"), Ok(ServiceKind::Reverb));
}
