//! What supervision promises, said in plain terms: when a crashing service is
//! given up, how a child is stopped, and which services a configuration asks
//! for.

use crate::config::{self, HearthConfig, PackageView};
use crate::fs::{self, Disk};
use crate::path;
use crate::php::fpm::StateView;
use crate::php::resolver::resolved_fpm;
use crate::php::targets::{discoveries, IdentityView};
use crate::service::managed::{
    failed, fresh, label_of, pg_ctl_args, started, stop_begin, stop_next, stopped, LaunchConfView,
    ManagedView, SignalledView, StopReplyView, StopStageView, StrategyView, WaitedView,
};
use crate::service::manager::{
    default_set, fpm_service, installed, mail_services, offered, pgrep_verdict, version_of,
    web_services, worker, workers, DbOffer, PgrepResult, Surroundings,
};
use crate::service::supervisor::{
    blocked, inserted, launch_of, reconfigured, removed, replace_begin, replace_next, restart_begin,
    restart_next, start_begin, unconfigured, OwnershipView, ReplaceOutcomeView, ReplaceStageView,
    RestartOutcomeView, RestartStageView, SupReplyView, SupView,
};
use crate::service::sweep::{
    advance, fault_lines, sweep_begin, sweep_next, visit, SweepJob, SweepStageView, SweepView,
};
use crate::service::{
    counts, failed_at, failures_at, kind_named, name_of, recent, tripped, BreakerView, ServiceKind,
    ServiceStateView,
};
use crate::text;
use vstd::prelude::*;

verus! {

// ---- the circuit breaker ----
/// A failure at `now` is remembered together with exactly those earlier ones
/// that are younger than the window, in their order; one that lies ahead counts
/// as just now.
pub proof fn breaker_remembers_its_window(b: BreakerView, now: u128)
    ensures
        failed_at(b, now).failures == b.failures.filter(
            |t: u128| (if t > now { 0 } else { now - t }) < b.window_ms * 1_000_000,
        ).push(now),
        failed_at(b, now).max_failures == b.max_failures,
        failed_at(b, now).window_ms == b.window_ms,
{
    recent_is_filtered(b.failures, now, b.window_ms);
}

proof fn recent_is_filtered(failures: Seq<u128>, now: u128, window_ms: u64)
    ensures
        recent(failures, now, window_ms) == failures.filter(
            |t: u128| (if t > now { 0 } else { now - t }) < window_ms * 1_000_000,
        ),
    decreases failures.len(),
{
    let young = |t: u128| (if t > now { 0 } else { now - t }) < window_ms * 1_000_000;
    filter_step(failures, young);
    if failures.len() > 0 {
        recent_is_filtered(failures.drop_last(), now, window_ms);
        assert(young(failures.last()) == counts(failures.last(), now, window_ms));
    } else {
        assert(failures =~= Seq::empty());
    }
}

proof fn filter_step(s: Seq<u128>, f: spec_fn(u128) -> bool)
    ensures
        s.len() == 0 ==> s.filter(f) == s,
        s.len() > 0 && f(s.last()) ==> s.filter(f) == s.drop_last().filter(f).push(s.last()),
        s.len() > 0 && !f(s.last()) ==> s.filter(f) == s.drop_last().filter(f),
        s.filter(f).len() <= s.len(),
{
    reveal(Seq::filter);
    if s.len() > 0 {
        s.filter_lemma(f);
    }
    s.lemma_filter_len(f);
}

/// Crashes that all lie within one window trip a breaker as soon as there are
/// as many as it allows, and not before.
pub proof fn crashes_within_the_window_trip(max_failures: u32, window_ms: u64, times: Seq<u128>)
    requires
        times.len() > 0,
        forall|i: int, j: int| 0 <= i <= j < times.len() ==> #[trigger] times[i] <= #[trigger] times[j],
        times.last() - times[0] < window_ms * 1_000_000,
    ensures
        ({
            let b = failures_at(
                BreakerView { max_failures, window_ms, failures: Seq::empty() },
                times,
            );
            &&& b.failures == times
            &&& b.max_failures == max_failures && b.window_ms == window_ms
            &&& tripped(b) <==> times.len() >= max_failures
        }),
    decreases times.len(),
{
    let start = BreakerView { max_failures, window_ms, failures: Seq::empty() };
    let rest = times.drop_last();
    let now = times.last();
    let young = |t: u128| (if t > now { 0 } else { now - t }) < window_ms * 1_000_000;
    let before = failures_at(start, rest);
    if rest.len() == 0 {
        assert(before == start);
        assert(before.failures =~= rest);
    } else {
        assert forall|i: int, j: int| 0 <= i <= j < rest.len() implies #[trigger] rest[i]
            <= #[trigger] rest[j] by {
            assert(times[i] <= times[j]);
        }
        assert(rest.last() == times[times.len() - 2]);
        assert(times[times.len() - 2] <= times[times.len() - 1]);
        assert(rest[0] == times[0]);
        crashes_within_the_window_trip(max_failures, window_ms, rest);
    }
    breaker_remembers_its_window(before, now);
    assert forall|i: int| 0 <= i < rest.len() implies young(#[trigger] rest[i]) by {
        assert(times[0] <= times[i] <= times[times.len() - 1]);
    }
    all_kept(rest, young);
    assert(rest.push(now) =~= times);
}

proof fn all_kept(s: Seq<u128>, f: spec_fn(u128) -> bool)
    requires
        forall|i: int| 0 <= i < s.len() ==> f(#[trigger] s[i]),
    ensures
        s.filter(f) == s,
    decreases s.len(),
{
    reveal(Seq::filter);
    if s.len() > 0 {
        assert forall|i: int| 0 <= i < s.drop_last().len() implies f(#[trigger] s.drop_last()[i]) by {
            assert(s.drop_last()[i] == s[i]);
        }
        all_kept(s.drop_last(), f);
        assert(f(s[s.len() - 1]));
        assert(s.drop_last().push(s.last()) =~= s);
    } else {
        assert(s.filter(f) =~= s);
    }
}

/// A new service is given up at its third crash within a minute: two are never
/// enough, and a third that comes a minute or more after the first does not
/// trip the breaker.
pub proof fn three_crashes_in_a_minute(
    kind: ServiceKind,
    command: Seq<char>,
    args: Seq<Seq<char>>,
    a: u128,
    b: u128,
    c: u128,
)
    requires
        a <= b <= c,
    ensures
        ({
            let breaker = fresh(kind, command, args).breaker;
            &&& !tripped(failed_at(breaker, a))
            &&& !tripped(failed_at(failed_at(breaker, a), b))
            &&& tripped(failed_at(failed_at(failed_at(breaker, a), b), c)) <==> c - a
                < 60_000_000_000
        }),
{
    let start = fresh(kind, command, args).breaker;
    let one = failed_at(start, a);
    let two = failed_at(one, b);
    let three = failed_at(two, c);
    breaker_remembers_its_window(start, a);
    breaker_remembers_its_window(one, b);
    breaker_remembers_its_window(two, c);
    let at_a = |t: u128| (if t > a { 0 } else { a - t }) < start.window_ms * 1_000_000;
    let at_b = |t: u128| (if t > b { 0 } else { b - t }) < one.window_ms * 1_000_000;
    let at_c = |t: u128| (if t > c { 0 } else { c - t }) < two.window_ms * 1_000_000;
    filter_step(start.failures, at_a);
    assert(one.failures =~= seq![a]);
    filter_step(one.failures, at_b);
    filter_step(one.failures.drop_last(), at_b);
    assert(one.failures.drop_last() =~= Seq::empty());
    if b - a < 60_000_000_000 {
        assert(at_b(a));
        assert(two.failures =~= seq![a, b]);
        assert(two.failures.drop_last() =~= seq![a]);
        assert(two.failures.drop_last().drop_last() =~= Seq::empty());
        filter_step(two.failures, at_c);
        filter_step(two.failures.drop_last(), at_c);
        filter_step(two.failures.drop_last().drop_last(), at_c);
        assert(at_c(a) == (c - a < 60_000_000_000));
        assert(at_c(b) == (c - b < 60_000_000_000));
    } else {
        assert(!at_b(a));
        assert(two.failures =~= seq![b]);
        filter_step(two.failures, at_c);
    }
}

// ---- names ----
/// Each service has one name, and a name or alias stands for one service;
/// anything else stands for none.
pub proof fn services_and_their_names(s: Seq<char>)
    ensures
        name_of(ServiceKind::Nginx) == "nginx"@,
        name_of(ServiceKind::PhpFpm) == "php-fpm"@,
        name_of(ServiceKind::Dnsmasq) == "dnsmasq"@,
        name_of(ServiceKind::Mysql) == "mysql"@,
        name_of(ServiceKind::Redis) == "redis"@,
        name_of(ServiceKind::Postgresql) == "postgresql"@,
        name_of(ServiceKind::Mailpit) == "mailpit"@,
        name_of(ServiceKind::DumpServer) == "dump-server"@,
        name_of(ServiceKind::Horizon) == "horizon"@,
        name_of(ServiceKind::Reverb) == "reverb"@,
        kind_named(s) == Some(ServiceKind::Nginx) <==> s == "nginx"@,
        kind_named(s) == Some(ServiceKind::PhpFpm) <==> s == "php-fpm"@ || s == "phpfpm"@ || s
            == "php"@,
        kind_named(s) == Some(ServiceKind::Dnsmasq) <==> s == "dnsmasq"@ || s == "dns"@,
        kind_named(s) == Some(ServiceKind::Mysql) <==> s == "mysql"@,
        kind_named(s) == Some(ServiceKind::Redis) <==> s == "redis"@,
        kind_named(s) == Some(ServiceKind::Postgresql) <==> s == "postgresql"@ || s == "postgres"@
            || s == "pg"@,
        kind_named(s) == Some(ServiceKind::Mailpit) <==> s == "mailpit"@ || s == "mail"@,
        kind_named(s) == Some(ServiceKind::DumpServer) <==> s == "dump-server"@ || s == "dump"@,
        kind_named(s) == Some(ServiceKind::Horizon) <==> s == "horizon"@,
        kind_named(s) == Some(ServiceKind::Reverb) <==> s == "reverb"@,
{
    reveal_strlit("nginx");
    reveal_strlit("php-fpm");
    reveal_strlit("phpfpm");
    reveal_strlit("php");
    reveal_strlit("dnsmasq");
    reveal_strlit("dns");
    reveal_strlit("mysql");
    reveal_strlit("redis");
    reveal_strlit("postgresql");
    reveal_strlit("postgres");
    reveal_strlit("pg");
    reveal_strlit("mailpit");
    reveal_strlit("mail");
    reveal_strlit("dump-server");
    reveal_strlit("dump");
    reveal_strlit("horizon");
    reveal_strlit("reverb");
    if s.len() > 0 {
        let a = s[0];
        let b = if s.len() > 1 {
            s[1]
        } else {
            ' '
        };
        assert(s == "php"@ || s == "php-fpm"@ || s == "phpfpm"@ ==> a == 'p' && b == 'h');
        assert(s == "postgresql"@ || s == "postgres"@ ==> a == 'p' && b == 'o');
        assert(s == "pg"@ ==> a == 'p' && b == 'g');
        assert(s == "dnsmasq"@ || s == "dns"@ ==> a == 'd' && b == 'n');
        assert(s == "dump-server"@ || s == "dump"@ ==> a == 'd' && b == 'u');
        assert(s == "mysql"@ ==> a == 'm' && b == 'y');
        assert(s == "mailpit"@ || s == "mail"@ ==> a == 'm' && b == 'a');
        assert(s == "redis"@ ==> s.len() == 5 && a == 'r');
        assert(s == "reverb"@ ==> s.len() == 6 && a == 'r');
        assert(s == "nginx"@ ==> a == 'n');
        assert(s == "horizon"@ ==> a == 'h');
    }
}

/// A service is shown under its name, a worker with its site behind it.
pub proof fn worker_label_names_its_site(v: ManagedView)
    ensures
        v.site_name is None ==> label_of(v) == name_of(v.kind),
        v.site_name matches Some(site) ==> label_of(v) == name_of(v.kind) + "["@ + site + "]"@,
{
}

// ---- new services ----
/// A new service runs what it is given, in no particular directory and for no
/// site, and nothing of it runs yet.
pub proof fn new_service_is_idle(kind: ServiceKind, command: Seq<char>, args: Seq<Seq<char>>)
    ensures
        ({
            let v = fresh(kind, command, args);
            &&& v.kind == kind && v.command == command && v.args == args
            &&& v.state is Stopped && v.child is None
            &&& v.cwd is None && v.site_name is None && v.env.len() == 0
            &&& v.fpm_launch is None && v.launch_generation is None && v.started_at is None
            &&& v.strategy is Default
            &&& v.breaker.failures.len() == 0
        }),
{
}

// ---- the default set ----
/// Whether a service is among these that runs a command with its arguments.
pub open spec fn runs(
    set: Seq<ManagedView>,
    kind: ServiceKind,
    command: Seq<char>,
    args: Seq<Seq<char>>,
) -> bool {
    exists|k: int|
        0 <= k < set.len() && (#[trigger] set[k]).kind == kind && set[k].command == command
            && set[k].args == args
}

/// Whether the worker of a package is among these: its command, in the site's
/// directory and under the site's name.
pub open spec fn works(set: Seq<ManagedView>, kind: ServiceKind, p: PackageView) -> bool {
    exists|k: int|
        0 <= k < set.len() && (#[trigger] set[k]).kind == kind && set[k].command == p.command
            && set[k].args == p.args && set[k].cwd == Some(p.site_path) && set[k].site_name
            == Some(p.site_name)
}

/// Where PHP may be launched, every package that is a Horizon or a Reverb has
/// its worker among the services.
pub proof fn every_worker_is_registered(
    c: HearthConfig,
    config_dir: Seq<char>,
    hearth: Seq<char>,
    herd: Seq<char>,
    homebrew: Seq<char>,
    s: Surroundings,
    d: Disk,
    i: int,
)
    requires
        0 <= i < c.added_packages@.len(),
    ensures
        ({
            let set = default_set(c, config_dir, true, hearth, herd, homebrew, s, d);
            let p = c.added_packages@[i]@;
            &&& p.package == "horizon"@ ==> works(set, ServiceKind::Horizon, p)
            &&& p.package == "reverb"@ ==> works(set, ServiceKind::Reverb, p)
        }),
{
    let list = config::packages(c.added_packages@);
    let n = list.len() as int;
    let set = default_set(c, config_dir, true, hearth, herd, homebrew, s, d);
    let tail = workers(list, n, config_dir, hearth, herd, homebrew, d);
    let p = list[i];
    assert(p == c.added_packages@[i]@);
    reveal_strlit("horizon");
    reveal_strlit("reverb");
    assert("horizon"@.len() != "reverb"@.len());
    if p.package == "horizon"@ || p.package == "reverb"@ {
        let k = worker_found(list, n, config_dir, hearth, herd, homebrew, d, i);
        let at = set.len() - tail.len() + k;
        assert(set[at] == tail[k]);
        assert(set[at].kind == tail[k].kind);
    }
}

proof fn worker_found(
    list: Seq<PackageView>,
    n: int,
    config_dir: Seq<char>,
    hearth: Seq<char>,
    herd: Seq<char>,
    homebrew: Seq<char>,
    d: Disk,
    i: int,
) -> (k: int)
    requires
        0 <= i < n <= list.len(),
        list[i].package == "horizon"@ || list[i].package == "reverb"@,
    ensures
        0 <= k < workers(list, n, config_dir, hearth, herd, homebrew, d).len(),
        ({
            let w = workers(list, n, config_dir, hearth, herd, homebrew, d)[k];
            &&& w.kind == if list[i].package == "horizon"@ {
                ServiceKind::Horizon
            } else {
                ServiceKind::Reverb
            }
            &&& w.command == list[i].command && w.args == list[i].args
            &&& w.cwd == Some(list[i].site_path) && w.site_name == Some(list[i].site_name)
        }),
    decreases n,
{
    let before = workers(list, n - 1, config_dir, hearth, herd, homebrew, d);
    if i == n - 1 {
        before.len() as int
    } else {
        worker_found(list, n - 1, config_dir, hearth, herd, homebrew, d, i)
    }
}

/// A worker's PHP scans the channel of the version that is recorded with its
/// package: `:` and `{config}/php/{version}/conf.d`.
pub proof fn worker_scans_its_version(
    kind: ServiceKind,
    p: PackageView,
    config_dir: Seq<char>,
    hearth: Seq<char>,
    herd: Seq<char>,
    homebrew: Seq<char>,
    d: Disk,
)
    ensures
        ({
            let w = worker(kind, p, config_dir, hearth, herd, homebrew, d);
            &&& p.php_version matches Some(v) ==> w.env == seq![
                (
                    "PHP_INI_SCAN_DIR"@,
                    ":"@ + path::joined(
                        path::joined(path::joined(config_dir, "php"@), v),
                        "conf.d"@,
                    ),
                ),
            ]
            &&& p.php_version is None && fs::facts(d, p.command).canonical is Err ==> w.env.len()
                == 0
            &&& p.php_version is None && (forall|i: int|
                0 <= i < discoveries(30, hearth, herd, homebrew, d).len() ==> path::key(
                    (#[trigger] discoveries(30, hearth, herd, homebrew, d)[i]).binary,
                ) != path::key(fs::facts(d, p.command).canonical->Ok_0)) ==> w.env.len() == 0
            &&& w.breaker == fresh(kind, p.command, p.args).breaker && w.child is None && w.state
                is Stopped
        }),
{
    if p.php_version is None && fs::facts(d, p.command).canonical is Ok {
        let ids = discoveries(30, hearth, herd, homebrew, d);
        let c = fs::facts(d, p.command).canonical->Ok_0;
        if forall|i: int| 0 <= i < ids.len() ==> path::key((#[trigger] ids[i]).binary) != path::key(c) {
            no_version(ids, c, 0);
        }
    }
}

proof fn no_version(ids: Seq<IdentityView>, binary: Seq<char>, i: int)
    requires
        0 <= i,
        forall|j: int|
            0 <= j < ids.len() ==> path::key((#[trigger] ids[j]).binary) != path::key(binary),
    ensures
        version_of(ids, binary, i) is None,
    decreases ids.len() - i,
{
    if i < ids.len() {
        no_version(ids, binary, i + 1);
    }
}

/// A worker without a recorded version gets that of the first discovered
/// binary that its command is.
pub proof fn worker_version_is_that_of_its_binary(
    p: PackageView,
    config_dir: Seq<char>,
    hearth: Seq<char>,
    herd: Seq<char>,
    homebrew: Seq<char>,
    d: Disk,
    kind: ServiceKind,
    i: int,
)
    requires
        p.php_version is None,
        fs::facts(d, p.command).canonical is Ok,
        0 <= i < discoveries(30, hearth, herd, homebrew, d).len(),
        path::key(discoveries(30, hearth, herd, homebrew, d)[i].binary) == path::key(
            fs::facts(d, p.command).canonical->Ok_0,
        ),
        forall|j: int|
            0 <= j < i ==> path::key(
                (#[trigger] discoveries(30, hearth, herd, homebrew, d)[j]).binary,
            ) != path::key(fs::facts(d, p.command).canonical->Ok_0),
    ensures
        worker(kind, p, config_dir, hearth, herd, homebrew, d).env == seq![
            (
                "PHP_INI_SCAN_DIR"@,
                ":"@ + path::joined(
                    path::joined(
                        path::joined(config_dir, "php"@),
                        discoveries(30, hearth, herd, homebrew, d)[i].version,
                    ),
                    "conf.d"@,
                ),
            ),
        ],
{
    first_version(
        discoveries(30, hearth, herd, homebrew, d),
        fs::facts(d, p.command).canonical->Ok_0,
        0,
        i,
    );
}

proof fn first_version(
    ids: Seq<IdentityView>,
    binary: Seq<char>,
    i: int,
    k: int,
)
    requires
        0 <= i <= k < ids.len(),
        path::key(ids[k].binary) == path::key(binary),
        forall|j: int| 0 <= j < k ==> path::key((#[trigger] ids[j]).binary) != path::key(binary),
    ensures
        version_of(ids, binary, i) == Some(ids[k].version),
    decreases k - i,
{
    if i < k {
        first_version(ids, binary, i + 1, k);
    }
}

/// While nobody else owns the web services, nginx and dnsmasq run in the
/// foreground with Hearth's own configuration, dnsmasq on the configured port.
pub proof fn web_services_are_registered(
    c: HearthConfig,
    config_dir: Seq<char>,
    php: bool,
    hearth: Seq<char>,
    herd: Seq<char>,
    homebrew: Seq<char>,
    s: Surroundings,
    d: Disk,
)
    requires
        s.ownership@ is Unowned,
    ensures
        ({
            let set = default_set(c, config_dir, php, hearth, herd, homebrew, s, d);
            &&& runs(
                set,
                ServiceKind::Nginx,
                "nginx"@,
                seq!["-c"@, path::joined(config_dir, "nginx/nginx.conf"@), "-g"@, "daemon off;"@],
            )
            &&& runs(
                set,
                ServiceKind::Dnsmasq,
                "dnsmasq"@,
                seq![
                    "--keep-in-foreground"@,
                    "--port="@ + text::decimal(c.dns_port as nat),
                    "--conf-file="@ + path::joined(config_dir, "dnsmasq/dnsmasq.conf"@),
                ],
            )
        }),
{
    let set = default_set(c, config_dir, php, hearth, herd, homebrew, s, d);
    assert(set[0].kind == ServiceKind::Nginx);
    assert(set[1].kind == ServiceKind::Dnsmasq);
}

/// Mailpit is registered wherever its binary was found, on the configured
/// local ports and with Hearth's own database.
pub proof fn mailpit_is_registered(
    c: HearthConfig,
    config_dir: Seq<char>,
    php: bool,
    hearth: Seq<char>,
    herd: Seq<char>,
    homebrew: Seq<char>,
    s: Surroundings,
    d: Disk,
)
    requires
        s.mailpit is Some,
    ensures
        runs(
            default_set(c, config_dir, php, hearth, herd, homebrew, s, d),
            ServiceKind::Mailpit,
            s.mailpit->0@,
            seq![
                "--smtp"@,
                "127.0.0.1:"@ + text::decimal(c.mail_smtp_port as nat),
                "--listen"@,
                "127.0.0.1:"@ + text::decimal(c.mail_ui_port as nat),
                "--db-file"@,
                path::joined(config_dir, "services/mailpit/mailpit.db"@),
            ],
        ),
{
    let set = default_set(c, config_dir, php, hearth, herd, homebrew, s, d);
    let at = web_services(c, config_dir, php, s, d).len() as int;
    assert(set[at] == mail_services(c, config_dir, s)[0]);
    assert(set[at].kind == ServiceKind::Mailpit);
}

/// Every database engine that was found, whose port is free and that could be
/// built, is registered as it was built.
pub proof fn free_engines_are_registered(
    c: HearthConfig,
    config_dir: Seq<char>,
    php: bool,
    hearth: Seq<char>,
    herd: Seq<char>,
    homebrew: Seq<char>,
    s: Surroundings,
    d: Disk,
)
    ensures
        ({
            let set = default_set(c, config_dir, php, hearth, herd, homebrew, s, d);
            &&& s.postgres matches Some(o) ==> !o.port_in_use ==> (o.service matches Ok(v)
                ==> set.contains(v@))
            &&& s.mysql matches Some(o) ==> !o.port_in_use ==> (o.service matches Ok(v)
                ==> set.contains(v@))
            &&& s.redis matches Some(o) ==> !o.port_in_use ==> (o.service matches Ok(v)
                ==> set.contains(v@))
        }),
{
    let set = default_set(c, config_dir, php, hearth, herd, homebrew, s, d);
    let a = (web_services(c, config_dir, php, s, d)
        + mail_services(c, config_dir, s)).len() as int;
    let b = a + offered(s.postgres).len();
    let e = b + offered(s.mysql).len();
    if offered(s.postgres).len() > 0 {
        assert(set[a] == offered(s.postgres)[0]);
    }
    if offered(s.mysql).len() > 0 {
        assert(set[b] == offered(s.mysql)[0]);
    }
    if offered(s.redis).len() > 0 {
        assert(set[e] == offered(s.redis)[0]);
    }
}

/// How many of one kind of thing there are, 0 or 1.
pub open spec fn one_if(b: bool) -> int {
    if b {
        1
    } else {
        0
    }
}

/// Whether an engine is offered that can be run.
pub open spec fn usable(o: Option<DbOffer>) -> bool {
    o is Some && !o->0.port_in_use && o->0.service is Ok
}

/// Nothing is registered but the web services, FPM where it can be built,
/// Mailpit, the engines offered and the workers.
pub proof fn nothing_else_is_registered(
    c: HearthConfig,
    config_dir: Seq<char>,
    php: bool,
    hearth: Seq<char>,
    herd: Seq<char>,
    homebrew: Seq<char>,
    s: Surroundings,
    d: Disk,
)
    ensures
        ({
            let fpm = fpm_service(
                c.default_php@,
                config_dir,
                text::opt_text(s.home),
                s.fpm_conf@,
                d,
            );
            let unowned = s.ownership@ is Unowned;
            default_set(c, config_dir, php, hearth, herd, homebrew, s, d).len() == 2 * one_if(
                unowned,
            ) + one_if(unowned && php && fpm is Ok) + one_if(s.mailpit is Some) + one_if(
                usable(s.postgres),
            ) + one_if(usable(s.mysql)) + one_if(usable(s.redis)) + if php {
                config::packages(c.added_packages@).filter(
                    |p: PackageView| p.package == "horizon"@ || p.package == "reverb"@,
                ).len() as int
            } else {
                0
            }
        }),
{
    let list = config::packages(c.added_packages@);
    count_workers(list, list.len() as int, config_dir, hearth, herd, homebrew, d);
    assert(list.take(list.len() as int) =~= list);
}

proof fn count_workers(
    list: Seq<PackageView>,
    n: int,
    config_dir: Seq<char>,
    hearth: Seq<char>,
    herd: Seq<char>,
    homebrew: Seq<char>,
    d: Disk,
)
    requires
        0 <= n <= list.len(),
    ensures
        workers(list, n, config_dir, hearth, herd, homebrew, d).len() == list.take(n).filter(
            |p: PackageView| p.package == "horizon"@ || p.package == "reverb"@,
        ).len(),
    decreases n,
{
    reveal(Seq::filter);
    let is = |p: PackageView| p.package == "horizon"@ || p.package == "reverb"@;
    let t = list.take(n);
    if n > 0 {
        count_workers(list, n - 1, config_dir, hearth, herd, homebrew, d);
        assert(t.drop_last() =~= list.take(n - 1));
        assert(t.last() == list[n - 1]);
        if is(t.last()) {
            assert(t.filter(is) == t.drop_last().filter(is).push(t.last()));
        } else {
            assert(t.filter(is) == t.drop_last().filter(is));
        }
    }
}

/// FPM is registered where it may be, its binary is found and its
/// configuration is a file: the first binary of the chain, in the foreground,
/// with Hearth's own configuration and the version's channel.
pub proof fn fpm_is_launched_as_configured(
    version: Seq<char>,
    config_dir: Seq<char>,
    home: Option<Seq<char>>,
    state: StateView,
    d: Disk,
)
    ensures
        ({
            let conf = path::joined(config_dir, "fpm/php-fpm.conf"@);
            let there = fs::facts(d, conf).target;
            let binary = resolved_fpm(version, config_dir, home, d);
            match fpm_service(version, config_dir, home, state, d) {
                Ok(v) => {
                    &&& there is Ok && there->Ok_0.is_file
                    &&& binary == Some(v.command)
                    &&& v.kind == ServiceKind::PhpFpm
                    &&& v.args == seq!["--nodaemonize"@, "--fpm-config="@ + conf]
                    &&& v.env == seq![
                        (
                            "PHP_INI_SCAN_DIR"@,
                            ":"@ + path::joined(
                                path::joined(path::joined(config_dir, "php"@), version),
                                "conf.d"@,
                            ),
                        ),
                    ]
                    &&& state matches StateView::HearthOwned {
                        conf: at,
                        conf_sha256,
                        probe_sha256,
                        listen,
                    } ==> v.fpm_launch == Some(
                        LaunchConfView::HearthOwned { conf: at, conf_sha256, probe_sha256, listen },
                    )
                    &&& state matches StateView::UserManaged { conf: at } ==> v.fpm_launch == Some(
                        LaunchConfView::UserManaged { conf: at },
                    )
                    &&& v.child is None && v.state is Stopped
                },
                Err(e) => {
                    &&& binary is None || !(there is Ok && there->Ok_0.is_file)
                    &&& binary is None <==> e == "php-fpm binary for "@ + version
                        + " not found — skipping registration"@
                    &&& binary is Some ==> e
                        == "launch-blocked: missing fpm config — see todo #2343"@
                },
            }
        }),
{
    reveal_strlit("php-fpm binary for ");
    reveal_strlit("launch-blocked: missing fpm config — see todo #2343");
    let e = "php-fpm binary for "@ + version + " not found — skipping registration"@;
    assert(e[0] == 'p');
    assert("launch-blocked: missing fpm config — see todo #2343"@[0] == 'l');
}

/// Where it may be registered, FPM is.
pub proof fn fpm_is_registered(
    c: HearthConfig,
    config_dir: Seq<char>,
    hearth: Seq<char>,
    herd: Seq<char>,
    homebrew: Seq<char>,
    s: Surroundings,
    d: Disk,
)
    requires
        s.ownership@ is Unowned,
    ensures
        fpm_service(c.default_php@, config_dir, text::opt_text(s.home), s.fpm_conf@, d) matches Ok(
            v,
        ) ==> default_set(c, config_dir, true, hearth, herd, homebrew, s, d).contains(v),
{
    let set = default_set(c, config_dir, true, hearth, herd, homebrew, s, d);
    if let Ok(v) = fpm_service(c.default_php@, config_dir, text::opt_text(s.home), s.fpm_conf@, d) {
        assert(set[2] == v);
    }
}

/// A package counts as installed where its directory below the site's `vendor`
/// is there.
pub proof fn installed_is_by_vendor_directory(p: PackageView, d: Disk)
    ensures
        installed(p, d) == fs::facts(
            d,
            path::joined(path::joined(p.site_path, "vendor"@), "laravel/"@ + p.package),
        ).exists,
{
}

/// The process check says that Herd owns FPM at exit 0, that it does not at
/// exit 1, and nothing in any other case.
pub proof fn process_check_decides_on_two_exits(result: PgrepResult)
    ensures
        pgrep_verdict(result) is Owned <==> (result matches PgrepResult::Ended { code, status }
            && code == Some(0i32)),
        pgrep_verdict(result) is Unowned <==> (result matches PgrepResult::Ended { code, status }
            && code == Some(1i32)),
{
}

// ---- stopping ----
/// What a confirmed exit leaves of a service: no child and no trace of the
/// launch, everything else as it was.
pub open spec fn laid_down(v: ManagedView, w: ManagedView) -> bool {
    &&& w.child is None && w.state is Stopped
    &&& w.started_at is None && w.launch_generation is None
    &&& w.kind == v.kind && w.command == v.command && w.args == v.args && w.cwd == v.cwd
    &&& w.env == v.env && w.site_name == v.site_name && w.strategy == v.strategy
    &&& w.breaker == v.breaker && w.fpm_launch == v.fpm_launch
}

/// A stop asks first whether the child is alive; one without a child is over
/// at once.
pub proof fn stop_begins_with_a_look(v: ManagedView)
    ensures
        v.child is Some ==> stop_begin(v) == (v, StopStageView::ProbeBefore),
        v.child is None ==> laid_down(v, stop_begin(v).0) && stop_begin(v).1 == (
        StopStageView::Done { result: Ok(()) }),
{
}

/// A child that is seen to be gone, at whatever point it is looked at, ends
/// the stop: the service is laid down and the stop is a success.
pub proof fn seen_exit_ends_the_stop(v: ManagedView, stage: StopStageView, elapsed_ms: u64)
    ensures
        stage is ProbeBefore || stage is ProbeAfterTerm || stage is ProbeAfterKill ==> {
            let (w, next) = stop_next(v, stage, StopReplyView::Wait(WaitedView::Exited));
            laid_down(v, w) && next == (StopStageView::Done { result: Ok(()) })
        },
        ({
            let (w, next) = stop_next(
                v,
                StopStageView::Poll,
                StopReplyView::Polled { waited: WaitedView::Exited, elapsed_ms },
            );
            laid_down(v, w) && next == (StopStageView::Done { result: Ok(()) })
        }),
        ({
            let (w, next) = stop_next(v, StopStageView::Reap, StopReplyView::Did(Ok(())));
            laid_down(v, w) && next == (StopStageView::Done { result: Ok(()) })
        }),
{
}

/// A look that fails, and a signal or reap that fails on a child that is not
/// seen to be gone, ends the stop with an error; the service keeps its child
/// and everything else.
pub proof fn doubt_keeps_the_child(v: ManagedView, e: Seq<char>, error: Seq<char>, elapsed_ms: u64)
    ensures
        ({
            let keeps = |stage: StopStageView, reply: StopReplyView|
                stop_next(v, stage, reply).0 == v && stop_next(v, stage, reply).1 is Done
                    && stop_next(v, stage, reply).1->result is Err;
            let lost = StopReplyView::Wait(WaitedView::Error(e));
            let alive = StopReplyView::Wait(WaitedView::Running);
            &&& keeps(StopStageView::ProbeBefore, lost)
            &&& keeps(StopStageView::ProbeAfterTerm { error }, lost)
            &&& keeps(StopStageView::ProbeAfterTerm { error }, alive)
            &&& keeps(StopStageView::ProbeAfterKill { error }, lost)
            &&& keeps(StopStageView::ProbeAfterKill { error }, alive)
            &&& keeps(
                StopStageView::Poll,
                StopReplyView::Polled { waited: WaitedView::Error(e), elapsed_ms },
            )
            &&& keeps(StopStageView::Reap, StopReplyView::Did(Err(e)))
        }),
{
}

/// A live child is asked to end before it is killed: SIGTERM to its group, or
/// the coordinated shutdown of PostgreSQL, with SIGTERM where that fails; then
/// the grace period; only then SIGKILL, and then it is reaped.
pub proof fn stop_escalates(v: ManagedView, error: Seq<char>)
    ensures
        stop_next(
            v,
            StopStageView::ProbeBefore,
            StopReplyView::Wait(WaitedView::Running),
        ).1 == if v.strategy is Postgres {
            StopStageView::PgCtl
        } else {
            StopStageView::Terminate
        },
        stop_next(v, StopStageView::PgCtl, StopReplyView::PgCtl(true)).1 is Poll,
        stop_next(v, StopStageView::PgCtl, StopReplyView::PgCtl(false)).1 is Terminate,
        stop_next(v, StopStageView::Terminate, StopReplyView::Signal(SignalledView::Sent)).1
            is Poll,
        stop_next(v, StopStageView::Terminate, StopReplyView::Signal(SignalledView::Gone)).1
            is Poll,
        stop_next(
            v,
            StopStageView::Terminate,
            StopReplyView::Signal(SignalledView::Error(error)),
        ).1 == (StopStageView::ProbeAfterTerm { error }),
        stop_next(v, StopStageView::Kill, StopReplyView::Did(Ok(()))).1 is Reap,
        stop_next(v, StopStageView::Kill, StopReplyView::Did(Err(error))).1 == (
        StopStageView::ProbeAfterKill { error }),
{
}

/// How long a live child is waited for: five seconds, the grace that it was
/// given, or twenty seconds for PostgreSQL.
pub proof fn grace_periods(v: ManagedView, elapsed_ms: u64)
    ensures
        ({
            let next = stop_next(
                v,
                StopStageView::Poll,
                StopReplyView::Polled { waited: WaitedView::Running, elapsed_ms },
            ).1;
            let grace = match v.strategy {
                StrategyView::Default => 5_000,
                StrategyView::LongGrace { grace_ms } => grace_ms,
                StrategyView::Postgres { datadir, pg_ctl_binary } => 20_000,
            };
            &&& next is Kill <==> elapsed_ms >= grace
            &&& next is Poll <==> elapsed_ms < grace
        }),
{
}

/// A signal, a poll of a live child and a coordinated shutdown never change
/// the service itself.
pub proof fn only_an_exit_changes_the_service(
    v: ManagedView,
    stage: StopStageView,
    reply: StopReplyView,
)
    ensures
        stop_next(v, stage, reply).0 == v || laid_down(v, stop_next(v, stage, reply).0),
        !(stop_next(v, stage, reply).1 is Done) ==> stop_next(v, stage, reply).0 == v,
{
}

// ---- starting, restarting and replacing ----
/// Whether `i` is the place of the one service of a kind.
pub open spec fn only_at(services: Seq<ManagedView>, kind: ServiceKind, i: int) -> bool {
    &&& 0 <= i < services.len()
    &&& services[i].kind == kind
    &&& forall|j: int| 0 <= j < services.len() && j != i ==> (#[trigger] services[j]).kind != kind
}

/// Whether everything but the service at `i` is as it was.
pub open spec fn others_stay(s: SupView, t: SupView, i: int) -> bool {
    &&& t.services.len() == s.services.len()
    &&& t.ownership == s.ownership && t.health_interval_ms == s.health_interval_ms
    &&& forall|j: int|
        0 <= j < s.services.len() && j != i ==> #[trigger] t.services[j] == s.services[j]
}

proof fn found(s: SupView, kind: ServiceKind, i: int)
    requires
        only_at(s.services, kind, i),
    ensures
        crate::service::supervisor::place(s.services, kind) == Some(i),
{
    crate::service::supervisor::place_is(s.services, kind, i);
}

/// A start of a registered service that is not barred gets the next launch
/// number and forgets its failures; one that is not registered is refused by
/// name; FPM is refused, with nothing changed, unless it is known to be
/// Hearth's.
pub proof fn start_is_answered(s: SupView, kind: ServiceKind, i: int)
    requires
        s.counter < u64::MAX,
    ensures
        kind == ServiceKind::PhpFpm && !(s.ownership is Unowned) ==> start_begin(s, kind).0 == s
            && start_begin(s, kind).1 is Err,
        (kind != ServiceKind::PhpFpm || s.ownership is Unowned) && only_at(s.services, kind, i)
            ==> {
            let (t, r) = start_begin(s, kind);
            &&& r matches Ok(g) && g == s.counter + 1
            &&& t.counter == s.counter + 1
            &&& others_stay(s, t, i)
            &&& t.services[i] == (ManagedView {
                breaker: BreakerView { failures: Seq::empty(), ..s.services[i].breaker },
                ..s.services[i]
            })
        },
        (kind != ServiceKind::PhpFpm || s.ownership is Unowned) && (forall|j: int|
            0 <= j < s.services.len() ==> (#[trigger] s.services[j]).kind != kind) ==> {
            let (t, r) = start_begin(s, kind);
            r matches Err(e) && e == "service "@ + name_of(kind) + " is not registered"@
                && t.services == s.services
        },
{
    if only_at(s.services, kind, i) {
        found(s, kind, i);
    }
}

/// What a spawn makes of a service: running under its launch number, or failed
/// for the reason given with nothing else changed.
pub open spec fn spawned_as(
    v: ManagedView,
    w: ManagedView,
    generation: u64,
    result: Result<u32, Seq<char>>,
    now: u64,
) -> bool {
    match result {
        Ok(pid) => w == (ManagedView {
            child: Some(pid),
            state: ServiceStateView::Running { pid },
            started_at: Some(now),
            launch_generation: Some(generation),
            ..v
        }),
        Err(e) => w == (ManagedView { state: ServiceStateView::Failed { reason: e }, ..v }),
    }
}

/// The FPM restart spawns once its stop is a success, tells a failed stop and
/// a failed start from a restart, and leaves every other service alone.
pub proof fn fpm_restart_does_what_it_says(
    s: SupView,
    i: int,
    stop: StopStageView,
    r: StopReplyView,
    generation: u64,
    result: Result<u32, Seq<char>>,
    now: u64,
)
    requires
        only_at(s.services, ServiceKind::PhpFpm, i),
        s.counter < u64::MAX,
    ensures
        s.ownership is Owned ==> restart_begin(s).1 == (RestartStageView::Done {
            outcome: RestartOutcomeView::SkippedOwned,
        }),
        s.ownership matches OwnershipView::Unknown(diag) ==> restart_begin(s).1 == (
        RestartStageView::Done { outcome: RestartOutcomeView::SkippedOwnershipUnknown(diag) }),
        s.ownership is Unowned && s.services[i].child is Some ==> restart_begin(s).1 == (
        RestartStageView::Stopping { stop: StopStageView::ProbeBefore }),
        s.ownership is Unowned && s.services[i].child is None ==> restart_begin(s).1 == (
        RestartStageView::Spawning { generation: (s.counter + 1) as u64 }),
        ({
            let (t, next) = restart_next(
                s,
                RestartStageView::Stopping { stop },
                SupReplyView::Stop(r),
            );
            let (w, after) = stop_next(s.services[i], stop, r);
            &&& others_stay(s, t, i)
            &&& match after {
                StopStageView::Done { result: Ok(_) } => next == (RestartStageView::Spawning {
                    generation: (s.counter + 1) as u64,
                }) && t.counter == s.counter + 1 && t.services[i].child == w.child
                    && t.services[i].state == w.state && t.services[i].breaker.failures.len() == 0,
                StopStageView::Done { result: Err(error) } => next == (RestartStageView::Done {
                    outcome: RestartOutcomeView::StopFailed { error },
                }) && t.services[i] == w && t.counter == s.counter,
                _ => next == (RestartStageView::Stopping { stop: after }) && t.services[i] == w
                    && t.counter == s.counter,
            }
        }),
        ({
            let (t, next) = restart_next(
                s,
                RestartStageView::Spawning { generation },
                SupReplyView::Spawned { result, now },
            );
            &&& others_stay(s, t, i)
            &&& t.counter == s.counter
            &&& spawned_as(s.services[i], t.services[i], generation, result, now)
            &&& result is Ok <==> next == (RestartStageView::Done {
                outcome: RestartOutcomeView::Restarted,
            })
            &&& result matches Err(error) ==> next == (RestartStageView::Done {
                outcome: RestartOutcomeView::StartFailed { error },
            })
        }),
{
    found(s, ServiceKind::PhpFpm, i);
}

/// A replacement of FPM is built first. A build that fails removes only a
/// registration without a child; one that succeeds takes the place of the old
/// registration once that is stopped.
pub proof fn fpm_replacement_does_what_it_says(
    s: SupView,
    i: int,
    reason: Seq<char>,
    new: ManagedView,
    stop: StopStageView,
    r: StopReplyView,
)
    requires
        only_at(s.services, ServiceKind::PhpFpm, i),
        new.kind == ServiceKind::PhpFpm,
        s.counter < u64::MAX,
    ensures
        s.ownership is Unowned <==> replace_begin(s) is Building,
        ({
            let (t, next) = replace_next(
                s,
                ReplaceStageView::Building,
                SupReplyView::Built(Err(reason)),
            );
            let stale = s.services[i].child is None;
            &&& next == (ReplaceStageView::Done {
                outcome: ReplaceOutcomeView::BuildFailed { reason, removed_stale: stale },
            })
            &&& stale ==> t.services == s.services.remove(i)
            &&& !stale ==> t == s
        }),
        ({
            let (t, next) = replace_next(
                s,
                ReplaceStageView::Building,
                SupReplyView::Built(Ok(new)),
            );
            &&& s.services[i].child is Some ==> t == s && next == (ReplaceStageView::Stopping {
                stop: StopStageView::ProbeBefore,
                replacement: new,
            })
            &&& s.services[i].child is None ==> takes_over(s, t, i, new) && next == (
            ReplaceStageView::Spawning { generation: (s.counter + 1) as u64 })
        }),
        ({
            let (t, next) = replace_next(
                s,
                ReplaceStageView::Stopping { stop, replacement: new },
                SupReplyView::Stop(r),
            );
            let (w, after) = stop_next(s.services[i], stop, r);
            match after {
                StopStageView::Done { result: Ok(_) } => takes_over(s, t, i, new) && next == (
                ReplaceStageView::Spawning { generation: (s.counter + 1) as u64 }),
                StopStageView::Done { result: Err(error) } => next == (ReplaceStageView::Done {
                    outcome: ReplaceOutcomeView::StopFailed { error },
                }) && t.services == s.services.update(i, w),
                _ => next == (ReplaceStageView::Stopping { stop: after, replacement: new })
                    && t.services == s.services.update(i, w),
            }
        }),
{
    found(s, ServiceKind::PhpFpm, i);
    let v = stop_begin(s.services[i]).0;
    assert(s.services.update(i, s.services[i]) =~= s.services);
    let u = SupView { services: s.services.update(i, v), ..s };
    assert(only_at(u.services, ServiceKind::PhpFpm, i));
    found(u, ServiceKind::PhpFpm, i);
    let w = stop_next(s.services[i], stop, r).0;
    only_an_exit_changes_the_service(s.services[i], stop, r);
    let x = SupView { services: s.services.update(i, w), ..s };
    assert(only_at(x.services, ServiceKind::PhpFpm, i));
    found(x, ServiceKind::PhpFpm, i);
}

/// Whether a replacement stands in the place of the registration at `i`, its
/// failures forgotten and a launch numbered for it.
pub open spec fn takes_over(s: SupView, t: SupView, i: int, new: ManagedView) -> bool {
    &&& others_stay(s, t, i)
    &&& t.counter == s.counter + 1
    &&& t.services[i] == (ManagedView {
        breaker: BreakerView { failures: Seq::empty(), ..new.breaker },
        ..new
    })
}

/// A registration takes the place of one of its kind, or comes behind the
/// others; a removal takes it away; a reconfiguration changes the command, its
/// arguments and environment, and forgets failures.
pub proof fn registrations_are_by_kind(
    s: SupView,
    v: ManagedView,
    i: int,
    command: Seq<char>,
    args: Seq<Seq<char>>,
    env: Seq<(Seq<char>, Seq<char>)>,
)
    ensures
        only_at(s.services, v.kind, i) ==> {
            &&& inserted(s, v).services == s.services.update(i, v)
            &&& removed(s, v.kind).services == s.services.remove(i)
            &&& reconfigured(s, v.kind, command, args, env).services == s.services.update(
                i,
                ManagedView {
                    command,
                    args,
                    env,
                    breaker: BreakerView { failures: Seq::empty(), ..s.services[i].breaker },
                    ..s.services[i]
                },
            )
        },
        (forall|j: int| 0 <= j < s.services.len() ==> (#[trigger] s.services[j]).kind != v.kind)
            ==> {
            &&& inserted(s, v).services == s.services.push(v)
            &&& removed(s, v.kind) == s
            &&& reconfigured(s, v.kind, command, args, env) == s
        },
        inserted(s, v).counter == s.counter && inserted(s, v).ownership == s.ownership,
{
    if only_at(s.services, v.kind, i) {
        found(s, v.kind, i);
    }
}

/// What is told of FPM's launch is what is recorded of it, and nothing where
/// any of it is missing.
pub proof fn launch_is_told_whole(s: SupView, i: int)
    requires
        only_at(s.services, ServiceKind::PhpFpm, i),
    ensures
        ({
            let v = s.services[i];
            &&& launch_of(s) is Some <==> v.launch_generation is Some && v.fpm_launch is Some
                && v.started_at is Some
            &&& launch_of(s) matches Some(l) ==> {
                &&& Some(l.generation) == v.launch_generation
                &&& Some(l.conf) == v.fpm_launch
                &&& Some(l.started_at) == v.started_at
                &&& l.group_id == v.child
                &&& l.running <==> v.state is Running
            }
        }),
{
    found(s, ServiceKind::PhpFpm, i);
}

/// A new supervisor holds no service, has launched nothing, and does not know
/// who owns FPM; it looks after its services every five seconds.
pub proof fn new_supervisor_is_closed()
    ensures
        unconfigured().services.len() == 0,
        unconfigured().counter == 0,
        unconfigured().ownership is Unknown,
        unconfigured().health_interval_ms == 5_000,
        blocked(unconfigured().ownership) is Some,
        blocked(OwnershipView::Unowned) is None,
        blocked(OwnershipView::Owned) is Some,
{
}

// ---- sweeps ----
/// A start of everything spawns every service that is not barred, under the
/// next launch number; a stop of everything stops every one that has a child.
pub proof fn sweeps_reach_every_service(s: SupView, i: int)
    requires
        0 <= i < s.services.len(),
        s.counter < u64::MAX,
    ensures
        ({
            let kind = s.services[i].kind;
            let (t, stage) = visit(s, SweepJob::StartAll, i);
            &&& kind != ServiceKind::PhpFpm || s.ownership is Unowned ==> stage == Some(
                SweepStageView::Spawning { generation: (s.counter + 1) as u64 },
            ) && t.services == s.services && t.counter == s.counter + 1
            &&& kind == ServiceKind::PhpFpm && !(s.ownership is Unowned) ==> stage is None && t
                == s
        }),
        ({
            let (t, stage) = visit(s, SweepJob::StopAll, i);
            &&& s.services[i].child is Some ==> t == s && stage == Some(
                SweepStageView::Stopping { stop: StopStageView::ProbeBefore },
            )
            &&& s.services[i].child is None ==> stage is None && others_stay(s, t, i) && laid_down(
                s.services[i],
                t.services[i],
            )
        }),
        ({
            let (t, stage) = visit(s, SweepJob::RestartAll, i);
            &&& s.services[i].kind == ServiceKind::PhpFpm ==> stage is None && t == s
            &&& s.services[i].kind != ServiceKind::PhpFpm && s.services[i].child is Some ==> t == s
                && stage == Some(SweepStageView::Stopping { stop: StopStageView::ProbeBefore })
            &&& s.services[i].kind != ServiceKind::PhpFpm && s.services[i].child is None ==> stage
                == Some(SweepStageView::Spawning { generation: (s.counter + 1) as u64 })
        }),
{
}

/// A health check looks at every running service but an FPM that is not known
/// to be Hearth's; of that it stops its own child while Herd owns FPM, and
/// leaves it alone while nobody knows.
pub proof fn health_looks_at_every_running_service(s: SupView, i: int)
    requires
        0 <= i < s.services.len(),
    ensures
        ({
            let v = s.services[i];
            let ours = v.kind != ServiceKind::PhpFpm || s.ownership is Unowned;
            let (t, stage) = visit(s, SweepJob::Health, i);
            &&& ours && v.state is Running ==> stage == Some(SweepStageView::Probing) && t == s
            &&& ours && !(v.state is Running) ==> stage is None && t == s
            &&& !ours && s.ownership is Unknown ==> stage is None && t == s
            &&& !ours && s.ownership is Owned && v.child is Some ==> t == s && stage == Some(
                SweepStageView::Stopping { stop: StopStageView::ProbeBefore },
            )
            &&& !ours && s.ownership is Owned && v.child is None ==> stage is None && others_stay(
                s,
                t,
                i,
            ) && !(t.services[i].state is Running)
        }),
{
}

/// A service that a health check finds alive is passed over; one that it finds
/// dead loses its child, is reported, and is spawned again under the next
/// launch number unless its breaker trips, which marks it failed.
pub proof fn health_restarts_the_dead(s: SupView, run: SweepView, waited: WaitedView, now: u128)
    requires
        run.job == SweepJob::Health,
        run.stage is Probing,
        0 <= run.at < s.services.len(),
        s.counter < u64::MAX,
        s.services[run.at].child is Some,
        waited is Exited,
        !tripped(failed_at(s.services[run.at].breaker, now)),
    ensures
        ({
            let v = s.services[run.at];
            let (t, next) = sweep_next(s, run, SupReplyView::Probed { waited, now });
            &&& next.stage == (SweepStageView::Spawning { generation: (s.counter + 1) as u64 })
            &&& next.at == run.at
            &&& next.crashed == run.crashed.push(v.kind)
            &&& others_stay(s, t, run.at)
            &&& t.services[run.at].child is None
            &&& t.services[run.at].state == v.state
            &&& t.services[run.at].breaker == failed_at(v.breaker, now)
        }),
{
}

// ---- sweeps as a whole ----
/// Whether a sweep has nothing to wait for at a service: a start passes over
/// what is barred, a stop over what has no child, a restart over FPM, and a
/// health check over what does not run or is not Hearth's to look at.
pub open spec fn passed_over(s: SupView, job: SweepJob, v: ManagedView) -> bool {
    let ours = v.kind != ServiceKind::PhpFpm || s.ownership is Unowned;
    match job {
        SweepJob::StartAll => !ours,
        SweepJob::StopAll => v.child is None,
        SweepJob::RestartAll => v.kind == ServiceKind::PhpFpm,
        SweepJob::Health => (ours && !(v.state is Running)) || (!ours && !(s.ownership is Owned
            && v.child is Some)),
    }
}

/// A sweep that goes on from a place stops at the very next service that is
/// not passed over; it is finished only behind the last service.
pub proof fn sweep_misses_no_service(s: SupView, run: SweepView, k: int)
    requires
        0 <= run.at <= s.services.len(),
        run.job == SweepJob::StartAll || run.job == SweepJob::StopAll || run.job
            == SweepJob::Health,
    ensures
        ({
            let n = advance(s, run).1;
            &&& run.at <= n.at <= s.services.len()
            &&& run.at <= k < n.at ==> passed_over(s, run.job, s.services[k])
            &&& n.at < s.services.len() ==> !(n.stage is Finished) && !passed_over(
                s,
                run.job,
                s.services[n.at],
            )
            &&& n.at == s.services.len() ==> n.stage is Finished
            &&& n.job == run.job && n.errors == run.errors && n.crashed == run.crashed
        }),
    decreases s.services.len() - run.at,
{
    if run.at < s.services.len() {
        let (t, o) = visit(s, run.job, run.at);
        if o is None {
            sweep_misses_no_service(t, SweepView { at: run.at + 1, ..run }, k);
            let n = advance(s, run).1;
            if run.at < k < n.at {
                assert(t.services[k] == s.services[k]);
            }
            if n.at < s.services.len() {
                assert(t.services[n.at] == s.services[n.at]);
            }
        }
    }
}

/// The same for a restart of everything, which ends with the restart of FPM
/// where FPM is registered.
pub proof fn restart_of_all_misses_no_service(s: SupView, run: SweepView, k: int)
    requires
        0 <= run.at <= s.services.len(),
        run.job == SweepJob::RestartAll,
    ensures
        ({
            let n = advance(s, run).1;
            &&& run.at <= n.at <= s.services.len()
            &&& run.at <= k < n.at ==> s.services[k].kind == ServiceKind::PhpFpm
            &&& n.at < s.services.len() ==> (n.stage is Stopping || n.stage is Spawning)
                && s.services[n.at].kind != ServiceKind::PhpFpm
            &&& n.at == s.services.len() ==> n.stage is Finished || n.stage is Fpm
            &&& n.at == s.services.len() && only_at(s.services, ServiceKind::PhpFpm, k) ==> n.stage
                is Fpm || n.fpm is Some
        }),
    decreases s.services.len() - run.at,
{
    if run.at < s.services.len() {
        let (t, o) = visit(s, run.job, run.at);
        if o is None {
            restart_of_all_misses_no_service(t, SweepView { at: run.at + 1, ..run }, k);
        }
    } else if only_at(s.services, ServiceKind::PhpFpm, k) {
        found(s, ServiceKind::PhpFpm, k);
    }
}

/// A sweep begins at the first service.
pub proof fn sweep_begins_at_the_first(s: SupView, job: SweepJob)
    ensures
        sweep_begin(s, job) == advance(
            s,
            SweepView {
                job,
                at: 0,
                stage: SweepStageView::Finished,
                crashed: Seq::empty(),
                errors: Seq::empty(),
                fpm: None,
            },
        ),
{
}

/// What a spawn came to is recorded with the service that was spawned, and the
/// sweep goes on with the next; only a restart of everything reports it.
pub proof fn spawned_service_is_recorded(
    s: SupView,
    run: SweepView,
    generation: u64,
    result: Result<u32, Seq<char>>,
    now: u64,
)
    requires
        run.stage == (SweepStageView::Spawning { generation }),
        0 <= run.at < s.services.len(),
    ensures
        ({
            let v = s.services[run.at];
            let w = match result {
                Ok(pid) => ManagedView {
                    child: Some(pid),
                    state: ServiceStateView::Running { pid },
                    started_at: Some(now),
                    launch_generation: Some(generation),
                    ..v
                },
                Err(e) => ManagedView { state: ServiceStateView::Failed { reason: e }, ..v },
            };
            let told = match result {
                Err(e) if run.job == SweepJob::RestartAll => run.errors.push(
                    (v.kind, "start failed: "@ + e),
                ),
                _ => run.errors,
            };
            sweep_next(s, run, SupReplyView::Spawned { result, now }) == advance(
                SupView { services: s.services.update(run.at, w), ..s },
                SweepView {
                    at: run.at + 1,
                    stage: SweepStageView::Finished,
                    errors: told,
                    ..run
                },
            )
        }),
{
}

/// A service that is alive is passed over by a health check without a change.
pub proof fn living_service_is_left_alone(s: SupView, run: SweepView, now: u128)
    requires
        run.job == SweepJob::Health,
        run.stage is Probing,
        0 <= run.at < s.services.len(),
        s.services[run.at].child is Some,
    ensures
        sweep_next(
            s,
            run,
            SupReplyView::Probed { waited: WaitedView::Running, now },
        ) == advance(s, SweepView { at: run.at + 1, stage: SweepStageView::Finished, ..run }),
{
}

/// A stop that ends is followed by the spawn in a restart of everything, and by
/// the next service otherwise; one that fails is told in a stop or restart of
/// everything.
pub proof fn stopped_service_is_followed_up(
    s: SupView,
    run: SweepView,
    stop: StopStageView,
    r: StopReplyView,
)
    requires
        run.stage == (SweepStageView::Stopping { stop }),
        0 <= run.at < s.services.len(),
        s.counter < u64::MAX,
    ensures
        ({
            let v = s.services[run.at];
            let (w, after) = stop_next(v, stop, r);
            let t = SupView { services: s.services.update(run.at, w), ..s };
            let (u, n) = sweep_next(s, run, SupReplyView::Stop(r));
            let next = SweepView { at: run.at + 1, stage: SweepStageView::Finished, ..run };
            match after {
                StopStageView::Done { result: Ok(_) } => if run.job == SweepJob::RestartAll {
                    n.at == run.at && n.stage == (SweepStageView::Spawning {
                        generation: (s.counter + 1) as u64,
                    }) && u.services[run.at].child == w.child && u.services[run.at].state == w.state
                } else {
                    (u, n) == advance(t, next)
                },
                StopStageView::Done { result: Err(e) } => match run.job {
                    SweepJob::StopAll => (u, n) == advance(
                        t,
                        SweepView { errors: run.errors.push((v.kind, e)), ..next },
                    ),
                    SweepJob::RestartAll => (u, n) == advance(
                        t,
                        SweepView {
                            errors: run.errors.push((v.kind, "stop failed: "@ + e)),
                            ..next
                        },
                    ),
                    _ => (u, n) == advance(t, next),
                },
                _ => u == t && n == (SweepView {
                    stage: SweepStageView::Stopping { stop: after },
                    ..run
                }),
            }
        }),
{
}

/// PostgreSQL is shut down by `pg_ctl`, fast, waiting, for its own data.
pub proof fn postgres_is_shut_down_by_its_own_tool(datadir: Seq<char>)
    ensures
        pg_ctl_args(datadir) == seq!["stop"@, "-m"@, "fast"@, "-w"@, "-D"@, datadir],
{
}

/// What could not be stopped is told by the name of the service and the error.
pub proof fn failed_stops_are_told(errors: Seq<(ServiceKind, Seq<char>)>, i: int)
    requires
        0 <= i < errors.len(),
    ensures
        fault_lines(errors).len() == errors.len(),
        fault_lines(errors)[i] == name_of(errors[i].0) + ": "@ + errors[i].1,
{
}

/// Why FPM is barred: because Herd owns it, or because nobody knows, with what
/// is known of that.
pub proof fn bar_is_told(diag: Seq<char>)
    ensures
        blocked(OwnershipView::Owned) == Some("php-fpm is owned by Herd"@),
        blocked(OwnershipView::Unknown(diag)) == Some(
            "php-fpm ownership is unknown ("@ + diag + "); FPM activation skipped fail-closed"@,
        ),
{
}

/// A service that was started runs as the process it was given, under its
/// launch number and from that time on; a start that failed changes nothing but
/// the state, which tells why.
pub proof fn started_service_runs(
    v: ManagedView,
    pid: u32,
    generation: u64,
    now: u64,
    reason: Seq<char>,
)
    ensures
        spawned_as(v, started(v, pid, generation, now), generation, Ok(pid), now),
        spawned_as(v, failed(v, reason), generation, Err(reason), now),
        laid_down(v, stopped(v)),
{
}

} // verus!
