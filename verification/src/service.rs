//! The services that Hearth supervises, their states, and the circuit breaker
//! that keeps a crashing one from being restarted forever.

pub mod guarantees;
pub mod managed;
pub mod manager;
pub mod policy;
pub mod supervisor;
pub mod sweep;

use crate::clock;
use crate::lower;
use crate::text;
use vstd::prelude::*;

verus! {

/// Services that Hearth can supervise
#[derive(Debug, Clone, Copy, PartialEq, Eq, Hash, Structural)]
pub enum ServiceKind {
    Nginx,
    PhpFpm,
    Dnsmasq,
    Mysql,
    Redis,
    Postgresql,
    Mailpit,
    DumpServer,
    Horizon,
    Reverb,
}

/// What a service is called.
pub open spec fn name_of(k: ServiceKind) -> Seq<char> {
    match k {
        ServiceKind::Nginx => "nginx"@,
        ServiceKind::PhpFpm => "php-fpm"@,
        ServiceKind::Dnsmasq => "dnsmasq"@,
        ServiceKind::Mysql => "mysql"@,
        ServiceKind::Redis => "redis"@,
        ServiceKind::Postgresql => "postgresql"@,
        ServiceKind::Mailpit => "mailpit"@,
        ServiceKind::DumpServer => "dump-server"@,
        ServiceKind::Horizon => "horizon"@,
        ServiceKind::Reverb => "reverb"@,
    }
}

/// The service that a lower-case name or alias stands for.
pub open spec fn kind_named(s: Seq<char>) -> Option<ServiceKind> {
    if s == "nginx"@ {
        Some(ServiceKind::Nginx)
    } else if s == "php-fpm"@ || s == "phpfpm"@ || s == "php"@ {
        Some(ServiceKind::PhpFpm)
    } else if s == "dnsmasq"@ || s == "dns"@ {
        Some(ServiceKind::Dnsmasq)
    } else if s == "mysql"@ {
        Some(ServiceKind::Mysql)
    } else if s == "redis"@ {
        Some(ServiceKind::Redis)
    } else if s == "postgresql"@ || s == "postgres"@ || s == "pg"@ {
        Some(ServiceKind::Postgresql)
    } else if s == "mailpit"@ || s == "mail"@ {
        Some(ServiceKind::Mailpit)
    } else if s == "dump-server"@ || s == "dump"@ {
        Some(ServiceKind::DumpServer)
    } else if s == "horizon"@ {
        Some(ServiceKind::Horizon)
    } else if s == "reverb"@ {
        Some(ServiceKind::Reverb)
    } else {
        None
    }
}

impl ServiceKind {
    pub fn name(&self) -> (r: &'static str)
        ensures
            r@ == name_of(*self),
    {
        match self {
            ServiceKind::Nginx => "nginx",
            ServiceKind::PhpFpm => "php-fpm",
            ServiceKind::Dnsmasq => "dnsmasq",
            ServiceKind::Mysql => "mysql",
            ServiceKind::Redis => "redis",
            ServiceKind::Postgresql => "postgresql",
            ServiceKind::Mailpit => "mailpit",
            ServiceKind::DumpServer => "dump-server",
            ServiceKind::Horizon => "horizon",
            ServiceKind::Reverb => "reverb",
        }
    }

    /// True for the three DB engines supervised by `hearth db`.
    pub fn is_db(&self) -> (r: bool)
        ensures
            r == (*self == ServiceKind::Mysql || *self == ServiceKind::Postgresql || *self
                == ServiceKind::Redis),
    {
        match self {
            ServiceKind::Mysql => true,
            ServiceKind::Postgresql => true,
            ServiceKind::Redis => true,
            _ => false,
        }
    }

    /// All DB engine kinds, in canonical order (matches `hearth db status` rows).
    pub fn db_engines() -> (r: [ServiceKind; 3])
        ensures
            r@ == seq![ServiceKind::Mysql, ServiceKind::Postgresql, ServiceKind::Redis],
    {
        [ServiceKind::Mysql, ServiceKind::Postgresql, ServiceKind::Redis]
    }

    /// The service's name as owned text.
    pub fn display(&self) -> (r: String)
        ensures
            r@ == name_of(*self),
    {
        self.name().to_owned()
    }

    /// The service that a lowered name stands for; `typed` is what the user
    /// wrote.
    pub fn from_lowered(lowered: &str, typed: &str) -> (r: Result<ServiceKind, String>)
        ensures
            match r {
                Ok(k) => kind_named(lowered@) == Some(k),
                Err(e) => kind_named(lowered@) is None && e@ == "unknown service: "@ + typed@,
            },
    {
        if text::same(lowered, "nginx") {
            Ok(ServiceKind::Nginx)
        } else if text::same(lowered, "php-fpm") || text::same(lowered, "phpfpm") || text::same(
            lowered,
            "php",
        ) {
            Ok(ServiceKind::PhpFpm)
        } else if text::same(lowered, "dnsmasq") || text::same(lowered, "dns") {
            Ok(ServiceKind::Dnsmasq)
        } else if text::same(lowered, "mysql") {
            Ok(ServiceKind::Mysql)
        } else if text::same(lowered, "redis") {
            Ok(ServiceKind::Redis)
        } else if text::same(lowered, "postgresql") || text::same(lowered, "postgres")
            || text::same(lowered, "pg") {
            Ok(ServiceKind::Postgresql)
        } else if text::same(lowered, "mailpit") || text::same(lowered, "mail") {
            Ok(ServiceKind::Mailpit)
        } else if text::same(lowered, "dump-server") || text::same(lowered, "dump") {
            Ok(ServiceKind::DumpServer)
        } else if text::same(lowered, "horizon") {
            Ok(ServiceKind::Horizon)
        } else if text::same(lowered, "reverb") {
            Ok(ServiceKind::Reverb)
        } else {
            Err(text::cat2("unknown service: ", typed))
        }
    }

    /// The service that a name or alias stands for, in any case.
    pub fn parse(s: &str) -> (r: Result<ServiceKind, String>)
        ensures
            match r {
                Ok(k) => kind_named(lower::lowercase(s@)) == Some(k),
                Err(e) => kind_named(lower::lowercase(s@)) is None && e@ == "unknown service: "@
                    + s@,
            },
            vstd::utf8::is_ascii_chars(s@) ==> (r matches Ok(k) ==> kind_named(
                text::ascii_lower(s@),
            ) == Some(k)) && (r is Err ==> kind_named(text::ascii_lower(s@)) is None),
    {
        let lowered: String = lower::to_lower(s);
        ServiceKind::from_lowered(lowered.as_str(), s)
    }
}

impl std::str::FromStr for ServiceKind {
    type Err = String;

    fn from_str(s: &str) -> (r: Result<Self, String>)
        ensures
            match r {
                Ok(k) => kind_named(lower::lowercase(s@)) == Some(k),
                Err(e) => kind_named(lower::lowercase(s@)) is None && e@ == "unknown service: "@
                    + s@,
            },
    {
        ServiceKind::parse(s)
    }
}

/// A service's own name parses back to it.
pub proof fn names_round_trip(k: ServiceKind)
    ensures
        kind_named(name_of(k)) == Some(k),
{
    reveal_strlit("nginx");
    reveal_strlit("php-fpm");
    reveal_strlit("phpfpm");
    reveal_strlit("php");
    reveal_strlit("dnsmasq");
    reveal_strlit("dns");
    reveal_strlit("mysql");
    reveal_strlit("redis");
    reveal_strlit("postgresql");
    reveal_strlit("postgres");
    reveal_strlit("pg");
    reveal_strlit("mailpit");
    reveal_strlit("mail");
    reveal_strlit("dump-server");
    reveal_strlit("dump");
    reveal_strlit("horizon");
    reveal_strlit("reverb");
    let n = name_of(k);
    assert(n.len() > 0);
    assert(n[0] == "nginx"@[0] || n[0] == "php-fpm"@[0] || n[0] == "dnsmasq"@[0] || n[0]
        == "mysql"@[0] || n[0] == "redis"@[0] || n[0] == "horizon"@[0]);
}

/// Current state of a managed service
#[derive(Debug, Clone)]
pub enum ServiceState {
    Stopped,
    Starting,
    Running { pid: u32 },
    Failed { reason: String },
}

pub enum ServiceStateView {
    Stopped,
    Starting,
    Running { pid: u32 },
    Failed { reason: Seq<char> },
}

impl View for ServiceState {
    type V = ServiceStateView;

    open spec fn view(&self) -> ServiceStateView {
        match self {
            ServiceState::Stopped => ServiceStateView::Stopped,
            ServiceState::Starting => ServiceStateView::Starting,
            ServiceState::Running { pid } => ServiceStateView::Running { pid: *pid },
            ServiceState::Failed { reason } => ServiceStateView::Failed { reason: reason@ },
        }
    }
}

impl ServiceState {
    /// An owned copy.
    pub fn dup(&self) -> (r: Self)
        ensures
            r@ == self@,
    {
        match self {
            ServiceState::Stopped => ServiceState::Stopped,
            ServiceState::Starting => ServiceState::Starting,
            ServiceState::Running { pid } => ServiceState::Running { pid: *pid },
            ServiceState::Failed { reason } => ServiceState::Failed { reason: reason.clone() },
        }
    }

    pub fn is_running(&self) -> (r: bool)
        ensures
            r == (self@ is Running),
    {
        match self {
            ServiceState::Running { pid: _ } => true,
            _ => false,
        }
    }
}

/// Circuit breaker state — tracks failures to prevent restart loops.
///
/// ```text
/// ┌─────────┐  crash   ┌──────────┐  3 fails/60s  ┌────────┐
/// │ Running ├─────────►│ Restarting├──────────────►│ Failed │
/// └─────────┘          └─────┬─────┘               └───┬────┘
///                            │ success                  │ manual
///                            ▼                          │ restart
///                       ┌─────────┐                     │
///                       │ Running │◄────────────────────┘
///                       └─────────┘
/// ```
#[derive(Debug)]
pub struct CircuitBreaker {
    /// Maximum failures before tripping
    max_failures: u32,
    /// Time window for counting failures, in milliseconds
    window_ms: u64,
    /// Recent failures, in nanoseconds since the breaker was made
    failures: Vec<u128>,
    /// When the breaker was made
    origin: std::time::Instant,
}

/// What a breaker holds.
#[verifier::ext_equal]
pub struct BreakerView {
    pub max_failures: u32,
    pub window_ms: u64,
    pub failures: Seq<u128>,
}

impl View for CircuitBreaker {
    type V = BreakerView;

    closed spec fn view(&self) -> BreakerView {
        BreakerView {
            max_failures: self.max_failures,
            window_ms: self.window_ms,
            failures: self.failures@,
        }
    }
}

/// Whether a failure at `t` still counts at `now`: its age is less than the
/// window. One that lies ahead counts as just now.
pub open spec fn counts(t: u128, now: u128, window_ms: u64) -> bool {
    let age: int = if now >= t {
        now - t
    } else {
        0
    };
    age < window_ms * 1_000_000
}

/// The failures that still count at `now`.
pub open spec fn recent(failures: Seq<u128>, now: u128, window_ms: u64) -> Seq<u128>
    decreases failures.len(),
{
    if failures.len() == 0 {
        Seq::empty()
    } else {
        let before = recent(failures.drop_last(), now, window_ms);
        if counts(failures.last(), now, window_ms) {
            before.push(failures.last())
        } else {
            before
        }
    }
}

/// A breaker after a failure at `now`.
pub open spec fn failed_at(b: BreakerView, now: u128) -> BreakerView {
    BreakerView { failures: recent(b.failures, now, b.window_ms).push(now), ..b }
}

/// Whether a breaker has tripped.
pub open spec fn tripped(b: BreakerView) -> bool {
    b.failures.len() >= b.max_failures
}

/// A breaker without failures.
pub open spec fn reset_of(b: BreakerView) -> BreakerView {
    BreakerView { failures: Seq::empty(), ..b }
}

impl CircuitBreaker {
    pub fn new(max_failures: u32, window_ms: u64) -> (r: Self)
        ensures
            r@ == (BreakerView { max_failures, window_ms, failures: Seq::empty() }),
    {
        CircuitBreaker {
            max_failures,
            window_ms,
            failures: Vec::new(),
            origin: clock::instant_now(),
        }
    }

    /// The time on the breaker's own clock, in nanoseconds. Nothing is said of
    /// the reading.
    pub fn elapsed_nanos(&self) -> u128 {
        clock::nanos_since(&self.origin)
    }

    /// Record a failure at `now` on the breaker's own clock. Returns true if
    /// the circuit breaker has tripped.
    pub fn record_failure_at(&mut self, now: u128) -> (r: bool)
        ensures
            final(self)@ == failed_at(old(self)@, now),
            r == tripped(final(self)@),
    {
        let mut kept: Vec<u128> = Vec::new();
        let window: u128 = self.window_ms as u128 * 1_000_000;
        let mut i: usize = 0;
        proof {
            assert(self.failures@.take(0) =~= Seq::empty());
        }
        while i < self.failures.len()
            invariant
                i <= self.failures@.len(),
                window == self.window_ms * 1_000_000,
                self@ == old(self)@,
                kept@ == recent(self.failures@.take(i as int), now, self.window_ms),
            decreases self.failures@.len() - i,
        {
            let t: u128 = self.failures[i];
            let age: u128 = if now >= t {
                now - t
            } else {
                0
            };
            proof {
                assert(self.failures@.take(i + 1).drop_last() =~= self.failures@.take(i as int));
            }
            if age < window {
                kept.push(t);
            }
            i = i + 1;
        }
        proof {
            assert(self.failures@.take(i as int) =~= self.failures@);
        }
        kept.push(now);
        self.failures = kept;
        self.failures.len() >= self.max_failures as usize
    }

    /// Record a failure. Returns true if the circuit breaker has tripped.
    pub fn record_failure(&mut self) -> (r: bool)
        ensures
            exists|now: u128| final(self)@ == #[trigger] failed_at(old(self)@, now),
            r == tripped(final(self)@),
    {
        let now: u128 = self.elapsed_nanos();
        let r: bool = self.record_failure_at(now);
        proof {
            assert(self@ == failed_at(old(self)@, now));
        }
        r
    }

    /// Reset the circuit breaker (e.g., after manual restart).
    pub fn reset(&mut self)
        ensures
            final(self)@ == reset_of(old(self)@),
    {
        self.failures.clear();
    }
}

// ---- laws ----
/// `n` failures, one after the other, at the given times.
pub open spec fn failures_at(b: BreakerView, times: Seq<u128>) -> BreakerView
    decreases times.len(),
{
    if times.len() == 0 {
        b
    } else {
        failed_at(failures_at(b, times.drop_last()), times.last())
    }
}

/// Failures within one window all count: a breaker without failures trips at
/// exactly the `max_failures`-th of them.
pub proof fn trips_at_the_limit(b: BreakerView, times: Seq<u128>)
    requires
        b.failures.len() == 0,
        forall|i: int, j: int|
            0 <= i <= j < times.len() ==> counts(#[trigger] times[i], #[trigger] times[j], b.window_ms),
    ensures
        failures_at(b, times).failures == times,
        tripped(failures_at(b, times)) <==> times.len() >= b.max_failures,
    decreases times.len(),
{
    if times.len() == 0 {
        assert(b.failures =~= times);
    } else {
        let t = times.drop_last();
        assert forall|i: int, j: int| 0 <= i <= j < t.len() implies counts(
            #[trigger] t[i],
            #[trigger] t[j],
            b.window_ms,
        ) by {
            assert(counts(times[i], times[j], b.window_ms));
        }
        trips_at_the_limit(b, t);
        failures_keep_limits(b, t);
        let now = times.last();
        assert forall|i: int| 0 <= i < t.len() implies counts(#[trigger] t[i], now, b.window_ms) by {
            assert(counts(times[i], times[times.len() - 1], b.window_ms));
        }
        all_recent(t, now, b.window_ms);
        assert(t.push(now) =~= times);
    }
}

proof fn failures_keep_limits(b: BreakerView, times: Seq<u128>)
    ensures
        failures_at(b, times).max_failures == b.max_failures,
        failures_at(b, times).window_ms == b.window_ms,
    decreases times.len(),
{
    if times.len() > 0 {
        failures_keep_limits(b, times.drop_last());
    }
}

proof fn all_recent(failures: Seq<u128>, now: u128, window_ms: u64)
    requires
        forall|i: int| 0 <= i < failures.len() ==> counts(#[trigger] failures[i], now, window_ms),
    ensures
        recent(failures, now, window_ms) == failures,
    decreases failures.len(),
{
    if failures.len() > 0 {
        let f = failures.drop_last();
        assert forall|i: int| 0 <= i < f.len() implies counts(#[trigger] f[i], now, window_ms) by {
            assert(counts(failures[i], now, window_ms));
        }
        all_recent(f, now, window_ms);
        assert(f.push(failures.last()) =~= failures);
    } else {
        assert(recent(failures, now, window_ms) =~= failures);
    }
}

/// After a reset the first failure does not trip a breaker that allows more
/// than one.
pub proof fn reset_forgets_failures(b: BreakerView, now: u128)
    requires
        b.max_failures > 1,
    ensures
        !tripped(failed_at(reset_of(b), now)),
        reset_of(b).failures.len() == 0,
{
}

} // verus!
