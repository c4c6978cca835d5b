//! Which services there are: evidence on who owns PHP-FPM, and the default set
//! of managed services.

use crate::config::{self, AddedPackage, HearthConfig, PackageView};
use crate::fs::{self, Disk, Snapshot};
use crate::path;
use crate::php::fpm::{self, FpmConfState, StateView};
use crate::php::resolver::{self, resolve_phpfpm_binary};
use crate::php::targets::{
    discover_provider_targets, discoveries, identities, IdentityView, PhpTargetIdentity,
    ProviderRoots,
};
use crate::php::{self, hearth_channel, scan_dir_env};
use crate::service::managed::{
    fresh, FpmLaunchConf, LaunchConfView, ManagedService, ManagedView,
};
use crate::service::supervisor::{managed, FpmOwnership, OwnershipView};
use crate::service::ServiceKind;
use crate::text::{self, opt_str};
use vstd::prelude::*;

verus! {

// ---- ownership evidence ----
/// What the Herd.app process check (`pgrep`) came to.
#[derive(Debug)]
pub enum PgrepResult {
    /// It ended: with its exit code, unless a signal ended it, and with its
    /// status in words.
    Ended { code: Option<i32>, status: String },
    /// It could not be spawned, for an error of this kind.
    NotSpawned { kind: String },
}

/// What the process check says of ownership: success → Owned; documented
/// no-match exit 1 → Unowned; anything else — spawn error, death by signal (no
/// exit code), exit codes > 1 — is `Unknown` with a non-sensitive diagnostic.
pub open spec fn pgrep_verdict(result: PgrepResult) -> OwnershipView {
    match result {
        PgrepResult::Ended { code, status } => if code == Some(0i32) {
            OwnershipView::Owned
        } else if code == Some(1i32) {
            OwnershipView::Unowned
        } else {
            OwnershipView::Unknown("ownership probe (pgrep) failed with status "@ + status@)
        },
        PgrepResult::NotSpawned { kind } => OwnershipView::Unknown(
            "ownership probe (pgrep) could not be spawned: "@ + kind@,
        ),
    }
}

/// Pure classification of the pgrep evidence.
pub fn classify_pgrep_result(result: PgrepResult) -> (r: FpmOwnership)
    ensures
        r@ == pgrep_verdict(result),
{
    match result {
        PgrepResult::Ended { code, status } => match code {
            Some(0) => FpmOwnership::Owned,
            Some(1) => FpmOwnership::Unowned,
            _ => FpmOwnership::Unknown(
                text::cat2("ownership probe (pgrep) failed with status ", status.as_str()),
            ),
        },
        PgrepResult::NotSpawned { kind } => FpmOwnership::Unknown(
            text::cat2("ownership probe (pgrep) could not be spawned: ", kind.as_str()),
        ),
    }
}

/// Current Herd ownership of the web/PHP services, as TYPED evidence: a failed
/// probe is `Unknown`, never a silent "not owned". Every activation policy
/// treats `Unknown` fail-CLOSED.
///
/// Detection is the Herd.app process check, unless the isolated runtime's
/// deterministic answer is given.
pub fn current_fpm_ownership(isolated: Option<FpmOwnership>, pgrep: PgrepResult) -> (r: FpmOwnership)
    ensures
        r@ == match isolated {
            Some(state) => state@,
            None => pgrep_verdict(pgrep),
        },
{
    match isolated {
        Some(state) => state,
        None => classify_pgrep_result(pgrep),
    }
}

/// Boolean convenience for paths that only need "is Herd PROVEN live":
/// `Owned` → true; `Unowned`/`Unknown` → false. Activation decisions must NOT
/// use this — they consume the typed evidence and fail closed on `Unknown`.
pub fn is_herd_running(ownership: &FpmOwnership) -> (r: bool)
    ensures
        r == (ownership@ is Owned),
{
    match ownership {
        FpmOwnership::Owned => true,
        _ => false,
    }
}

/// What the isolated runtime says of Herd ownership.
#[derive(Debug)]
pub enum OwnershipOverride {
    /// Nothing: the process check decides.
    Ignored,
    Decided(FpmOwnership),
    /// The content of this flag file decides.
    ReadFlag(String),
}

pub const FLAG_PREFIX: &'static str = "file:";

/// `HEARTH_HERD_OWNERSHIP=1|0|file:<path>` — deterministic Herd-ownership
/// answer for the isolated smoke daemon. Ignored unless the process runs in
/// the typed isolated runtime; unparseable values are ignored, never guessed.
/// The `file:` form reads the flag file's CURRENT content on every probe.
pub fn isolated_herd_ownership_override(isolated: bool, value: Option<&str>) -> (r:
    OwnershipOverride)
    ensures
        match (opt_str(value), r) {
            (Some(v), OwnershipOverride::Decided(o)) => isolated && ((v == "1"@ && o@ is Owned) || (
            v == "0"@ && o@ is Unowned)),
            (Some(v), OwnershipOverride::ReadFlag(p)) => isolated && v != "1"@ && v != "0"@ && v
                == FLAG_PREFIX@ + p@,
            (None, OwnershipOverride::Ignored) => true,
            (Some(v), OwnershipOverride::Ignored) => !isolated || (v != "1"@ && v != "0"@
                && !FLAG_PREFIX@.is_prefix_of(v)),
            _ => false,
        },
{
    proof {
        reveal_strlit("1");
        reveal_strlit("0");
        reveal_strlit("file:");
    }
    if !isolated {
        return OwnershipOverride::Ignored;
    }
    match value {
        None => OwnershipOverride::Ignored,
        Some(v) => {
            if text::same(v, "1") {
                assert("1"@[0] != "0"@[0]);
                return OwnershipOverride::Decided(FpmOwnership::Owned);
            }
            if text::same(v, "0") {
                return OwnershipOverride::Decided(FpmOwnership::Unowned);
            }
            if text::starts_with(v, FLAG_PREFIX) {
                let n: usize = v.unicode_len();
                let p: String = v.substring_char(5, n).to_owned();
                proof {
                    assert(v@ =~= FLAG_PREFIX@ + p@);
                }
                return OwnershipOverride::ReadFlag(p);
            }
            OwnershipOverride::Ignored
        },
    }
}

/// Pure classification of the isolated flag-file evidence: the EXACT single
/// byte `1` → Owned, the exact single byte `0` → Unowned — no trimming, ever.
/// Any newline, surrounding or internal whitespace, BOM, extra bytes, empty
/// file, invalid UTF-8, or read failure (missing/unreadable/racing) is
/// `Unknown` (fail-closed) with a non-sensitive diagnostic. Malformed evidence
/// must never become authoritative.
pub fn classify_flag_read(result: Result<Vec<u8>, String>) -> (r: FpmOwnership)
    ensures
        r@ == match result {
            Ok(bytes) => if bytes@ == seq![0x31u8] {
                OwnershipView::Owned
            } else if bytes@ == seq![0x30u8] {
                OwnershipView::Unowned
            } else {
                OwnershipView::Unknown(
                    "isolated ownership flag content is not exactly `1` or `0`"@,
                )
            },
            Err(kind) => OwnershipView::Unknown(
                "isolated ownership flag unreadable: "@ + kind@,
            ),
        },
{
    match result {
        Ok(bytes) => {
            if bytes.len() == 1 && bytes[0] == 0x31 {
                assert(bytes@ =~= seq![0x31u8]);
                FpmOwnership::Owned
            } else if bytes.len() == 1 && bytes[0] == 0x30 {
                assert(bytes@ =~= seq![0x30u8]);
                assert(bytes@[0] != 0x31u8);
                FpmOwnership::Unowned
            } else {
                assert(bytes@ != seq![0x31u8]) by {
                    if bytes@ == seq![0x31u8] {
                        assert(bytes@.len() == 1 && bytes@[0] == 0x31u8);
                    }
                }
                assert(bytes@ != seq![0x30u8]) by {
                    if bytes@ == seq![0x30u8] {
                        assert(bytes@.len() == 1 && bytes@[0] == 0x30u8);
                    }
                }
                FpmOwnership::Unknown(
                    "isolated ownership flag content is not exactly `1` or `0`".to_owned(),
                )
            }
        },
        Err(kind) => FpmOwnership::Unknown(
            text::cat2("isolated ownership flag unreadable: ", kind.as_str()),
        ),
    }
}

// ---- packages ----
/// Where a package is installed, below `vendor`.
pub open spec fn vendor_path(package: Seq<char>) -> Seq<char> {
    "laravel/"@ + package
}

/// Map a package key to its vendor-relative path (e.g. `"horizon"` →
/// `"laravel/horizon"`).
pub fn vendor_path_for(package: &str) -> (r: String)
    ensures
        r@ == vendor_path(package@),
{
    text::cat2("laravel/", package)
}

/// Whether a package is still installed in its site.
pub open spec fn installed(p: PackageView, d: Disk) -> bool {
    fs::facts(
        d,
        path::joined(path::joined(p.site_path, "vendor"@), vendor_path(p.package)),
    ).exists
}

fn is_installed(p: &AddedPackage, disk: &Snapshot) -> (r: bool)
    requires
        disk.wf(),
    ensures
        r == installed(p@, disk@),
{
    let vendor: String = path::join(p.site_path.as_str(), "vendor");
    let own: String = vendor_path_for(p.package.as_str());
    disk.at(path::join(vendor.as_str(), own.as_str()).as_str()).exists
}

/// Filter `added_packages` to only entries whose
/// `<site_path>/vendor/<vendor>/<pkg>` still exists on disk. Returns the kept
/// entries and the dropped entries so the caller can persist the cleaned
/// config + log warnings.
///
/// Without this, a user who `composer remove laravel/horizon` would be stuck
/// with the supervisor hammering a broken worker until the circuit breaker
/// trips.
pub fn prune_added_packages(list: &[AddedPackage], disk: &Snapshot) -> (r: (
    Vec<AddedPackage>,
    Vec<AddedPackage>,
))
    requires
        disk.wf(),
    ensures
        config::packages(r.0@) == config::packages(list@).filter(
            |p: PackageView| installed(p, disk@),
        ),
        config::packages(r.1@) == config::packages(list@).filter(
            |p: PackageView| !installed(p, disk@),
        ),
{
    let mut kept: Vec<AddedPackage> = Vec::new();
    let mut dropped: Vec<AddedPackage> = Vec::new();
    let ghost all = config::packages(list@);
    let ghost yes = |p: PackageView| installed(p, disk@);
    let ghost no = |p: PackageView| !installed(p, disk@);
    let mut i: usize = 0;
    proof {
        reveal(Seq::filter);
        assert(all.take(0) =~= Seq::empty());
        assert(config::packages(kept@) =~= all.take(0).filter(yes));
        assert(config::packages(dropped@) =~= all.take(0).filter(no));
    }
    while i < list.len()
        invariant
            i <= list.len(),
            disk.wf(),
            all == config::packages(list@),
            yes == (|p: PackageView| installed(p, disk@)),
            no == (|p: PackageView| !installed(p, disk@)),
            config::packages(kept@) == all.take(i as int).filter(yes),
            config::packages(dropped@) == all.take(i as int).filter(no),
        decreases list.len() - i,
    {
        let p: &AddedPackage = &list[i];
        let copy: AddedPackage = p.dup();
        let ghost k0 = kept@;
        let ghost d0 = dropped@;
        if is_installed(p, disk) {
            kept.push(copy);
        } else {
            dropped.push(copy);
        }
        proof {
            reveal(Seq::filter);
            let t = all.take(i + 1);
            assert(t.drop_last() =~= all.take(i as int));
            assert(t.last() == copy@);
            if yes(copy@) {
                assert(config::packages(kept@) =~= config::packages(k0).push(copy@));
            } else {
                assert(config::packages(dropped@) =~= config::packages(d0).push(copy@));
            }
        }
        i = i + 1;
    }
    proof {
        assert(all.take(i as int) =~= all);
    }
    (kept, dropped)
}

// ---- construction ----
pub open spec fn scan_env(config_dir: Seq<char>, version: Seq<char>) -> Seq<
    (Seq<char>, Seq<char>),
> {
    seq![(php::SCAN_DIR_VAR@, ":"@ + hearth_channel(config_dir, version))]
}

fn scan_env_of(config_dir: &str, version: &str) -> (r: Vec<(String, String)>)
    ensures
        text::text_pairs(r@) == scan_env(config_dir@, version@),
{
    let mut env: Vec<(String, String)> = Vec::new();
    env.push(scan_dir_env(config_dir, version));
    proof {
        assert(text::text_pairs(env@) =~= scan_env(config_dir@, version@));
    }
    env
}

/// What is recorded of the configuration that FPM is launched with; nothing
/// where its state vouches for none.
pub open spec fn launch_conf(state: StateView) -> Option<LaunchConfView> {
    match state {
        StateView::HearthOwned { conf, conf_sha256, probe_sha256, listen } => Some(
            LaunchConfView::HearthOwned { conf, conf_sha256, probe_sha256, listen },
        ),
        StateView::UserManaged { conf } => Some(LaunchConfView::UserManaged { conf }),
        StateView::Blocked { reason } => None,
    }
}

pub const MISSING_CONF: &'static str = "launch-blocked: missing fpm config — see todo #2343";

/// Hearth's own FPM service for a version, or why there is none.
pub open spec fn fpm_service(
    version: Seq<char>,
    config_dir: Seq<char>,
    home: Option<Seq<char>>,
    state: StateView,
    d: Disk,
) -> Result<ManagedView, Seq<char>> {
    let at = fpm::conf_of(config_dir);
    let there = fs::facts(d, at).target;
    match resolver::resolved_fpm(version, config_dir, home, d) {
        None => Err(
            "php-fpm binary for "@ + version + " not found — skipping registration"@,
        ),
        Some(binary) => if !(there is Ok && there->Ok_0.is_file) {
            Err(MISSING_CONF@)
        } else {
            Ok(
                ManagedView {
                    env: scan_env(config_dir, version),
                    fpm_launch: launch_conf(state),
                    ..fresh(
                        ServiceKind::PhpFpm,
                        binary,
                        seq!["--nodaemonize"@, "--fpm-config="@ + at],
                    )
                },
            )
        },
    }
}

pub open spec fn service_view(r: Result<ManagedService, String>) -> Result<ManagedView, Seq<char>> {
    match r {
        Ok(s) => Ok(s@),
        Err(e) => Err(e@),
    }
}

fn launch_conf_of(state: &FpmConfState) -> (r: Option<FpmLaunchConf>)
    ensures
        match (r, launch_conf(state@)) {
            (Some(c), Some(v)) => c@ == v,
            (None, None) => true,
            _ => false,
        },
{
    match state {
        FpmConfState::HearthOwned { conf, conf_sha256, probe_sha256, listen } => Some(
            FpmLaunchConf::HearthOwned {
                conf: conf.clone(),
                conf_sha256: conf_sha256.clone(),
                probe_sha256: probe_sha256.clone(),
                listen: listen.clone(),
            },
        ),
        FpmConfState::UserManaged { conf } => Some(
            FpmLaunchConf::UserManaged { conf: conf.clone() },
        ),
        FpmConfState::Blocked { reason: _ } => None,
    }
}

/// Build Hearth's own supervised php-fpm service for one PHP version, or a
/// truthful skip reason. Registration requires BOTH a resolvable binary and a
/// generated fpm config; a missing config is launch-blocked and must never
/// surface as a supervisor start failure. Takes the version directly so
/// version-switch paths build the NEW version's service — binary, args, AND
/// scan-dir env — from scratch.
pub fn hearth_fpm_service(
    version: &str,
    config_dir: &str,
    home: Option<&str>,
    state: &FpmConfState,
    disk: &Snapshot,
) -> (r: Result<ManagedService, String>)
    requires
        disk.wf(),
    ensures
        service_view(r) == fpm_service(version@, config_dir@, opt_str(home), state@, disk@),
{
    let binary: String = match resolve_phpfpm_binary(version, config_dir, home, disk) {
        None => {
            return Err(
                text::cat3(
                    "php-fpm binary for ",
                    version,
                    " not found — skipping registration",
                ),
            );
        },
        Some(b) => b,
    };
    let at: String = fpm::conf_path(config_dir);
    let is_file: bool = match &disk.at(at.as_str()).target {
        Ok(m) => m.is_file,
        Err(_) => false,
    };
    if !is_file {
        return Err(MISSING_CONF.to_owned());
    }
    let mut args: Vec<String> = Vec::new();
    args.push("--nodaemonize".to_owned());
    args.push(text::cat2("--fpm-config=", at.as_str()));
    proof {
        assert(text::texts(args@) =~= seq!["--nodaemonize"@, "--fpm-config="@ + at@]);
    }
    let service: ManagedService = ManagedService::new(ServiceKind::PhpFpm, binary, args).with_env(
        scan_env_of(config_dir, version),
    );
    match launch_conf_of(state) {
        None => Ok(service),
        Some(conf) => Ok(service.with_fpm_launch_conf(conf)),
    }
}

/// The version of the first target, from `i` on, whose binary is this one.
pub open spec fn version_of(ids: Seq<IdentityView>, binary: Seq<char>, i: int) -> Option<Seq<char>>
    decreases ids.len() - i,
{
    if i < 0 || i >= ids.len() {
        None
    } else if path::key(ids[i].binary) == path::key(binary) {
        Some(ids[i].version)
    } else {
        version_of(ids, binary, i + 1)
    }
}

pub open spec fn inferred(
    command: Seq<char>,
    hearth: Seq<char>,
    herd: Seq<char>,
    homebrew: Seq<char>,
    d: Disk,
) -> Option<Seq<char>> {
    match fs::facts(d, command).canonical {
        Ok(c) => version_of(discoveries(30, hearth, herd, homebrew, d), c, 0),
        Err(_) => None,
    }
}

/// Infer a legacy worker's PHP version from its stored command path — only an
/// exact canonical-binary match counts.
pub fn infer_worker_version(command: &str, roots: &ProviderRoots, disk: &Snapshot) -> (r: Option<
    String,
>)
    requires
        disk.wf(),
    ensures
        text::opt_text(r) == inferred(
            command@,
            roots@.hearth,
            roots@.herd,
            roots@.homebrew,
            disk@,
        ),
{
    match &disk.at(command).canonical {
        Err(_) => None,
        Ok(canonical) => {
            let ids: Vec<PhpTargetIdentity> = discover_provider_targets(roots, disk);
            let mut i: usize = 0;
            while i < ids.len()
                invariant
                    i <= ids.len(),
                    inferred(command@, roots@.hearth, roots@.herd, roots@.homebrew, disk@)
                        == version_of(identities(ids@), canonical@, 0),
                    version_of(identities(ids@), canonical@, 0) == version_of(
                        identities(ids@),
                        canonical@,
                        i as int,
                    ),
                decreases ids.len() - i,
            {
                assert(identities(ids@)[i as int] == ids@[i as int]@);
                if path::same_path(ids[i].binary.as_str(), canonical.as_str()) {
                    return Some(ids[i].version.clone());
                }
                i = i + 1;
            }
            None
        },
    }
}

/// A supervised worker of a package.
pub open spec fn worker(
    kind: ServiceKind,
    p: PackageView,
    config_dir: Seq<char>,
    hearth: Seq<char>,
    herd: Seq<char>,
    homebrew: Seq<char>,
    d: Disk,
) -> ManagedView {
    let base = ManagedView {
        cwd: Some(p.site_path),
        site_name: Some(p.site_name),
        ..fresh(kind, p.command, p.args)
    };
    let version = match p.php_version {
        Some(v) => Some(v),
        None => inferred(p.command, hearth, herd, homebrew, d),
    };
    match version {
        Some(v) => ManagedView { env: scan_env(config_dir, v), ..base },
        None => base,
    }
}

/// Supervised worker with scan-dir env when its PHP version is known. Used by
/// BOTH worker registration sites (boot rehydration and add-time
/// registration). Legacy entries without a version get one inferred ONLY when
/// the stored command equals a discovered target's canonical binary; otherwise
/// the worker spawns env-unguaranteed (never a wrong env credit).
pub fn worker_service(
    kind: ServiceKind,
    pkg: &AddedPackage,
    config_dir: &str,
    roots: &ProviderRoots,
    disk: &Snapshot,
) -> (r: ManagedService)
    requires
        disk.wf(),
    ensures
        r@ == worker(
            kind,
            pkg@,
            config_dir@,
            roots@.hearth,
            roots@.herd,
            roots@.homebrew,
            disk@,
        ),
{
    let svc = ManagedService::with_cwd_and_site(
        kind,
        pkg.command.clone(),
        text::dup_texts(&pkg.args),
        pkg.site_path.clone(),
        pkg.site_name.as_str(),
    );
    let version: Option<String> = match &pkg.php_version {
        Some(v) => Some(v.clone()),
        None => infer_worker_version(pkg.command.as_str(), roots, disk),
    };
    match version {
        Some(v) => svc.with_env(scan_env_of(config_dir, v.as_str())),
        None => svc,
    }
}

// ---- the default set ----
/// A database engine that was found on this machine.
#[derive(Debug)]
pub struct DbOffer {
    /// Something else owns the configured port (other tools' services panels,
    /// Homebrew services, etc.).
    pub port_in_use: bool,
    /// The service that would run it, or why there is none.
    pub service: Result<ManagedService, String>,
}

/// What the default set is decided by, beside the configuration.
#[derive(Debug)]
pub struct Surroundings {
    pub ownership: FpmOwnership,
    pub home: Option<String>,
    pub fpm_conf: FpmConfState,
    /// The Mailpit binary, if it was found.
    pub mailpit: Option<String>,
    pub postgres: Option<DbOffer>,
    pub mysql: Option<DbOffer>,
    pub redis: Option<DbOffer>,
}

/// The services of an engine: one, if it was found, its port is free and it
/// can be built.
pub open spec fn offered(o: Option<DbOffer>) -> Seq<ManagedView> {
    match o {
        Some(offer) => if !offer.port_in_use {
            match offer.service {
                Ok(s) => seq![s@],
                Err(_) => Seq::empty(),
            }
        } else {
            Seq::empty()
        },
        None => Seq::empty(),
    }
}

/// The service kind that a package is supervised as; the others are
/// install-only.
pub open spec fn worker_kind(package: Seq<char>) -> Option<ServiceKind> {
    if package == "horizon"@ {
        Some(ServiceKind::Horizon)
    } else if package == "reverb"@ {
        Some(ServiceKind::Reverb)
    } else {
        None
    }
}

fn worker_kind_of(package: &str) -> (r: Option<ServiceKind>)
    ensures
        r == worker_kind(package@),
{
    if text::same(package, "horizon") {
        Some(ServiceKind::Horizon)
    } else if text::same(package, "reverb") {
        Some(ServiceKind::Reverb)
    } else {
        None
    }
}

/// The workers of the first `n` packages.
pub open spec fn workers(
    list: Seq<PackageView>,
    n: int,
    config_dir: Seq<char>,
    hearth: Seq<char>,
    herd: Seq<char>,
    homebrew: Seq<char>,
    d: Disk,
) -> Seq<ManagedView>
    decreases n,
{
    if n <= 0 {
        Seq::empty()
    } else {
        let before = workers(list, n - 1, config_dir, hearth, herd, homebrew, d);
        match worker_kind(list[n - 1].package) {
            Some(kind) => before.push(
                worker(kind, list[n - 1], config_dir, hearth, herd, homebrew, d),
            ),
            None => before,
        }
    }
}

pub open spec fn nginx_service(config_dir: Seq<char>) -> ManagedView {
    fresh(
        ServiceKind::Nginx,
        "nginx"@,
        seq!["-c"@, path::joined(config_dir, "nginx/nginx.conf"@), "-g"@, "daemon off;"@],
    )
}

pub open spec fn dnsmasq_service(config_dir: Seq<char>, port: u16) -> ManagedView {
    fresh(
        ServiceKind::Dnsmasq,
        "dnsmasq"@,
        seq![
            "--keep-in-foreground"@,
            "--port="@ + text::decimal(port as nat),
            "--conf-file="@ + path::joined(config_dir, "dnsmasq/dnsmasq.conf"@),
        ],
    )
}

pub open spec fn mailpit_service(
    binary: Seq<char>,
    config_dir: Seq<char>,
    smtp: u16,
    ui: u16,
) -> ManagedView {
    fresh(
        ServiceKind::Mailpit,
        binary,
        seq![
            "--smtp"@,
            "127.0.0.1:"@ + text::decimal(smtp as nat),
            "--listen"@,
            "127.0.0.1:"@ + text::decimal(ui as nat),
            "--db-file"@,
            path::joined(config_dir, "services/mailpit/mailpit.db"@),
        ],
    )
}

/// The web services: only while nobody else is known to own them, and FPM only
/// where PHP may be launched and can be.
pub open spec fn web_services(
    c: HearthConfig,
    config_dir: Seq<char>,
    php: bool,
    s: Surroundings,
    d: Disk,
) -> Seq<ManagedView> {
    if s.ownership@ is Unowned {
        let pair = seq![nginx_service(config_dir), dnsmasq_service(config_dir, c.dns_port)];
        match fpm_service(
            c.default_php@,
            config_dir,
            text::opt_text(s.home),
            s.fpm_conf@,
            d,
        ) {
            Ok(svc) if php => pair.push(svc),
            _ => pair,
        }
    } else {
        Seq::empty()
    }
}

pub open spec fn mail_services(c: HearthConfig, config_dir: Seq<char>, s: Surroundings) -> Seq<
    ManagedView,
> {
    match s.mailpit {
        Some(binary) => seq![
            mailpit_service(binary@, config_dir, c.mail_smtp_port, c.mail_ui_port),
        ],
        None => Seq::empty(),
    }
}

/// The default set of managed services.
pub open spec fn default_set(
    c: HearthConfig,
    config_dir: Seq<char>,
    php: bool,
    hearth: Seq<char>,
    herd: Seq<char>,
    homebrew: Seq<char>,
    s: Surroundings,
    d: Disk,
) -> Seq<ManagedView> {
    web_services(c, config_dir, php, s, d) + mail_services(c, config_dir, s) + offered(s.postgres)
        + offered(s.mysql) + offered(s.redis) + if php {
        workers(
            config::packages(c.added_packages@),
            c.added_packages@.len() as int,
            config_dir,
            hearth,
            herd,
            homebrew,
            d,
        )
    } else {
        Seq::empty()
    }
}

fn pushed(services: &mut Vec<ManagedService>, svc: ManagedService)
    ensures
        managed(final(services)@) == managed(old(services)@).push(svc@),
{
    services.push(svc);
    proof {
        assert(managed(services@) =~= managed(old(services)@).push(svc@));
    }
}

fn nginx(config_dir: &str) -> (r: ManagedService)
    ensures
        r@ == nginx_service(config_dir@),
{
    let mut args: Vec<String> = Vec::new();
    args.push("-c".to_owned());
    args.push(path::join(config_dir, "nginx/nginx.conf"));
    args.push("-g".to_owned());
    args.push("daemon off;".to_owned());
    proof {
        assert(text::texts(args@) =~= nginx_service(config_dir@).args);
    }
    ManagedService::new(ServiceKind::Nginx, "nginx".to_owned(), args)
}

fn dnsmasq(config_dir: &str, port: u16) -> (r: ManagedService)
    ensures
        r@ == dnsmasq_service(config_dir@, port),
{
    let mut args: Vec<String> = Vec::new();
    args.push("--keep-in-foreground".to_owned());
    args.push(text::cat2("--port=", text::decimal_string(port as u64).as_str()));
    args.push(
        text::cat2("--conf-file=", path::join(config_dir, "dnsmasq/dnsmasq.conf").as_str()),
    );
    proof {
        assert(text::texts(args@) =~= dnsmasq_service(config_dir@, port).args);
    }
    ManagedService::new(ServiceKind::Dnsmasq, "dnsmasq".to_owned(), args)
}

fn mailpit(binary: String, config_dir: &str, smtp: u16, ui: u16) -> (r: ManagedService)
    ensures
        r@ == mailpit_service(binary@, config_dir@, smtp, ui),
{
    let mut args: Vec<String> = Vec::new();
    args.push("--smtp".to_owned());
    args.push(text::cat2("127.0.0.1:", text::decimal_string(smtp as u64).as_str()));
    args.push("--listen".to_owned());
    args.push(text::cat2("127.0.0.1:", text::decimal_string(ui as u64).as_str()));
    args.push("--db-file".to_owned());
    args.push(path::join(config_dir, "services/mailpit/mailpit.db"));
    proof {
        assert(text::texts(args@) =~= mailpit_service(binary@, config_dir@, smtp, ui).args);
    }
    ManagedService::new(ServiceKind::Mailpit, binary, args)
}

fn push_offer(services: &mut Vec<ManagedService>, offer: Option<DbOffer>)
    ensures
        managed(final(services)@) == managed(old(services)@) + offered(offer),
{
    match offer {
        Some(o) => {
            if !o.port_in_use {
                match o.service {
                    Ok(s) => {
                        pushed(services, s);
                        proof {
                            assert(managed(services@) =~= managed(old(services)@) + seq![s@]);
                        }
                        return;
                    },
                    Err(_) => {},
                }
            }
        },
        None => {},
    }
    proof {
        assert(managed(services@) =~= managed(old(services)@) + Seq::<ManagedView>::empty());
    }
}

fn push_workers(
    services: &mut Vec<ManagedService>,
    list: &Vec<AddedPackage>,
    config_dir: &str,
    roots: &ProviderRoots,
    disk: &Snapshot,
)
    requires
        disk.wf(),
    ensures
        managed(final(services)@) == managed(old(services)@) + workers(
            config::packages(list@),
            list@.len() as int,
            config_dir@,
            roots@.hearth,
            roots@.herd,
            roots@.homebrew,
            disk@,
        ),
{
    let mut i: usize = 0;
    proof {
        assert(managed(services@) =~= managed(old(services)@) + Seq::<ManagedView>::empty());
    }
    while i < list.len()
        invariant
            i <= list.len(),
            disk.wf(),
            managed(services@) == managed(old(services)@) + workers(
                config::packages(list@),
                i as int,
                config_dir@,
                roots@.hearth,
                roots@.herd,
                roots@.homebrew,
                disk@,
            ),
        decreases list.len() - i,
    {
        let ghost before = managed(services@);
        let p: &AddedPackage = &list[i];
        assert(config::packages(list@)[i as int] == p@);
        match worker_kind_of(p.package.as_str()) {
            Some(kind) => {
                let svc = worker_service(kind, p, config_dir, roots, disk);
                pushed(services, svc);
                proof {
                    let w = workers(
                        config::packages(list@),
                        i as int,
                        config_dir@,
                        roots@.hearth,
                        roots@.herd,
                        roots@.homebrew,
                        disk@,
                    );
                    assert(managed(services@) =~= managed(old(services)@) + w.push(svc@));
                }
            },
            None => {},
        }
        i = i + 1;
    }
}

/// Build the default set of managed services based on configuration.
///
/// When Herd is detected, nginx/php-fpm/dnsmasq are skipped — Herd manages
/// those; unknown evidence never registers the Herd-conflicting trio either.
/// The dump server and MCP server are tasks, not supervised processes.
///
/// `php_launches_enabled = false` (daemon boot after a HARD php-config
/// reconciliation failure) skips every PHP process registration — FPM and
/// Horizon/Reverb workers — so no PHP launches with unreconciled channel
/// state; non-PHP services and status access stay available.
///
/// `roots` is the caller's already-validated snapshot. This function performs
/// NO root detection of its own — a root-construction failure must propagate
/// at the entrypoint before any PHP/FPM/worker registration.
pub fn default_services(
    c: &HearthConfig,
    config_dir: &str,
    php_launches_enabled: bool,
    roots: &ProviderRoots,
    around: Surroundings,
    disk: &Snapshot,
) -> (r: Vec<ManagedService>)
    requires
        disk.wf(),
    ensures
        managed(r@) == default_set(
            *c,
            config_dir@,
            php_launches_enabled,
            roots@.hearth,
            roots@.herd,
            roots@.homebrew,
            around,
            disk@,
        ),
{
    let mut services: Vec<ManagedService> = Vec::new();
    let ghost web = web_services(*c, config_dir@, php_launches_enabled, around, disk@);
    let ghost mail = mail_services(*c, config_dir@, around);
    let Surroundings { ownership, home, fpm_conf, mailpit: mail_binary, postgres, mysql, redis } =
        around;
    match ownership {
        FpmOwnership::Unowned => {
            pushed(&mut services, nginx(config_dir));
            pushed(&mut services, dnsmasq(config_dir, c.dns_port));
            let home_dir: Option<&str> = match &home {
                Some(h) => Some(h.as_str()),
                None => None,
            };
            proof {
                assert(managed(services@) =~= seq![
                    nginx_service(config_dir@),
                    dnsmasq_service(config_dir@, c.dns_port),
                ]);
                assert(opt_str(home_dir) == text::opt_text(home));
            }
            if php_launches_enabled {
                match hearth_fpm_service(
                    c.default_php.as_str(),
                    config_dir,
                    home_dir,
                    &fpm_conf,
                    disk,
                ) {
                    Ok(svc) => {
                        pushed(&mut services, svc);
                    },
                    Err(_) => {},
                }
            }
        },
        _ => {},
    }
    proof {
        assert(managed(services@) =~= web);
    }
    match mail_binary {
        Some(binary) => {
            pushed(
                &mut services,
                mailpit(binary, config_dir, c.mail_smtp_port, c.mail_ui_port),
            );
        },
        None => {},
    }
    proof {
        assert(managed(services@) =~= web + mail);
    }
    push_offer(&mut services, postgres);
    push_offer(&mut services, mysql);
    push_offer(&mut services, redis);
    if php_launches_enabled {
        push_workers(&mut services, &c.added_packages, config_dir, roots, disk);
    }
    proof {
        if !php_launches_enabled {
            assert(managed(services@) =~= managed(services@) + Seq::<ManagedView>::empty());
        }
    }
    services
}

// ---- laws ----
/// No service of a kind is among these.
pub open spec fn none_of(s: Seq<ManagedView>, kind: ServiceKind) -> bool {
    forall|i: int| 0 <= i < s.len() ==> (#[trigger] s[i]).kind != kind
}

/// The engines offered are database engines.
pub open spec fn engines_only(s: Surroundings) -> bool {
    forall|kind: ServiceKind|
        kind != ServiceKind::Postgresql && kind != ServiceKind::Mysql && kind != ServiceKind::Redis
            ==> #[trigger] none_of(offered(s.postgres), kind) && none_of(offered(s.mysql), kind)
            && none_of(offered(s.redis), kind)
}

proof fn workers_are_workers(
    list: Seq<PackageView>,
    n: int,
    config_dir: Seq<char>,
    hearth: Seq<char>,
    herd: Seq<char>,
    homebrew: Seq<char>,
    d: Disk,
    kind: ServiceKind,
)
    requires
        kind != ServiceKind::Horizon,
        kind != ServiceKind::Reverb,
    ensures
        none_of(workers(list, n, config_dir, hearth, herd, homebrew, d), kind),
    decreases n,
{
    if n > 0 {
        workers_are_workers(list, n - 1, config_dir, hearth, herd, homebrew, d, kind);
    }
}

/// While Herd owns the web services, or while ownership is unknown, none of
/// nginx, dnsmasq and php-fpm is registered.
pub proof fn foreign_trio_is_not_registered(
    c: HearthConfig,
    config_dir: Seq<char>,
    php: bool,
    hearth: Seq<char>,
    herd: Seq<char>,
    homebrew: Seq<char>,
    s: Surroundings,
    d: Disk,
    kind: ServiceKind,
)
    requires
        !(s.ownership@ is Unowned),
        engines_only(s),
        kind == ServiceKind::Nginx || kind == ServiceKind::Dnsmasq || kind == ServiceKind::PhpFpm,
    ensures
        none_of(default_set(c, config_dir, php, hearth, herd, homebrew, s, d), kind),
{
    assert(none_of(offered(s.postgres), kind));
    workers_are_workers(
        config::packages(c.added_packages@),
        c.added_packages@.len() as int,
        config_dir,
        hearth,
        herd,
        homebrew,
        d,
        kind,
    );
}

/// With PHP launches disabled no PHP process is registered, neither FPM nor a
/// worker, and the other services are registered as ever.
pub proof fn disabled_php_is_not_registered(
    c: HearthConfig,
    config_dir: Seq<char>,
    hearth: Seq<char>,
    herd: Seq<char>,
    homebrew: Seq<char>,
    s: Surroundings,
    d: Disk,
    kind: ServiceKind,
)
    requires
        engines_only(s),
        kind == ServiceKind::PhpFpm || kind == ServiceKind::Horizon || kind == ServiceKind::Reverb,
    ensures
        none_of(default_set(c, config_dir, false, hearth, herd, homebrew, s, d), kind),
        forall|i: int|
            0 <= i < mail_services(c, config_dir, s).len() ==> default_set(
                c,
                config_dir,
                false,
                hearth,
                herd,
                homebrew,
                s,
                d,
            ).contains(#[trigger] mail_services(c, config_dir, s)[i]),
{
    assert(none_of(offered(s.postgres), kind));
    let set = default_set(c, config_dir, false, hearth, herd, homebrew, s, d);
    let web = web_services(c, config_dir, false, s, d);
    let mail = mail_services(c, config_dir, s);
    assert forall|i: int| 0 <= i < mail.len() implies set.contains(#[trigger] mail[i]) by {
        assert(set[web.len() + i] == mail[i]);
    }
}

/// A worker gets the scan-dir environment of a version only where that version
/// is recorded, or where its command is the canonical binary of a discovered
/// target; otherwise it gets none.
pub proof fn worker_env_is_never_guessed(
    kind: ServiceKind,
    p: PackageView,
    config_dir: Seq<char>,
    hearth: Seq<char>,
    herd: Seq<char>,
    homebrew: Seq<char>,
    d: Disk,
)
    ensures
        ({
            let w = worker(kind, p, config_dir, hearth, herd, homebrew, d);
            let ids = discoveries(30, hearth, herd, homebrew, d);
            w.env.len() == 0 || (p.php_version is Some && w.env == scan_env(
                config_dir,
                p.php_version->0,
            )) || (exists|i: int|
                0 <= i < ids.len() && fs::facts(d, p.command).canonical is Ok && path::key(
                    (#[trigger] ids[i]).binary,
                ) == path::key(fs::facts(d, p.command).canonical->Ok_0) && w.env == scan_env(
                    config_dir,
                    ids[i].version,
                ))
        }),
{
    if p.php_version is None && fs::facts(d, p.command).canonical is Ok {
        version_comes_from_a_target(
            discoveries(30, hearth, herd, homebrew, d),
            fs::facts(d, p.command).canonical->Ok_0,
            0,
        );
    }
}

proof fn version_comes_from_a_target(ids: Seq<IdentityView>, binary: Seq<char>, i: int)
    requires
        0 <= i,
    ensures
        match version_of(ids, binary, i) {
            Some(v) => exists|j: int|
                0 <= j < ids.len() && path::key((#[trigger] ids[j]).binary) == path::key(binary)
                    && ids[j].version == v,
            None => true,
        },
    decreases ids.len() - i,
{
    if i < ids.len() && path::key(ids[i].binary) != path::key(binary) {
        version_comes_from_a_target(ids, binary, i + 1);
    }
}

} // verus!
