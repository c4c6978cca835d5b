//! Provider-explicit PHP target discovery, scan-dir parsing, and
//! write-channel classification.
//!
//! Identity is `(provider, version, sapi, canonical_binary)` — a same-version
//! binary from one provider NEVER hides another provider's (Herd php85 and
//! Homebrew php@8.5 are co-installed realities, not duplicates).

use crate::clock;
use crate::fs::{self, Disk, PathFacts, Snapshot};
use crate::path;
pub use crate::php::channel_dir::{
    created_channel_dir, ensure_hearth_channel_dir, verify_user_channel, ChannelRejection,
    VerifiedDir, PRIVILEGED_PREFIX,
};
use crate::php::channel_dir::{self, channel_verdict};
pub use crate::php::roots::ProviderRoots;
use crate::scan::{self, Class};
use crate::text;
use crate::utf8;
use vstd::prelude::*;

verus! {

/// The PHP versions that are looked for, in the order of the reports.
pub const SUPPORTED_VERSIONS: [&'static str; 5] = ["8.1", "8.2", "8.3", "8.4", "8.5"];

#[derive(Debug, Clone, Copy, PartialEq, Eq, Structural)]
pub enum PhpProvider {
    Hearth,
    Herd,
    Homebrew,
}

#[derive(Debug, Clone, Copy, PartialEq, Eq, Structural)]
pub enum PhpSapi {
    Cli,
    Fpm,
}

/// Stable identity — provider-explicit, NEVER cross-provider deduped.
#[derive(Debug, Clone, PartialEq, Eq)]
pub struct PhpTargetIdentity {
    pub provider: PhpProvider,
    pub version: String,
    pub sapi: PhpSapi,
    /// Canonicalized binary path.
    pub binary: String,
}

/// What an identity holds.
pub struct IdentityView {
    pub provider: PhpProvider,
    pub version: Seq<char>,
    pub sapi: PhpSapi,
    pub binary: Seq<char>,
}

impl View for PhpTargetIdentity {
    type V = IdentityView;

    open spec fn view(&self) -> IdentityView {
        IdentityView {
            provider: self.provider,
            version: self.version@,
            sapi: self.sapi,
            binary: self.binary@,
        }
    }
}

impl PhpTargetIdentity {
    /// An owned copy.
    pub fn dup(&self) -> (r: Self)
        ensures
            r@ == self@,
            r.provider == self.provider,
            r.sapi == self.sapi,
    {
        PhpTargetIdentity {
            provider: self.provider,
            version: self.version.clone(),
            sapi: self.sapi,
            binary: self.binary.clone(),
        }
    }
}

/// Scan-dir probe results for one binary.
#[derive(Debug, Clone)]
pub struct ProbeInfo {
    /// Daemon env minus `PHP_INI_SCAN_DIR`/`PHPRC` (HOME present).
    pub normal_scan_dir: Option<String>,
    /// Cleared env with a minimal `PATH`.
    pub sanitized_scan_dir: Option<String>,
    /// Env-honor canary result: does the binary FUNCTIONALLY honor
    /// `PHP_INI_SCAN_DIR` under the normal (daemon) environment — marker ini
    /// actually parsed?
    pub env_honored: bool,
    /// Probe failures (timeout, spawn error) — classification degrades these
    /// to BestEffort instead of guessing.
    pub failures: Vec<String>,
}

/// What a probe found.
#[verifier::ext_equal]
pub struct ProbeView {
    pub normal_scan_dir: Option<Seq<char>>,
    pub sanitized_scan_dir: Option<Seq<char>>,
    pub env_honored: bool,
    pub failures: Seq<Seq<char>>,
}

impl View for ProbeInfo {
    type V = ProbeView;

    open spec fn view(&self) -> ProbeView {
        ProbeView {
            normal_scan_dir: text::opt_text(self.normal_scan_dir),
            sanitized_scan_dir: text::opt_text(self.sanitized_scan_dir),
            env_honored: self.env_honored,
            failures: text::texts(self.failures@),
        }
    }
}

/// A probe that was not made.
pub open spec fn unprobed() -> ProbeView {
    ProbeView {
        normal_scan_dir: None,
        sanitized_scan_dir: None,
        env_honored: false,
        failures: Seq::empty(),
    }
}

impl Default for ProbeInfo {
    fn default() -> (r: Self)
        ensures
            r@ == unprobed(),
    {
        let r = ProbeInfo {
            normal_scan_dir: None,
            sanitized_scan_dir: None,
            env_honored: false,
            failures: Vec::new(),
        };
        proof {
            assert(r@ =~= unprobed());
        }
        r
    }
}

/// Write-side channel classification per (target, context).
#[derive(Debug, Clone, PartialEq, Eq)]
pub enum ChannelClass {
    /// User-owned, version-exclusive, verified channel loaded in this context.
    Verified { dir: String },
    /// Only scan channel is a shared root-owned dir — NEVER written (option A).
    PrivilegedDir { dir: String },
    /// Probe failed / unknown layout / verification failed — reported, no writes.
    BestEffort { reason: String },
}

/// What a classification holds.
pub enum ClassView {
    Verified { dir: Seq<char> },
    PrivilegedDir { dir: Seq<char> },
    BestEffort { reason: Seq<char> },
}

impl View for ChannelClass {
    type V = ClassView;

    open spec fn view(&self) -> ClassView {
        match self {
            ChannelClass::Verified { dir } => ClassView::Verified { dir: dir@ },
            ChannelClass::PrivilegedDir { dir } => ClassView::PrivilegedDir { dir: dir@ },
            ChannelClass::BestEffort { reason } => ClassView::BestEffort { reason: reason@ },
        }
    }
}

impl ChannelClass {
    /// An owned copy.
    pub fn dup(&self) -> (r: Self)
        ensures
            r@ == self@,
    {
        match self {
            ChannelClass::Verified { dir } => ChannelClass::Verified { dir: dir.clone() },
            ChannelClass::PrivilegedDir { dir } => ChannelClass::PrivilegedDir {
                dir: dir.clone(),
            },
            ChannelClass::BestEffort { reason } => ChannelClass::BestEffort {
                reason: reason.clone(),
            },
        }
    }
}

/// A discovered PHP target with probe results and per-context classification.
#[derive(Debug, Clone)]
pub struct PhpTarget {
    pub id: PhpTargetIdentity,
    pub probe: ProbeInfo,
    pub normal_channel: ChannelClass,
    pub sanitized_channel: ChannelClass,
    /// `Some` iff a Verified channel may receive `zz-hearth.ini`. Always
    /// `None` for ambient-provider FPM targets: external FPM never authorizes
    /// writes.
    pub write_channel: Option<String>,
    /// The binary was proven to lie below its provider's root.
    pub identity_verified: bool,
}

/// What a target holds.
pub struct TargetView {
    pub id: IdentityView,
    pub probe: ProbeView,
    pub normal_channel: ClassView,
    pub sanitized_channel: ClassView,
    pub write_channel: Option<Seq<char>>,
    pub identity_verified: bool,
}

impl View for PhpTarget {
    type V = TargetView;

    open spec fn view(&self) -> TargetView {
        TargetView {
            id: self.id@,
            probe: self.probe@,
            normal_channel: self.normal_channel@,
            sanitized_channel: self.sanitized_channel@,
            write_channel: text::opt_text(self.write_channel),
            identity_verified: self.identity_verified,
        }
    }
}

pub open spec fn target_views(v: Seq<PhpTarget>) -> Seq<TargetView> {
    v.map_values(|t: PhpTarget| t@)
}

// ---- layout ----
/// A version without its dots, as Herd spells it.
pub open spec fn digits(version: Seq<char>) -> Seq<char> {
    scan::without(version, '.')
}

/// Where a provider's binary is expected.
pub open spec fn layout(
    provider: PhpProvider,
    sapi: PhpSapi,
    version: Seq<char>,
    hearth: Seq<char>,
    herd: Seq<char>,
    homebrew: Seq<char>,
) -> Seq<char> {
    match (provider, sapi) {
        (PhpProvider::Hearth, PhpSapi::Cli) => path::joined(
            path::joined(path::joined(hearth, "php"@), version),
            "php"@,
        ),
        (PhpProvider::Hearth, PhpSapi::Fpm) => path::joined(
            path::joined(path::joined(hearth, "php"@), version),
            "php-fpm"@,
        ),
        (PhpProvider::Herd, PhpSapi::Cli) => path::joined(
            path::joined(herd, "bin"@),
            "php"@ + digits(version),
        ),
        (PhpProvider::Herd, PhpSapi::Fpm) => path::joined(
            path::joined(herd, "bin"@),
            "php"@ + digits(version) + "-fpm"@,
        ),
        (PhpProvider::Homebrew, PhpSapi::Cli) => path::joined(
            path::joined(path::joined(homebrew, "opt"@), "php@"@ + version),
            "bin/php"@,
        ),
        (PhpProvider::Homebrew, PhpSapi::Fpm) => path::joined(
            path::joined(path::joined(homebrew, "opt"@), "php@"@ + version),
            "sbin/php-fpm"@,
        ),
    }
}

/// The expected path of a provider's binary.
pub fn expected_binary_path(
    provider: PhpProvider,
    version: &str,
    sapi: PhpSapi,
    roots: &ProviderRoots,
) -> (r: String)
    ensures
        r@ == layout(provider, sapi, version@, roots@.hearth, roots@.herd, roots@.homebrew),
{
    match provider {
        PhpProvider::Hearth => {
            let php: String = path::join(roots.hearth_root(), "php");
            let dir: String = path::join(php.as_str(), version);
            match sapi {
                PhpSapi::Cli => path::join(dir.as_str(), "php"),
                PhpSapi::Fpm => path::join(dir.as_str(), "php-fpm"),
            }
        },
        PhpProvider::Herd => {
            let bin: String = path::join(roots.herd_root(), "bin");
            let xy: String = scan::remove_char(version, '.');
            match sapi {
                PhpSapi::Cli => path::join(bin.as_str(), text::cat2("php", xy.as_str()).as_str()),
                PhpSapi::Fpm => path::join(
                    bin.as_str(),
                    text::cat3("php", xy.as_str(), "-fpm").as_str(),
                ),
            }
        },
        PhpProvider::Homebrew => {
            let opt: String = path::join(roots.homebrew_root(), "opt");
            let dir: String = path::join(opt.as_str(), text::cat2("php@", version).as_str());
            match sapi {
                PhpSapi::Cli => path::join(dir.as_str(), "bin/php"),
                PhpSapi::Fpm => path::join(dir.as_str(), "sbin/php-fpm"),
            }
        },
    }
}

/// Where a provider's channel for a version is expected.
pub open spec fn channel_layout(
    provider: PhpProvider,
    version: Seq<char>,
    hearth: Seq<char>,
    herd: Seq<char>,
    homebrew: Seq<char>,
) -> Seq<char> {
    match provider {
        PhpProvider::Hearth => path::joined(
            path::joined(path::joined(hearth, "php"@), version),
            "conf.d"@,
        ),
        PhpProvider::Herd => path::joined(path::joined(herd, "config/php"@), digits(version)),
        PhpProvider::Homebrew => path::joined(
            path::joined(path::joined(homebrew, "etc/php"@), version),
            "conf.d"@,
        ),
    }
}

/// Expected user-channel layout for a (provider, version) pair.
pub fn expected_channel_dir(provider: PhpProvider, version: &str, roots: &ProviderRoots) -> (r:
    String)
    ensures
        r@ == channel_layout(provider, version@, roots@.hearth, roots@.herd, roots@.homebrew),
{
    match provider {
        PhpProvider::Hearth => {
            let php: String = path::join(roots.hearth_root(), "php");
            let dir: String = path::join(php.as_str(), version);
            path::join(dir.as_str(), "conf.d")
        },
        PhpProvider::Herd => {
            let base: String = path::join(roots.herd_root(), "config/php");
            let xy: String = scan::remove_char(version, '.');
            path::join(base.as_str(), xy.as_str())
        },
        PhpProvider::Homebrew => {
            let etc: String = path::join(roots.homebrew_root(), "etc/php");
            let dir: String = path::join(etc.as_str(), version);
            path::join(dir.as_str(), "conf.d")
        },
    }
}

// ---- discovery ----
/// The `k`-th binary that is looked for: for each version in turn, the
/// providers in their order, each with its CLI before its FPM.
pub open spec fn candidate(k: int) -> (PhpProvider, PhpSapi, int) {
    let provider = if (k / 2) % 3 == 0 {
        PhpProvider::Hearth
    } else if (k / 2) % 3 == 1 {
        PhpProvider::Herd
    } else {
        PhpProvider::Homebrew
    };
    let sapi = if k % 2 == 0 {
        PhpSapi::Cli
    } else {
        PhpSapi::Fpm
    };
    (provider, sapi, k / 6)
}

/// The `k`-th binary that is looked for, if it is there.
pub open spec fn discovered(
    k: int,
    hearth: Seq<char>,
    herd: Seq<char>,
    homebrew: Seq<char>,
    d: Disk,
) -> Option<IdentityView> {
    let (provider, sapi, v) = candidate(k);
    let version = SUPPORTED_VERSIONS@[v]@;
    let at = layout(provider, sapi, version, hearth, herd, homebrew);
    let f = fs::facts(d, at);
    if f.target is Ok && f.target->Ok_0.is_file {
        Some(
            IdentityView {
                provider,
                version,
                sapi,
                binary: match f.canonical {
                    Ok(c) => c,
                    Err(_) => at,
                },
            },
        )
    } else {
        None
    }
}

/// The first `n` binaries that are looked for, those that are there.
pub open spec fn discoveries(
    n: int,
    hearth: Seq<char>,
    herd: Seq<char>,
    homebrew: Seq<char>,
    d: Disk,
) -> Seq<IdentityView>
    decreases n,
{
    if n <= 0 {
        Seq::empty()
    } else {
        let before = discoveries(n - 1, hearth, herd, homebrew, d);
        match discovered(n - 1, hearth, herd, homebrew, d) {
            Some(id) => before.push(id),
            None => before,
        }
    }
}

pub open spec fn identities(v: Seq<PhpTargetIdentity>) -> Seq<IdentityView> {
    v.map_values(|t: PhpTargetIdentity| t@)
}

/// Enumerate all provider binaries per SAPI. A same-version binary from one
/// provider never hides another provider's.
pub fn discover_provider_targets(roots: &ProviderRoots, disk: &Snapshot) -> (r: Vec<
    PhpTargetIdentity,
>)
    requires
        disk.wf(),
    ensures
        identities(r@) == discoveries(30, roots@.hearth, roots@.herd, roots@.homebrew, disk@),
{
    let mut ids: Vec<PhpTargetIdentity> = Vec::new();
    let mut k: usize = 0;
    proof {
        assert(identities(ids@) =~= Seq::empty());
    }
    while k < 30
        invariant
            k <= 30,
            disk.wf(),
            identities(ids@) == discoveries(
                k as int,
                roots@.hearth,
                roots@.herd,
                roots@.homebrew,
                disk@,
            ),
        decreases 30 - k,
    {
        let provider: PhpProvider = if (k / 2) % 3 == 0 {
            PhpProvider::Hearth
        } else if (k / 2) % 3 == 1 {
            PhpProvider::Herd
        } else {
            PhpProvider::Homebrew
        };
        let sapi: PhpSapi = if k % 2 == 0 {
            PhpSapi::Cli
        } else {
            PhpSapi::Fpm
        };
        let version: &str = SUPPORTED_VERSIONS[k / 6];
        let at: String = expected_binary_path(provider, version, sapi, roots);
        let f: &PathFacts = disk.at(at.as_str());
        let is_file: bool = match &f.target {
            Ok(m) => m.is_file,
            Err(_) => false,
        };
        if is_file {
            let binary: String = match &f.canonical {
                Ok(c) => c.clone(),
                Err(_) => at,
            };
            let id = PhpTargetIdentity { provider, version: version.to_owned(), sapi, binary };
            let ghost before = ids@;
            ids.push(id);
            proof {
                assert(identities(ids@) =~= identities(before).push(id@));
            }
        }
        k = k + 1;
    }
    ids
}

// ---- identity ----
/// The root of a provider.
pub open spec fn root_of(
    provider: PhpProvider,
    hearth: Seq<char>,
    herd: Seq<char>,
    homebrew: Seq<char>,
) -> Seq<char> {
    match provider {
        PhpProvider::Hearth => hearth,
        PhpProvider::Herd => herd,
        PhpProvider::Homebrew => homebrew,
    }
}

/// Whether a canonical path lies below a root that is there.
pub open spec fn below(root: Seq<char>, canonical: Seq<char>, d: Disk) -> bool {
    match fs::facts(d, root).canonical {
        Ok(r) => path::covers(path::key(r), path::key(canonical)),
        Err(_) => false,
    }
}

/// What the binary expected at `at` is: its canonical path, if that lies below
/// the provider's root and below no other provider's.
pub open spec fn identity_verdict(
    provider: PhpProvider,
    at: Seq<char>,
    hearth: Seq<char>,
    herd: Seq<char>,
    homebrew: Seq<char>,
    d: Disk,
) -> Result<Seq<char>, Seq<char>> {
    let root = root_of(provider, hearth, herd, homebrew);
    match fs::facts(d, at).canonical {
        Err(e) => Err("cannot canonicalize "@ + at + ": "@ + e),
        Ok(c) => if !below(root, c, d) {
            Err(c + " escapes its provider root "@ + root)
        } else if (provider != PhpProvider::Hearth && below(hearth, c, d)) || (provider
            != PhpProvider::Herd && below(herd, c, d)) || (provider != PhpProvider::Homebrew
            && below(homebrew, c, d)) {
            Err("ambiguous: "@ + c + " lies below more than one provider root"@)
        } else {
            Ok(c)
        },
    }
}

fn is_below(root: &str, canonical: &str, disk: &Snapshot) -> (r: bool)
    requires
        disk.wf(),
    ensures
        r == below(root@, canonical@, disk@),
{
    match &disk.at(root).canonical {
        Ok(c) => path::starts_with(canonical, c.as_str()),
        Err(_) => false,
    }
}

/// Provider identity must be PROVEN before any use: the canonical binary at
/// the expected layout path lies below its canonical provider root and below
/// no other. An escaped or ambiguous one is never executed nor granted a
/// channel under that label.
pub fn verify_binary_identity(
    provider: PhpProvider,
    version: &str,
    sapi: PhpSapi,
    roots: &ProviderRoots,
    disk: &Snapshot,
) -> (r: Result<String, String>)
    requires
        disk.wf(),
    ensures
        fs::text_result(r) == identity_verdict(
            provider,
            layout(provider, sapi, version@, roots@.hearth, roots@.herd, roots@.homebrew),
            roots@.hearth,
            roots@.herd,
            roots@.homebrew,
            disk@,
        ),
{
    let at: String = expected_binary_path(provider, version, sapi, roots);
    let root: &str = match provider {
        PhpProvider::Hearth => roots.hearth_root(),
        PhpProvider::Herd => roots.herd_root(),
        PhpProvider::Homebrew => roots.homebrew_root(),
    };
    match &disk.at(at.as_str()).canonical {
        Err(e) => Err(text::cat4("cannot canonicalize ", at.as_str(), ": ", e.as_str())),
        Ok(c) => {
            if !is_below(root, c.as_str(), disk) {
                return Err(text::cat3(c.as_str(), " escapes its provider root ", root));
            }
            let twice: bool = (provider != PhpProvider::Hearth && is_below(
                roots.hearth_root(),
                c.as_str(),
                disk,
            )) || (provider != PhpProvider::Herd && is_below(roots.herd_root(), c.as_str(), disk))
                || (provider != PhpProvider::Homebrew && is_below(
                roots.homebrew_root(),
                c.as_str(),
                disk,
            ));
            if twice {
                return Err(
                    text::cat3(
                        "ambiguous: ",
                        c.as_str(),
                        " lies below more than one provider root",
                    ),
                );
            }
            Ok(c.clone())
        },
    }
}

/// A binary is verified for at most one provider: a verified one lies below
/// its own provider's root and below no other's.
pub proof fn verified_identity_is_unique(
    provider: PhpProvider,
    other: PhpProvider,
    at: Seq<char>,
    hearth: Seq<char>,
    herd: Seq<char>,
    homebrew: Seq<char>,
    d: Disk,
)
    requires
        identity_verdict(provider, at, hearth, herd, homebrew, d) is Ok,
    ensures
        below(
            root_of(other, hearth, herd, homebrew),
            identity_verdict(provider, at, hearth, herd, homebrew, d)->Ok_0,
            d,
        ) == (other == provider),
{
}

// ---- classification ----
pub open spec fn provider_debug(p: PhpProvider) -> Seq<char> {
    match p {
        PhpProvider::Hearth => "Hearth"@,
        PhpProvider::Herd => "Herd"@,
        PhpProvider::Homebrew => "Homebrew"@,
    }
}

fn provider_debug_name(p: PhpProvider) -> (r: &'static str)
    ensures
        r@ == provider_debug(p),
{
    match p {
        PhpProvider::Hearth => "Hearth",
        PhpProvider::Herd => "Herd",
        PhpProvider::Homebrew => "Homebrew",
    }
}

/// The class of a probed scan dir: the denylist first, then the layout, then
/// the trust rules of a channel.
pub open spec fn class_of(
    provider: PhpProvider,
    expected: Seq<char>,
    probed: Option<Seq<char>>,
    failure: Option<Seq<char>>,
    allowed: Seq<Seq<char>>,
    d: Disk,
) -> ClassView {
    match probed {
        None => ClassView::BestEffort {
            reason: match failure {
                Some(f) => f,
                None => "binary reports no additional-ini scan directory"@,
            },
        },
        Some(dir) => if channel_dir::privileged(dir) {
            ClassView::PrivilegedDir { dir }
        } else if path::key(dir) != path::key(expected) {
            ClassView::BestEffort {
                reason: "scan dir "@ + dir + " does not match the expected "@ + provider_debug(
                    provider,
                ) + " layout "@ + expected,
            }
        } else {
            match channel_verdict(dir, allowed, d) {
                Ok(v) => ClassView::Verified { dir: v.path },
                Err(e) => ClassView::BestEffort {
                    reason: "channel verification failed: "@ + e,
                },
            }
        },
    }
}

/// Classify one probed scan dir (one context) for write-side handling.
pub fn classify_channel(
    provider: PhpProvider,
    version: &str,
    probed: Option<&str>,
    probe_failure: Option<&str>,
    roots: &ProviderRoots,
    disk: &Snapshot,
) -> (r: ChannelClass)
    requires
        disk.wf(),
    ensures
        r@ == class_of(
            provider,
            channel_layout(provider, version@, roots@.hearth, roots@.herd, roots@.homebrew),
            match probed {
                Some(p) => Some(p@),
                None => None,
            },
            match probe_failure {
                Some(p) => Some(p@),
                None => None,
            },
            roots@.allowed,
            disk@,
        ),
{
    let dir: &str = match probed {
        None => {
            return ChannelClass::BestEffort {
                reason: match probe_failure {
                    Some(f) => f.to_owned(),
                    None => "binary reports no additional-ini scan directory".to_owned(),
                },
            };
        },
        Some(p) => p,
    };
    if channel_dir::is_privileged(dir) {
        return ChannelClass::PrivilegedDir { dir: dir.to_owned() };
    }
    let expected: String = expected_channel_dir(provider, version, roots);
    if !path::same_path(dir, expected.as_str()) {
        let head: String = text::cat4(
            "scan dir ",
            dir,
            " does not match the expected ",
            provider_debug_name(provider),
        );
        return ChannelClass::BestEffort {
            reason: text::cat3(head.as_str(), " layout ", expected.as_str()),
        };
    }
    let allowed: Vec<String> = roots.allowed_prefixes();
    match verify_user_channel(dir, &allowed, disk) {
        Ok(v) => ChannelClass::Verified { dir: v.path },
        Err(e) => ChannelClass::BestEffort {
            reason: text::cat2("channel verification failed: ", e.reason.as_str()),
        },
    }
}

/// A channel that is classified as verified is the expected one of its
/// provider and version, off the denylist and within the write authority.
pub proof fn verified_class_is_in_authority(
    provider: PhpProvider,
    expected: Seq<char>,
    probed: Option<Seq<char>>,
    failure: Option<Seq<char>>,
    allowed: Seq<Seq<char>>,
    d: Disk,
)
    requires
        class_of(provider, expected, probed, failure, allowed, d) is Verified,
    ensures
        ({
            let dir = class_of(provider, expected, probed, failure, allowed, d)->Verified_dir;
            &&& path::key(dir) == path::key(expected)
            &&& !channel_dir::privileged(dir)
            &&& channel_dir::below_any(allowed, dir)
        }),
{
    channel_dir::verified_channel_is_safe(probed->0, allowed, d);
}

// ---- probe output ----
pub const SCAN_MARKER_CLI: &'static str = "Scan for additional .ini files in:";

pub const SCAN_MARKER_FPM: &'static str = "Scan this dir for additional .ini files =>";

pub const NO_VALUE: &'static str = "(none)";

/// `s` without the pair of quotes around it.
pub open spec fn unquoted(s: Seq<char>) -> Seq<char> {
    if s.len() >= 2 && s[0] == '"' && s.last() == '"' {
        s.subrange(1, s.len() - 1)
    } else {
        s
    }
}

/// The directory named in the value of a scan-dir line.
pub open spec fn scan_value(raw: Seq<char>) -> Option<Seq<char>> {
    let v = unquoted(scan::trimmed(raw, Class::Space));
    let v = if v.len() > 0 && v[0] == ':' {
        v.drop_first()
    } else {
        v
    };
    if v.len() == 0 || v == NO_VALUE@ {
        None
    } else {
        Some(v)
    }
}

/// The value of a line that holds one of the scan-dir markers.
pub open spec fn scan_line(line: Seq<char>) -> Option<Seq<char>> {
    match scan::after_first(line, SCAN_MARKER_CLI@) {
        Some(v) => Some(v),
        None => scan::after_first(line, SCAN_MARKER_FPM@),
    }
}

/// The scan dir that the first marked line names.
pub open spec fn scan_dir(lines: Seq<Seq<char>>) -> Option<Seq<char>>
    decreases lines.len(),
{
    if lines.len() == 0 {
        None
    } else {
        match scan_line(lines[0]) {
            Some(raw) => scan_value(raw),
            None => scan_dir(lines.drop_first()),
        }
    }
}

fn parse_scan_value(raw: &str) -> (r: Option<String>)
    ensures
        text::opt_text(r) == scan_value(raw@),
{
    let mut value: String = scan::trim(raw, Class::Space);
    let n: usize = value.as_str().unicode_len();
    if n >= 2 && value.as_str().get_char(0) == '"' && value.as_str().get_char(n - 1) == '"' {
        value = value.as_str().substring_char(1, n - 1).to_owned();
    }
    let n: usize = value.as_str().unicode_len();
    if n > 0 && value.as_str().get_char(0) == ':' {
        let rest: &str = value.as_str().substring_char(1, n);
        proof {
            assert(rest@ =~= value@.drop_first());
        }
        value = rest.to_owned();
    }
    if value.as_str().is_empty() || text::same(value.as_str(), NO_VALUE) {
        None
    } else {
        Some(value)
    }
}

/// Parse the scan-dir line from `--ini` (CLI) or `-i` (FPM) output.
/// Handles PHP 8.5's double-quoted paths and the raw leading-colon echo seen
/// when `PHP_INI_SCAN_DIR` is set. `(none)`/absent → `None`.
pub fn parse_scan_dir(stdout: &str) -> (r: Option<String>)
    ensures
        text::opt_text(r) == scan_dir(scan::lines_of(stdout@)),
{
    let lines: Vec<String> = scan::lines(stdout);
    let ghost all = scan::lines_of(stdout@);
    let mut i: usize = 0;
    proof {
        assert(all.skip(0) =~= all);
    }
    while i < lines.len()
        invariant
            i <= lines@.len(),
            all == text::texts(lines@),
            scan_dir(all) == scan_dir(all.skip(i as int)),
            all == scan::lines_of(stdout@),
        decreases lines@.len() - i,
    {
        proof {
            assert(all.skip(i as int)[0] == lines@[i as int]@);
            assert(all.skip(i as int).drop_first() =~= all.skip(i + 1));
        }
        match scan::after(lines[i].as_str(), SCAN_MARKER_CLI) {
            Some(raw) => {
                return parse_scan_value(raw.as_str());
            },
            None => {},
        }
        match scan::after(lines[i].as_str(), SCAN_MARKER_FPM) {
            Some(raw) => {
                return parse_scan_value(raw.as_str());
            },
            None => {},
        }
        i = i + 1;
    }
    None
}

pub const PARSED_FIELD: &'static str = "Additional .ini files parsed";

/// A wrapped entry of the parsed list: a bare or quoted absolute path.
pub open spec fn continues(line: Seq<char>) -> bool {
    let t = scan::trimmed(line, Class::Space);
    t.len() > 0 && (t[0] == '/' || t[0] == '"')
}

/// The path in one item of the parsed list, if it names one.
pub open spec fn listed_path(item: Seq<char>) -> Option<Seq<char>> {
    let p = scan::trimmed(
        scan::trimmed(scan::trimmed(item, Class::Space), Class::Quote),
        Class::Space,
    );
    if p.len() == 0 || p == NO_VALUE@ {
        None
    } else {
        Some(p)
    }
}

/// The paths in the items of one chunk of the parsed list.
pub open spec fn listed_paths(items: Seq<Seq<char>>) -> Seq<Seq<char>>
    decreases items.len(),
{
    if items.len() == 0 {
        Seq::empty()
    } else {
        let before = listed_paths(items.drop_last());
        match listed_path(items.last()) {
            Some(p) => before.push(p),
            None => before,
        }
    }
}

/// The chunks that continue the parsed list, up to the first line that does
/// not.
pub open spec fn continuation(lines: Seq<Seq<char>>) -> Seq<Seq<char>>
    decreases lines.len(),
{
    if lines.len() == 0 || !continues(lines[0]) {
        Seq::empty()
    } else {
        listed_paths(scan::cut(scan::trimmed(lines[0], Class::Space), ',')) + continuation(
            lines.drop_first(),
        )
    }
}

/// The value of a field, given what follows its name: without the separator,
/// which may stand apart from the name, and without white space around it.
pub open spec fn field_value(raw: Seq<char>) -> Seq<char> {
    scan::trimmed(
        scan::left_trimmed(scan::left_trimmed(raw, Class::Space), Class::Separator),
        Class::Space,
    )
}

/// The files of the first parsed list in the output.
pub open spec fn parsed_files(lines: Seq<Seq<char>>) -> Seq<Seq<char>>
    decreases lines.len(),
{
    if lines.len() == 0 {
        Seq::empty()
    } else {
        match scan::after_first(lines[0], PARSED_FIELD@) {
            None => parsed_files(lines.drop_first()),
            Some(raw) => listed_paths(scan::cut(field_value(raw), ',')) + continuation(
                lines.drop_first(),
            ),
        }
    }
}

fn push_listed(files: &mut Vec<String>, chunk: &str)
    ensures
        text::texts(final(files)@) == text::texts(old(files)@) + listed_paths(scan::cut(chunk@, ',')),
{
    let items: Vec<String> = scan::cut_at(chunk, ',');
    let ghost all = scan::cut(chunk@, ',');
    let mut i: usize = 0;
    proof {
        assert(all.take(0) =~= Seq::empty());
        assert(text::texts(files@) =~= text::texts(old(files)@) + listed_paths(all.take(0)));
    }
    while i < items.len()
        invariant
            i <= items@.len(),
            all == text::texts(items@),
            text::texts(files@) == text::texts(old(files)@) + listed_paths(all.take(i as int)),
        decreases items@.len() - i,
    {
        let a: String = scan::trim(items[i].as_str(), Class::Space);
        let b: String = scan::trim(a.as_str(), Class::Quote);
        let p: String = scan::trim(b.as_str(), Class::Space);
        proof {
            assert(all.take(i + 1).drop_last() =~= all.take(i as int));
            assert(all.take(i + 1).last() == items@[i as int]@);
        }
        let ghost before = files@;
        if !p.as_str().is_empty() && !text::same(p.as_str(), NO_VALUE) {
            files.push(p);
            proof {
                assert(text::texts(files@) =~= text::texts(before).push(p@));
                assert(text::texts(files@) =~= text::texts(old(files)@) + listed_paths(
                    all.take(i + 1),
                ));
            }
        }
        i = i + 1;
    }
    proof {
        assert(all.take(i as int) =~= all);
    }
}

/// Parse the `Additional .ini files parsed` list from `--ini`/`-i` output.
/// Handles the `:`/`=>` field separators, multi-line wrapping with trailing
/// commas, double-quoted paths (PHP 8.5), and `(none)`.
pub fn parse_parsed_ini_files(stdout: &str) -> (r: Vec<String>)
    ensures
        text::texts(r@) == parsed_files(scan::lines_of(stdout@)),
{
    let lines: Vec<String> = scan::lines(stdout);
    let ghost all = scan::lines_of(stdout@);
    let mut files: Vec<String> = Vec::new();
    let mut i: usize = 0;
    proof {
        assert(all.skip(0) =~= all);
        assert(text::texts(files@) =~= Seq::empty());
    }
    while i < lines.len()
        invariant
            i <= lines@.len(),
            all == text::texts(lines@),
            all == scan::lines_of(stdout@),
            parsed_files(all) == parsed_files(all.skip(i as int)),
            text::texts(files@) == Seq::<Seq<char>>::empty(),
        decreases lines@.len() - i,
    {
        proof {
            assert(all.skip(i as int)[0] == lines@[i as int]@);
            assert(all.skip(i as int).drop_first() =~= all.skip(i + 1));
        }
        match scan::after(lines[i].as_str(), PARSED_FIELD) {
            None => {},
            Some(raw) => {
                let field: String = scan::trim_left(raw.as_str(), Class::Space);
                let value: String = scan::trim_left(field.as_str(), Class::Separator);
                let first: String = scan::trim(value.as_str(), Class::Space);
                push_listed(&mut files, first.as_str());
                let mut j: usize = i + 1;
                proof {
                    assert(text::texts(files@) + continuation(all.skip(j as int)) =~= parsed_files(
                        all,
                    ));
                }
                while j < lines.len()
                    invariant
                        j <= lines@.len(),
                        all == text::texts(lines@),
                        text::texts(files@) + continuation(all.skip(j as int)) == parsed_files(all),
                    ensures
                        text::texts(files@) == parsed_files(all),
                    decreases lines@.len() - j,
                {
                    let t: String = scan::trim(lines[j].as_str(), Class::Space);
                    proof {
                        assert(all.skip(j as int)[0] == lines@[j as int]@);
                        assert(all.skip(j as int).drop_first() =~= all.skip(j + 1));
                    }
                    if t.as_str().is_empty() || !(t.as_str().get_char(0) == '/'
                        || t.as_str().get_char(0) == '"') {
                        proof {
                            assert(text::texts(files@) + continuation(all.skip(j as int))
                                =~= text::texts(files@));
                        }
                        break;
                    }
                    let ghost before = text::texts(files@);
                    push_listed(&mut files, t.as_str());
                    proof {
                        let here = listed_paths(scan::cut(t@, ','));
                        assert(before + (here + continuation(all.skip(j + 1))) =~= text::texts(
                            files@,
                        ) + continuation(all.skip(j + 1)));
                    }
                    j = j + 1;
                    proof {
                        if j == lines@.len() {
                            assert(text::texts(files@) + continuation(all.skip(j as int))
                                =~= text::texts(files@));
                        }
                    }
                }
                return files;
            },
        }
        i = i + 1;
    }
    files
}

/// Whether a marker file is among those that the output lists as parsed.
pub open spec fn marker_parsed(stdout: Seq<char>, marker: Seq<char>) -> bool {
    let files = parsed_files(scan::lines_of(stdout));
    exists|i: int| 0 <= i < files.len() && path::key(#[trigger] files[i]) == path::key(marker)
}

/// Whether the parsed list names the marker file of the env-honor canary.
pub fn canary_honored(stdout: &str, marker: &str) -> (r: bool)
    ensures
        r == marker_parsed(stdout@, marker@),
{
    let files: Vec<String> = parse_parsed_ini_files(stdout);
    let ghost all = parsed_files(scan::lines_of(stdout@));
    let mut i: usize = 0;
    while i < files.len()
        invariant
            i <= files@.len(),
            all == text::texts(files@),
            all == parsed_files(scan::lines_of(stdout@)),
            forall|j: int| 0 <= j < i ==> path::key(#[trigger] all[j]) != path::key(marker@),
        decreases files@.len() - i,
    {
        proof {
            assert(all[i as int] == files@[i as int]@);
        }
        if path::same_path(files[i].as_str(), marker) {
            return true;
        }
        i = i + 1;
    }
    false
}

// ---- probing ----
/// How a probe failed before it had output.
#[derive(Debug)]
pub enum ProbeFault {
    Spawn(String),
    /// No output within this many milliseconds.
    TimedOut(u64),
    Wait(String),
}

pub open spec fn fault_text(f: ProbeFault) -> Seq<char> {
    match f {
        ProbeFault::Spawn(e) => "spawn failed: "@ + e@,
        ProbeFault::TimedOut(ms) => "timed out after "@ + clock::duration_text(ms),
        ProbeFault::Wait(e) => "wait failed: "@ + e@,
    }
}

/// A probe failure in words.
pub fn probe_fault_text(f: &ProbeFault) -> (r: String)
    ensures
        r@ == fault_text(*f),
{
    match f {
        ProbeFault::Spawn(e) => text::cat2("spawn failed: ", e.as_str()),
        ProbeFault::TimedOut(ms) => {
            let d: String = clock::duration_debug(*ms);
            text::cat2("timed out after ", d.as_str())
        },
        ProbeFault::Wait(e) => text::cat2("wait failed: ", e.as_str()),
    }
}

/// The output of a probe, as text.
pub fn probe_text(stdout: &Vec<u8>) -> (r: String)
    ensures
        r@ == utf8::lossy_text(stdout@),
{
    utf8::decode_lossy(stdout.as_slice())
}

/// The local value in a line `key => local => master`.
pub open spec fn value_in_line(line: Seq<char>, key: Seq<char>) -> Option<Seq<char>> {
    let row = key + " => "@;
    if row.is_prefix_of(line) {
        Some(
            scan::trimmed(
                scan::before_first(line.skip(row.len() as int), " => "@),
                Class::Space,
            ),
        )
    } else {
        None
    }
}

/// The local value in the first line that reports the key.
pub open spec fn value_in(lines: Seq<Seq<char>>, key: Seq<char>) -> Option<Seq<char>>
    decreases lines.len(),
{
    if lines.len() == 0 {
        None
    } else if value_in_line(lines[0], key) is Some {
        value_in_line(lines[0], key)
    } else {
        value_in(lines.drop_first(), key)
    }
}

/// The local value that the output of `-i` reports for a directive.
pub fn reported_value(stdout: &str, key: &str) -> (r: Option<String>)
    ensures
        text::opt_text(r) == value_in(scan::lines_of(stdout@), key@),
{
    let lines: Vec<String> = scan::lines(stdout);
    let row: String = text::cat2(key, " => ");
    let ghost all = text::texts(lines@);
    let mut i: usize = 0;
    proof {
        assert(all.skip(0) =~= all);
    }
    while i < lines.len()
        invariant
            i <= lines@.len(),
            row@ == key@ + " => "@,
            all == text::texts(lines@),
            all == scan::lines_of(stdout@),
            value_in(all, key@) == value_in(all.skip(i as int), key@),
        decreases lines@.len() - i,
    {
        let line: &str = lines[i].as_str();
        proof {
            assert(all.skip(i as int)[0] == line@);
            assert(all.skip(i as int).drop_first() =~= all.skip(i + 1));
        }
        if text::starts_with(line, row.as_str()) {
            let n: usize = row.as_str().unicode_len();
            let rest: &str = line.substring_char(n, line.unicode_len());
            proof {
                assert(rest@ =~= line@.skip(row@.len() as int));
            }
            let local: String = scan::before(rest, " => ");
            return Some(scan::trim(local.as_str(), Class::Space));
        }
        i = i + 1;
    }
    proof {
        assert(all.skip(i as int) =~= Seq::empty());
    }
    None
}

/// What a launched CLI binary reported of a directive: what it printed, without
/// white space around it, if it succeeded.
pub open spec fn cli_reported(success: bool, stdout: Seq<char>) -> Option<Seq<char>> {
    if success {
        Some(scan::trimmed(stdout, Class::Space))
    } else {
        None
    }
}

/// The value that a launched CLI binary reported.
pub fn cli_value(success: bool, stdout: &str) -> (r: Option<String>)
    ensures
        text::opt_text(r) == cli_reported(success, stdout@),
{
    if success {
        Some(scan::trim(stdout, Class::Space))
    } else {
        None
    }
}

/// What a launched FPM binary reported of a directive, if it succeeded.
pub open spec fn fpm_reported(success: bool, stdout: Seq<char>, key: Seq<char>) -> Option<
    Seq<char>,
> {
    if success {
        value_in(scan::lines_of(stdout), key)
    } else {
        None
    }
}

/// The value that a launched FPM binary reported.
pub fn fpm_value(success: bool, stdout: &str, key: &str) -> (r: Option<String>)
    ensures
        text::opt_text(r) == fpm_reported(success, stdout@, key@),
{
    if success {
        reported_value(stdout, key)
    } else {
        None
    }
}

pub open spec fn honor_verdict(
    success: bool,
    status: Seq<char>,
    stdout: Seq<char>,
    marker: Seq<char>,
) -> Result<bool, Seq<char>> {
    if success {
        Ok(marker_parsed(stdout, marker))
    } else {
        Err("canary probe exited nonzero ("@ + status + ")"@)
    }
}

/// What the env-honor canary came to: env credit requires FUNCTIONAL proof —
/// the marker ini must appear in `Additional .ini files parsed`, never just an
/// echoed scan-dir path.
pub fn env_honor(success: bool, status: &str, stdout: &str, marker: &str) -> (r: Result<
    bool,
    String,
>)
    ensures
        match (r, honor_verdict(success, status@, stdout@, marker@)) {
            (Ok(a), Ok(b)) => a == b,
            (Err(a), Err(b)) => a@ == b,
            _ => false,
        },
{
    if !success {
        return Err(text::cat3("canary probe exited nonzero (", status, ")"));
    }
    Ok(canary_honored(stdout, marker))
}

pub const HOME_MISSING: &'static str = "normal probe: HOME missing from daemon environment";

pub const CANARY_IGNORED: &'static str =
    "canary: marker ini absent from 'Additional .ini files parsed' — binary does not honor PHP_INI_SCAN_DIR in this context (no env credit)";

/// The scan dir in the output of a probe; none where it failed.
pub open spec fn scanned(r: Result<Seq<char>, Seq<char>>) -> Option<Seq<char>> {
    match r {
        Ok(stdout) => scan_dir(scan::lines_of(stdout)),
        Err(_) => None,
    }
}

pub open spec fn failure_of(prefix: Seq<char>, r: Result<Seq<char>, Seq<char>>) -> Seq<Seq<char>> {
    match r {
        Ok(_) => Seq::empty(),
        Err(e) => seq![prefix + e],
    }
}

/// What the three probes of a binary add up to.
pub open spec fn probed(
    home: bool,
    normal: Result<Seq<char>, Seq<char>>,
    sanitized: Result<Seq<char>, Seq<char>>,
    canary: Result<bool, Seq<char>>,
) -> ProbeView {
    ProbeView {
        normal_scan_dir: scanned(normal),
        sanitized_scan_dir: scanned(sanitized),
        env_honored: canary == Ok::<bool, Seq<char>>(true),
        failures: (if home {
            Seq::empty()
        } else {
            seq![HOME_MISSING@]
        }) + failure_of("normal probe: "@, normal) + failure_of("sanitized probe: "@, sanitized)
            + match canary {
            Ok(true) => Seq::empty(),
            Ok(false) => seq![CANARY_IGNORED@],
            Err(e) => seq!["canary probe: "@ + e],
        },
    }
}

/// Probe one binary's scan dirs in both env contexts plus the env-honor
/// canary: what the outputs add up to. A failed probe is reported, never
/// guessed over.
///
/// Scan behavior is launcher-env-dependent (Herd-patched binaries ignore
/// `PHP_INI_SCAN_DIR` when their own variable is present).
pub fn probe_scan_dirs(
    home_present: bool,
    normal: Result<String, String>,
    sanitized: Result<String, String>,
    canary: Result<bool, String>,
) -> (r: ProbeInfo)
    ensures
        r@ == probed(
            home_present,
            fs::text_result(normal),
            fs::text_result(sanitized),
            match canary {
                Ok(b) => Ok(b),
                Err(e) => Err(e@),
            },
        ),
{
    let mut failures: Vec<String> = Vec::new();
    if !home_present {
        failures.push(HOME_MISSING.to_owned());
    }
    let mut normal_scan_dir: Option<String> = None;
    match normal {
        Ok(stdout) => {
            normal_scan_dir = parse_scan_dir(stdout.as_str());
        },
        Err(e) => {
            failures.push(text::cat2("normal probe: ", e.as_str()));
        },
    }
    let mut sanitized_scan_dir: Option<String> = None;
    match sanitized {
        Ok(stdout) => {
            sanitized_scan_dir = parse_scan_dir(stdout.as_str());
        },
        Err(e) => {
            failures.push(text::cat2("sanitized probe: ", e.as_str()));
        },
    }
    let mut env_honored: bool = false;
    match canary {
        Ok(honored) => {
            env_honored = honored;
            if !honored {
                failures.push(CANARY_IGNORED.to_owned());
            }
        },
        Err(e) => {
            failures.push(text::cat2("canary probe: ", e.as_str()));
        },
    }
    let r = ProbeInfo { normal_scan_dir, sanitized_scan_dir, env_honored, failures };
    proof {
        assert(r@.failures =~= probed(
            home_present,
            fs::text_result(normal),
            fs::text_result(sanitized),
            match canary {
                Ok(b) => Ok(b),
                Err(e) => Err(e@),
            },
        ).failures);
    }
    r
}

} // verus!
