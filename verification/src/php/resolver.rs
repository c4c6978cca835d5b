//! PHP binary resolution chain, and the enumeration of PHP-FPM candidates.

use crate::fs::{self, Disk, FileMeta, Snapshot};
use crate::path;
use crate::php::targets::{
    self, expected_binary_path, identity_verdict, layout, verify_binary_identity, PhpProvider,
    PhpSapi, ProviderRoots, SUPPORTED_VERSIONS,
};
use crate::scan;
use crate::text::{self, opt_str};
use vstd::prelude::*;

verus! {

// ---- first match ----
pub const HERD_BIN: &'static str = "Library/Application Support/Herd/bin";

/// The first of up to three places at which there is something.
pub open spec fn first_there(
    a: Seq<char>,
    b: Option<Seq<char>>,
    c: Seq<char>,
    d: Disk,
) -> Option<Seq<char>> {
    if fs::facts(d, a).exists {
        Some(a)
    } else if b is Some && fs::facts(d, b->0).exists {
        b
    } else if fs::facts(d, c).exists {
        Some(c)
    } else {
        None
    }
}

/// Where Hearth caches a binary of a version.
pub open spec fn cached(config_dir: Seq<char>, version: Seq<char>, name: Seq<char>) -> Seq<char> {
    path::joined(path::joined(path::joined(config_dir, "php"@), version), name)
}

/// Where Herd keeps a binary of a version, below the home directory.
pub open spec fn in_herd(
    home: Option<Seq<char>>,
    version: Seq<char>,
    suffix: Seq<char>,
) -> Option<Seq<char>> {
    match home {
        Some(h) => Some(
            path::joined(
                path::joined(h, HERD_BIN@),
                "php"@ + targets::digits(version) + suffix,
            ),
        ),
        None => None,
    }
}

/// Where Homebrew keeps a binary of a version.
pub open spec fn in_homebrew(version: Seq<char>, tail: Seq<char>) -> Seq<char> {
    "/opt/homebrew/opt/php@"@ + version + tail
}

fn first_of(a: String, b: Option<String>, c: String, disk: &Snapshot) -> (r: Option<String>)
    requires
        disk.wf(),
    ensures
        text::opt_text(r) == first_there(a@, text::opt_text(b), c@, disk@),
{
    if disk.at(a.as_str()).exists {
        return Some(a);
    }
    match b {
        Some(b) => {
            if disk.at(b.as_str()).exists {
                return Some(b);
            }
        },
        None => {},
    }
    if disk.at(c.as_str()).exists {
        return Some(c);
    }
    None
}

fn cached_path(config_dir: &str, version: &str, name: &str) -> (r: String)
    ensures
        r@ == cached(config_dir@, version@, name@),
{
    let php: String = path::join(config_dir, "php");
    let dir: String = path::join(php.as_str(), version);
    path::join(dir.as_str(), name)
}

fn herd_path(home: Option<&str>, version: &str, suffix: &str) -> (r: Option<String>)
    ensures
        text::opt_text(r) == in_herd(opt_str(home), version@, suffix@),
{
    match home {
        Some(h) => {
            let bin: String = path::join(h, HERD_BIN);
            let compact: String = scan::remove_char(version, '.');
            Some(
                path::join(bin.as_str(), text::cat3("php", compact.as_str(), suffix).as_str()),
            )
        },
        None => None,
    }
}

/// Searches for a PHP binary in this order:
/// 1. Hearth cache (`{config_dir}/php/{version}/php`)
/// 2. Herd binaries (`~/Library/Application Support/Herd/bin/php{version}`)
/// 3. Homebrew (`/opt/homebrew/opt/php@{version}/bin/php`)
///
/// If none of those paths exists, the resolver returns `None`; it never falls
/// back to a bare `php` command.
///
/// ```text
/// resolve("8.4")
///   ├─ {config_dir}/php/8.4/php           ← own CI binaries
///   ├─ ~/Library/.../Herd/bin/php84       ← Herd migration
///   ├─ /opt/homebrew/opt/php@8.4/bin/php  ← Homebrew fallback
///   └─ None                                ← not installed
/// ```
pub fn resolve_php_binary(version: &str, config_dir: &str, home: Option<&str>, disk: &Snapshot) -> (r:
    Option<String>)
    requires
        disk.wf(),
    ensures
        text::opt_text(r) == first_there(
            cached(config_dir@, version@, "php"@),
            in_herd(opt_str(home), version@, ""@),
            in_homebrew(version@, "/bin/php"@),
            disk@,
        ),
{
    first_of(
        cached_path(config_dir, version, "php"),
        herd_path(home, version, ""),
        text::cat3("/opt/homebrew/opt/php@", version, "/bin/php"),
        disk,
    )
}

/// Where the PHP-FPM binary of a version is, in the same chain.
pub open spec fn resolved_fpm(
    version: Seq<char>,
    config_dir: Seq<char>,
    home: Option<Seq<char>>,
    d: Disk,
) -> Option<Seq<char>> {
    first_there(
        cached(config_dir, version, "php-fpm"@),
        in_herd(home, version, "-fpm"@),
        in_homebrew(version, "/sbin/php-fpm"@),
        d,
    )
}

/// Resolve the PHP-FPM binary through the same three-provider chain.
///
/// Returns `None` rather than falling back to a bare `php-fpm` command when no
/// provider-specific binary exists.
pub fn resolve_phpfpm_binary(
    version: &str,
    config_dir: &str,
    home: Option<&str>,
    disk: &Snapshot,
) -> (r: Option<String>)
    requires
        disk.wf(),
    ensures
        text::opt_text(r) == resolved_fpm(version@, config_dir@, opt_str(home), disk@),
{
    first_of(
        cached_path(config_dir, version, "php-fpm"),
        herd_path(home, version, "-fpm"),
        text::cat3("/opt/homebrew/opt/php@", version, "/sbin/php-fpm"),
        disk,
    )
}

/// Every place at which a binary of a version is looked for.
pub open spec fn places(version: Seq<char>, config_dir: Seq<char>, home: Option<Seq<char>>) -> Seq<
    Seq<char>,
> {
    let own = seq![
        cached(config_dir, version, "php"@),
        cached(config_dir, version, "php-fpm"@),
        in_homebrew(version, "/bin/php"@),
        in_homebrew(version, "/sbin/php-fpm"@),
    ];
    match (in_herd(home, version, ""@), in_herd(home, version, "-fpm"@)) {
        (Some(php), Some(fpm)) => own.push(php).push(fpm),
        _ => own,
    }
}

/// The places at which a binary of a version is looked for: a snapshot that
/// holds them settles where it is.
pub fn binary_places(version: &str, config_dir: &str, home: Option<&str>) -> (r: Vec<String>)
    ensures
        text::texts(r@) == places(version@, config_dir@, opt_str(home)),
{
    let mut out: Vec<String> = Vec::new();
    out.push(cached_path(config_dir, version, "php"));
    out.push(cached_path(config_dir, version, "php-fpm"));
    out.push(text::cat3("/opt/homebrew/opt/php@", version, "/bin/php"));
    out.push(text::cat3("/opt/homebrew/opt/php@", version, "/sbin/php-fpm"));
    if let (Some(php), Some(fpm)) = (herd_path(home, version, ""), herd_path(home, version, "-fpm")) {
        out.push(php);
        out.push(fpm);
    }
    proof {
        assert(text::texts(out@) =~= places(version@, config_dir@, opt_str(home)));
    }
    out
}

/// Resolution looks at its places and nowhere else: disks that agree on them
/// resolve a version alike.
pub proof fn resolution_looks_at_its_places(
    version: Seq<char>,
    config_dir: Seq<char>,
    home: Option<Seq<char>>,
    d: Disk,
    e: Disk,
)
    requires
        forall|p: Seq<char>|
            #[trigger] places(version, config_dir, home).contains(p) ==> fs::facts(d, p).exists
                == fs::facts(e, p).exists,
    ensures
        resolved_fpm(version, config_dir, home, d) == resolved_fpm(version, config_dir, home, e),
        first_there(
            cached(config_dir, version, "php"@),
            in_herd(home, version, ""@),
            in_homebrew(version, "/bin/php"@),
            d,
        ) == first_there(
            cached(config_dir, version, "php"@),
            in_herd(home, version, ""@),
            in_homebrew(version, "/bin/php"@),
            e,
        ),
{
    let all = places(version, config_dir, home);
    assert forall|i: int| 0 <= i < all.len() implies fs::facts(d, #[trigger] all[i]).exists
        == fs::facts(e, all[i]).exists by {
        assert(all.contains(all[i]));
    }
    assert(all[0] == cached(config_dir, version, "php"@));
    assert(all[1] == cached(config_dir, version, "php-fpm"@));
    assert(all[2] == in_homebrew(version, "/bin/php"@));
    assert(all[3] == in_homebrew(version, "/sbin/php-fpm"@));
    if home is Some {
        assert(all[4] == in_herd(home, version, ""@)->0);
        assert(all[5] == in_herd(home, version, "-fpm"@)->0);
    }
}

// ---- candidates ----
/// Identity-verified FPM provider tier, ordered by production preference.
#[derive(Debug, Clone, Copy, PartialEq, Eq, Structural)]
pub enum FpmTier {
    Hearth,
    Herd,
    Homebrew,
}

/// How far down the order of preference a tier is.
pub open spec fn rank(t: FpmTier) -> int {
    match t {
        FpmTier::Hearth => 0,
        FpmTier::Herd => 1,
        FpmTier::Homebrew => 2,
    }
}

pub open spec fn tier_name(t: FpmTier) -> Seq<char> {
    match t {
        FpmTier::Hearth => "Hearth"@,
        FpmTier::Herd => "Herd"@,
        FpmTier::Homebrew => "Homebrew"@,
    }
}

pub open spec fn provider_of(t: FpmTier) -> PhpProvider {
    match t {
        FpmTier::Hearth => PhpProvider::Hearth,
        FpmTier::Herd => PhpProvider::Herd,
        FpmTier::Homebrew => PhpProvider::Homebrew,
    }
}

impl FpmTier {
    /// How far down the order of preference the tier is.
    pub fn rank(self) -> (r: u8)
        ensures
            r == rank(self),
    {
        match self {
            FpmTier::Hearth => 0,
            FpmTier::Herd => 1,
            FpmTier::Homebrew => 2,
        }
    }

    fn name(self) -> (r: &'static str)
        ensures
            r@ == tier_name(self),
    {
        match self {
            FpmTier::Hearth => "Hearth",
            FpmTier::Herd => "Herd",
            FpmTier::Homebrew => "Homebrew",
        }
    }
}

fn tier_provider(tier: FpmTier) -> (r: PhpProvider)
    ensures
        r == provider_of(tier),
{
    match tier {
        FpmTier::Hearth => PhpProvider::Hearth,
        FpmTier::Herd => PhpProvider::Herd,
        FpmTier::Homebrew => PhpProvider::Homebrew,
    }
}

#[derive(Debug, Clone, PartialEq, Eq)]
pub struct FpmCandidate {
    pub version: &'static str,
    pub tier: FpmTier,
    pub path: String,
    pub canonical: String,
}

pub struct CandidateView {
    pub version: Seq<char>,
    pub tier: FpmTier,
    pub path: Seq<char>,
    pub canonical: Seq<char>,
}

impl View for FpmCandidate {
    type V = CandidateView;

    open spec fn view(&self) -> CandidateView {
        CandidateView {
            version: self.version@,
            tier: self.tier,
            path: self.path@,
            canonical: self.canonical@,
        }
    }
}

pub open spec fn candidates(v: Seq<FpmCandidate>) -> Seq<CandidateView> {
    v.map_values(|c: FpmCandidate| c@)
}

#[derive(Debug, Clone, PartialEq, Eq)]
pub struct FpmCandidateRejection {
    pub version: &'static str,
    pub tier: FpmTier,
    pub path: String,
    pub reason: String,
}

pub struct RejectionView {
    pub version: Seq<char>,
    pub tier: FpmTier,
    pub path: Seq<char>,
    pub reason: Seq<char>,
}

impl View for FpmCandidateRejection {
    type V = RejectionView;

    open spec fn view(&self) -> RejectionView {
        RejectionView {
            version: self.version@,
            tier: self.tier,
            path: self.path@,
            reason: self.reason@,
        }
    }
}

pub open spec fn rejections(v: Seq<FpmCandidateRejection>) -> Seq<RejectionView> {
    v.map_values(|c: FpmCandidateRejection| c@)
}

#[derive(Debug, Clone, PartialEq, Eq)]
pub struct FpmCandidateSet {
    pub candidates: Vec<FpmCandidate>,
    pub rejected: Vec<FpmCandidateRejection>,
}

impl Default for FpmCandidateSet {
    fn default() -> (r: Self)
        ensures
            r.candidates@.len() == 0,
            r.rejected@.len() == 0,
    {
        FpmCandidateSet { candidates: Vec::new(), rejected: Vec::new() }
    }
}

/// No more of a reason than 512 characters.
pub open spec fn bounded(reason: Seq<char>) -> Seq<char> {
    if reason.len() <= 512 {
        reason
    } else {
        reason.take(512)
    }
}

fn bounded_candidate_reason(reason: &str) -> (r: String)
    ensures
        r@ == bounded(reason@),
{
    let chars: Vec<char> = text::to_chars(reason);
    if chars.len() <= 512 {
        return reason.to_owned();
    }
    let mut kept: Vec<char> = Vec::new();
    let mut i: usize = 0;
    while i < 512
        invariant
            i <= 512,
            chars@ == reason@,
            chars.len() > 512,
            kept@ == reason@.take(i as int),
        decreases 512 - i,
    {
        kept.push(chars[i]);
        i = i + 1;
        proof {
            assert(kept@ =~= reason@.take(i as int));
        }
    }
    text::from_chars(&kept)
}

pub const NOT_EXECUTABLE: &'static str =
    "identity-verified target is not an executable regular file";

pub open spec fn executable(m: FileMeta) -> bool {
    m.is_file && m.mode & 0x49 != 0
}

fn is_executable(m: &FileMeta) -> (r: bool)
    ensures
        r == executable(*m),
{
    m.is_file && m.mode & 0x49 != 0
}

/// What a layout entry came to.
pub enum Look {
    Absent,
    Rejected { reason: Seq<char> },
    Found { canonical: Seq<char>, dev: u64, ino: u64 },
}

/// What the entry of a tier for a version comes to: it has to pass the
/// provider identity boundary and to be an executable regular file.
pub open spec fn look(
    tier: FpmTier,
    version: Seq<char>,
    hearth: Seq<char>,
    herd: Seq<char>,
    homebrew: Seq<char>,
    d: Disk,
) -> Look {
    let at = layout(provider_of(tier), PhpSapi::Fpm, version, hearth, herd, homebrew);
    match fs::facts(d, at).link {
        Err((true, _)) => Look::Absent,
        Err((false, e)) => Look::Rejected { reason: bounded(e) },
        Ok(_) => match identity_verdict(provider_of(tier), at, hearth, herd, homebrew, d) {
            Err(e) => Look::Rejected { reason: bounded(e) },
            Ok(canonical) => match fs::facts(d, canonical).target {
                Err(e) => Look::Rejected { reason: bounded(e) },
                Ok(m) => if executable(m) {
                    Look::Found { canonical, dev: m.dev, ino: m.ino }
                } else {
                    Look::Rejected { reason: NOT_EXECUTABLE@ }
                },
            },
        },
    }
}

/// The `k`-th layout entry: for each version in turn, the tiers in their
/// order.
pub open spec fn entry(k: int) -> (FpmTier, int) {
    (
        if k % 3 == 0 {
            FpmTier::Hearth
        } else if k % 3 == 1 {
            FpmTier::Herd
        } else {
            FpmTier::Homebrew
        },
        k / 3,
    )
}

/// What an enumeration holds: each candidate with its device and inode, and
/// what was rejected.
#[verifier::ext_equal]
pub struct Enumeration {
    pub found: Seq<CandidateView>,
    pub files: Seq<(u64, u64)>,
    pub rejected: Seq<RejectionView>,
}

/// Whether a file was already found under a version.
pub open spec fn already(e: Enumeration, version: Seq<char>, dev: u64, ino: u64) -> bool {
    exists|j: int|
        0 <= j < e.found.len() && (#[trigger] e.found[j]).version == version && e.files[j] == (
            dev,
            ino,
        )
}

pub open spec fn extended(
    e: Enumeration,
    tier: FpmTier,
    version: Seq<char>,
    at: Seq<char>,
    seen: Look,
) -> Enumeration {
    match seen {
        Look::Absent => e,
        Look::Rejected { reason } => Enumeration {
            rejected: e.rejected.push(RejectionView { version, tier, path: at, reason }),
            ..e
        },
        Look::Found { canonical, dev, ino } => if already(e, version, dev, ino) {
            e
        } else {
            Enumeration {
                found: e.found.push(CandidateView { version, tier, path: at, canonical }),
                files: e.files.push((dev, ino)),
                ..e
            }
        },
    }
}

/// The first `n` layout entries, enumerated.
pub open spec fn enumerated(
    n: int,
    hearth: Seq<char>,
    herd: Seq<char>,
    homebrew: Seq<char>,
    d: Disk,
) -> Enumeration
    decreases n,
{
    if n <= 0 {
        Enumeration { found: Seq::empty(), files: Seq::empty(), rejected: Seq::empty() }
    } else {
        let (tier, v) = entry(n - 1);
        let version = SUPPORTED_VERSIONS@[v]@;
        extended(
            enumerated(n - 1, hearth, herd, homebrew, d),
            tier,
            version,
            layout(provider_of(tier), PhpSapi::Fpm, version, hearth, herd, homebrew),
            look(tier, version, hearth, herd, homebrew, d),
        )
    }
}

/// What an entry came to.
enum Looked {
    Absent,
    Rejected { reason: String },
    Found { canonical: String, dev: u64, ino: u64 },
}

spec fn look_view(l: Looked) -> Look {
    match l {
        Looked::Absent => Look::Absent,
        Looked::Rejected { reason } => Look::Rejected { reason: reason@ },
        Looked::Found { canonical, dev, ino } => Look::Found { canonical: canonical@, dev, ino },
    }
}

fn look_at(tier: FpmTier, version: &str, roots: &ProviderRoots, disk: &Snapshot) -> (r: Looked)
    requires
        disk.wf(),
    ensures
        look_view(r) == look(
            tier,
            version@,
            roots@.hearth,
            roots@.herd,
            roots@.homebrew,
            disk@,
        ),
{
    let provider = tier_provider(tier);
    let at: String = expected_binary_path(provider, version, PhpSapi::Fpm, roots);
    match &disk.at(at.as_str()).link {
        Err(e) => {
            if e.not_found {
                return Looked::Absent;
            }
            return Looked::Rejected { reason: bounded_candidate_reason(e.text.as_str()) };
        },
        Ok(_) => {},
    }
    match verify_binary_identity(provider, version, PhpSapi::Fpm, roots, disk) {
        Err(e) => Looked::Rejected { reason: bounded_candidate_reason(e.as_str()) },
        Ok(canonical) => match &disk.at(canonical.as_str()).target {
            Err(e) => Looked::Rejected { reason: bounded_candidate_reason(e.as_str()) },
            Ok(m) => {
                if is_executable(m) {
                    Looked::Found { dev: m.dev, ino: m.ino, canonical }
                } else {
                    Looked::Rejected { reason: NOT_EXECUTABLE.to_owned() }
                }
            },
        },
    }
}

fn found_before(
    found: &Vec<FpmCandidate>,
    files: &Vec<(u64, u64)>,
    version: &str,
    dev: u64,
    ino: u64,
) -> (r: bool)
    requires
        found@.len() == files@.len(),
    ensures
        r == exists|j: int|
            0 <= j < found@.len() && (#[trigger] candidates(found@)[j]).version == version@
                && files@[j] == (dev, ino),
{
    let mut j: usize = 0;
    while j < found.len()
        invariant
            j <= found.len(),
            found@.len() == files@.len(),
            forall|k: int|
                0 <= k < j ==> !((#[trigger] candidates(found@)[k]).version == version@
                    && files@[k] == (dev, ino)),
        decreases found.len() - j,
    {
        if text::same(found[j].version, version) && files[j].0 == dev && files[j].1 == ino {
            assert(candidates(found@)[j as int].version == version@);
            return true;
        }
        j = j + 1;
    }
    false
}

fn extend(
    found: &mut Vec<FpmCandidate>,
    files: &mut Vec<(u64, u64)>,
    rejected: &mut Vec<FpmCandidateRejection>,
    tier: FpmTier,
    version: &'static str,
    at: String,
    seen: Looked,
)
    requires
        old(found)@.len() == old(files)@.len(),
    ensures
        final(found)@.len() == final(files)@.len(),
        (Enumeration {
            found: candidates(final(found)@),
            files: final(files)@,
            rejected: rejections(final(rejected)@),
        }) == extended(
            Enumeration {
                found: candidates(old(found)@),
                files: old(files)@,
                rejected: rejections(old(rejected)@),
            },
            tier,
            version@,
            at@,
            look_view(seen),
        ),
{
    match seen {
        Looked::Absent => {},
        Looked::Rejected { reason } => {
            let row = FpmCandidateRejection { version, tier, path: at, reason };
            rejected.push(row);
            proof {
                assert(rejections(rejected@) =~= rejections(old(rejected)@).push(row@));
            }
        },
        Looked::Found { canonical, dev, ino } => {
            if !found_before(found, files, version, dev, ino) {
                let c = FpmCandidate { version, tier, path: at, canonical };
                found.push(c);
                files.push((dev, ino));
                proof {
                    assert(candidates(found@) =~= candidates(old(found)@).push(c@));
                }
            }
        },
    }
}

/// Enumerate every installed supported FPM layout entry that independently
/// passes the settled provider identity boundary and executable check.
/// Enumeration is read-only and deliberately distinct from the first-match
/// production resolver above.
pub fn all_phpfpm_candidates(roots: &ProviderRoots, disk: &Snapshot) -> (r: FpmCandidateSet)
    requires
        disk.wf(),
    ensures
        candidates(r.candidates@) == enumerated(
            15,
            roots@.hearth,
            roots@.herd,
            roots@.homebrew,
            disk@,
        ).found,
        rejections(r.rejected@) == enumerated(
            15,
            roots@.hearth,
            roots@.herd,
            roots@.homebrew,
            disk@,
        ).rejected,
{
    let mut found: Vec<FpmCandidate> = Vec::new();
    let mut files: Vec<(u64, u64)> = Vec::new();
    let mut rejected: Vec<FpmCandidateRejection> = Vec::new();
    let mut k: usize = 0;
    proof {
        assert(candidates(found@) =~= Seq::empty());
        assert(rejections(rejected@) =~= Seq::empty());
        assert(files@ =~= Seq::empty());
    }
    while k < 15
        invariant
            k <= 15,
            disk.wf(),
            found@.len() == files@.len(),
            (Enumeration {
                found: candidates(found@),
                files: files@,
                rejected: rejections(rejected@),
            }) == enumerated(k as int, roots@.hearth, roots@.herd, roots@.homebrew, disk@),
        decreases 15 - k,
    {
        let tier: FpmTier = if k % 3 == 0 {
            FpmTier::Hearth
        } else if k % 3 == 1 {
            FpmTier::Herd
        } else {
            FpmTier::Homebrew
        };
        let version: &'static str = SUPPORTED_VERSIONS[k / 3];
        let at: String = expected_binary_path(tier_provider(tier), version, PhpSapi::Fpm, roots);
        let seen = look_at(tier, version, roots, disk);
        extend(&mut found, &mut files, &mut rejected, tier, version, at, seen);
        k = k + 1;
    }
    FpmCandidateSet { candidates: found, rejected }
}

/// Every candidate independently passed the provider identity boundary under
/// its own tier, and is an executable regular file; the path it is listed
/// under is the one its provider's layout expects.
pub proof fn candidates_are_verified(
    n: int,
    j: int,
    hearth: Seq<char>,
    herd: Seq<char>,
    homebrew: Seq<char>,
    d: Disk,
)
    requires
        0 <= j < enumerated(n, hearth, herd, homebrew, d).found.len(),
    ensures
        ({
            let c = enumerated(n, hearth, herd, homebrew, d).found[j];
            let provider = provider_of(c.tier);
            &&& c.path == layout(provider, PhpSapi::Fpm, c.version, hearth, herd, homebrew)
            &&& identity_verdict(provider, c.path, hearth, herd, homebrew, d) == Ok::<
                Seq<char>,
                Seq<char>,
            >(c.canonical)
            &&& fs::facts(d, c.canonical).target is Ok
            &&& executable(fs::facts(d, c.canonical).target->Ok_0)
        }),
    decreases n,
{
    if n > 0 {
        let before = enumerated(n - 1, hearth, herd, homebrew, d);
        if j < before.found.len() {
            candidates_are_verified(n - 1, j, hearth, herd, homebrew, d);
        }
    }
}

proof fn files_go_with_candidates(
    n: int,
    hearth: Seq<char>,
    herd: Seq<char>,
    homebrew: Seq<char>,
    d: Disk,
)
    ensures
        enumerated(n, hearth, herd, homebrew, d).found.len() == enumerated(
            n,
            hearth,
            herd,
            homebrew,
            d,
        ).files.len(),
    decreases n,
{
    if n > 0 {
        files_go_with_candidates(n - 1, hearth, herd, homebrew, d);
    }
}

/// An entry that passes is never lost, whatever became of the entries before
/// it: a candidate for its version is the same file.
pub proof fn invalid_tier_never_shadows(
    n: int,
    k: int,
    hearth: Seq<char>,
    herd: Seq<char>,
    homebrew: Seq<char>,
    d: Disk,
)
    requires
        0 <= k < n,
    ensures
        ({
            let (tier, v) = entry(k);
            let version = SUPPORTED_VERSIONS@[v]@;
            match look(tier, version, hearth, herd, homebrew, d) {
                Look::Found { canonical, dev, ino } => already(
                    enumerated(n, hearth, herd, homebrew, d),
                    version,
                    dev,
                    ino,
                ),
                _ => true,
            }
        }),
    decreases n,
{
    let (tier, v) = entry(k);
    let version = SUPPORTED_VERSIONS@[v]@;
    let before = enumerated(n - 1, hearth, herd, homebrew, d);
    let after = enumerated(n, hearth, herd, homebrew, d);
    files_go_with_candidates(n - 1, hearth, herd, homebrew, d);
    if let Look::Found { canonical, dev, ino } = look(tier, version, hearth, herd, homebrew, d) {
        if k < n - 1 {
            invalid_tier_never_shadows(n - 1, k, hearth, herd, homebrew, d);
        }
        if already(before, version, dev, ino) {
            let j = choose|j: int|
                0 <= j < before.found.len() && (#[trigger] before.found[j]).version == version
                    && before.files[j] == (dev, ino);
            assert(after.found[j] == before.found[j]);
        } else {
            assert(after.found[before.found.len() as int].version == version);
        }
    }
}

// ---- the candidate to serve with ----
#[derive(Debug)]
pub struct FpmServeChoice<'a> {
    pub candidate: &'a FpmCandidate,
    pub resolver_mismatch: Option<String>,
}

/// Of the first `n` candidates for a version, the one of the most preferred
/// tier; the first of those.
pub open spec fn fallback(c: Seq<CandidateView>, version: Seq<char>, n: int) -> Option<int>
    decreases n,
{
    if n <= 0 {
        None
    } else {
        match fallback(c, version, n - 1) {
            _ if c[n - 1].version != version => fallback(c, version, n - 1),
            None => Some(n - 1),
            Some(b) => if rank(c[n - 1].tier) < rank(c[b].tier) {
                Some(n - 1)
            } else {
                Some(b)
            },
        }
    }
}

/// The tier whose expected layout path a path is.
pub open spec fn tier_at(
    pick: Seq<char>,
    version: Seq<char>,
    hearth: Seq<char>,
    herd: Seq<char>,
    homebrew: Seq<char>,
) -> Option<FpmTier> {
    if path::key(layout(PhpProvider::Hearth, PhpSapi::Fpm, version, hearth, herd, homebrew))
        == path::key(pick) {
        Some(FpmTier::Hearth)
    } else if path::key(
        layout(PhpProvider::Herd, PhpSapi::Fpm, version, hearth, herd, homebrew),
    ) == path::key(pick) {
        Some(FpmTier::Herd)
    } else if path::key(
        layout(PhpProvider::Homebrew, PhpSapi::Fpm, version, hearth, herd, homebrew),
    ) == path::key(pick) {
        Some(FpmTier::Homebrew)
    } else {
        None
    }
}

/// Whether a candidate is the verified binary: the same path, or the same
/// file.
pub open spec fn is_the_one(
    c: CandidateView,
    version: Seq<char>,
    verified: Seq<char>,
    m: FileMeta,
    d: Disk,
) -> bool {
    &&& c.version == version
    &&& path::key(c.canonical) == path::key(verified) || match fs::facts(d, c.canonical).target {
        Ok(x) => x.dev == m.dev && x.ino == m.ino,
        Err(_) => false,
    }
}

/// The first candidate from `i` on that is the verified binary.
pub open spec fn mapped(
    c: Seq<CandidateView>,
    version: Seq<char>,
    verified: Seq<char>,
    m: FileMeta,
    d: Disk,
    i: int,
) -> Option<int>
    decreases c.len() - i,
{
    if i < 0 || i >= c.len() {
        None
    } else if is_the_one(c[i], version, verified, m, d) {
        Some(i)
    } else {
        mapped(c, version, verified, m, d, i + 1)
    }
}

/// The candidate that a resolver pick is, or why it is none.
pub open spec fn mapping(
    pick: Seq<char>,
    version: Seq<char>,
    hearth: Seq<char>,
    herd: Seq<char>,
    homebrew: Seq<char>,
    c: Seq<CandidateView>,
    d: Disk,
) -> Result<int, Seq<char>> {
    match tier_at(pick, version, hearth, herd, homebrew) {
        None => Err("path is not an expected provider layout"@),
        Some(tier) => {
            let at = layout(provider_of(tier), PhpSapi::Fpm, version, hearth, herd, homebrew);
            match identity_verdict(provider_of(tier), at, hearth, herd, homebrew, d) {
                Err(e) => Err(tier_name(tier) + " identity verification failed: "@ + e),
                Ok(verified) => match fs::facts(d, verified).target {
                    Err(e) => Err(tier_name(tier) + " metadata failed: "@ + e),
                    Ok(m) => if !executable(m) {
                        Err(tier_name(tier) + " "@ + NOT_EXECUTABLE@)
                    } else {
                        match mapped(c, version, verified, m, d, 0) {
                            Some(i) => Ok(i),
                            None => Err(
                                tier_name(tier)
                                    + " verified identity is absent from the enumerated version set"@,
                            ),
                        }
                    },
                },
            }
        },
    }
}

/// How a pick that maps to no candidate is reported.
pub open spec fn mismatch_text(
    pick: Seq<char>,
    version: Seq<char>,
    reason: Seq<char>,
    instead: CandidateView,
) -> Seq<char> {
    bounded(
        "resolver pick "@ + pick + " for PHP "@ + version
            + " failed verified provider mapping: "@ + reason + "; falling back to "@ + tier_name(
            instead.tier,
        ) + " "@ + instead.canonical,
    )
}

/// The candidate to serve with, and what is wrong with the resolver's pick.
pub open spec fn serve_choice(
    version: Seq<char>,
    pick: Option<Seq<char>>,
    hearth: Seq<char>,
    herd: Seq<char>,
    homebrew: Seq<char>,
    c: Seq<CandidateView>,
    d: Disk,
) -> Option<(int, Option<Seq<char>>)> {
    match fallback(c, version, c.len() as int) {
        None => None,
        Some(b) => match pick {
            None => Some((b, None)),
            Some(p) => match mapping(p, version, hearth, herd, homebrew, c, d) {
                Ok(i) => Some((i, None)),
                Err(reason) => Some((b, Some(mismatch_text(p, version, reason, c[b])))),
            },
        },
    }
}

fn fallback_index(c: &Vec<FpmCandidate>, version: &str) -> (r: Option<usize>)
    ensures
        match (r, fallback(candidates(c@), version@, c@.len() as int)) {
            (Some(i), Some(b)) => i == b && i < c@.len(),
            (None, None) => true,
            _ => false,
        },
{
    let mut best: Option<usize> = None;
    let mut n: usize = 0;
    while n < c.len()
        invariant
            n <= c.len(),
            match (best, fallback(candidates(c@), version@, n as int)) {
                (Some(i), Some(b)) => i == b && i < c@.len(),
                (None, None) => true,
                _ => false,
            },
        decreases c.len() - n,
    {
        assert(candidates(c@)[n as int] == c@[n as int]@);
        if text::same(c[n].version, version) {
            best = match best {
                None => Some(n),
                Some(b) => {
                    assert(candidates(c@)[b as int] == c@[b as int]@);
                    if c[n].tier.rank() < c[b].tier.rank() {
                        Some(n)
                    } else {
                        Some(b)
                    }
                },
            };
        }
        n = n + 1;
    }
    best
}

fn mapped_index(
    c: &Vec<FpmCandidate>,
    version: &str,
    verified: &str,
    m: &FileMeta,
    disk: &Snapshot,
) -> (r: Option<usize>)
    requires
        disk.wf(),
    ensures
        match (r, mapped(candidates(c@), version@, verified@, *m, disk@, 0)) {
            (Some(i), Some(b)) => i == b && i < c@.len(),
            (None, None) => true,
            _ => false,
        },
{
    let mut i: usize = 0;
    while i < c.len()
        invariant
            i <= c.len(),
            disk.wf(),
            mapped(candidates(c@), version@, verified@, *m, disk@, 0) == mapped(
                candidates(c@),
                version@,
                verified@,
                *m,
                disk@,
                i as int,
            ),
        decreases c.len() - i,
    {
        assert(candidates(c@)[i as int] == c@[i as int]@);
        if text::same(c[i].version, version) {
            let same_file: bool = match &disk.at(c[i].canonical.as_str()).target {
                Ok(x) => x.dev == m.dev && x.ino == m.ino,
                Err(_) => false,
            };
            if path::same_path(c[i].canonical.as_str(), verified) || same_file {
                return Some(i);
            }
        }
        i = i + 1;
    }
    None
}

fn map_pick(
    pick: &str,
    version: &str,
    roots: &ProviderRoots,
    c: &Vec<FpmCandidate>,
    disk: &Snapshot,
) -> (r: Result<usize, String>)
    requires
        disk.wf(),
    ensures
        match (
            r,
            mapping(
                pick@,
                version@,
                roots@.hearth,
                roots@.herd,
                roots@.homebrew,
                candidates(c@),
                disk@,
            ),
        ) {
            (Ok(i), Ok(b)) => i == b && i < c@.len(),
            (Err(a), Err(b)) => a@ == b,
            _ => false,
        },
{
    let own: String = expected_binary_path(PhpProvider::Hearth, version, PhpSapi::Fpm, roots);
    let herd: String = expected_binary_path(PhpProvider::Herd, version, PhpSapi::Fpm, roots);
    let brew: String = expected_binary_path(PhpProvider::Homebrew, version, PhpSapi::Fpm, roots);
    let tier: FpmTier = if path::same_path(own.as_str(), pick) {
        FpmTier::Hearth
    } else if path::same_path(herd.as_str(), pick) {
        FpmTier::Herd
    } else if path::same_path(brew.as_str(), pick) {
        FpmTier::Homebrew
    } else {
        return Err("path is not an expected provider layout".to_owned());
    };
    match verify_binary_identity(tier_provider(tier), version, PhpSapi::Fpm, roots, disk) {
        Err(e) => Err(
            text::cat3(tier.name(), " identity verification failed: ", e.as_str()),
        ),
        Ok(verified) => match &disk.at(verified.as_str()).target {
            Err(e) => Err(text::cat3(tier.name(), " metadata failed: ", e.as_str())),
            Ok(m) => {
                if !is_executable(m) {
                    return Err(text::cat3(tier.name(), " ", NOT_EXECUTABLE));
                }
                match mapped_index(c, version, verified.as_str(), m, disk) {
                    Some(i) => Ok(i),
                    None => Err(
                        text::cat2(
                            tier.name(),
                            " verified identity is absent from the enumerated version set",
                        ),
                    ),
                }
            },
        },
    }
}

/// Choose the real-proof serve candidate without allowing the exists-only
/// production resolver to recover an identity-rejected provider alias.
pub fn choose_phpfpm_serve_candidate<'a>(
    version: &str,
    resolver_pick: Option<&str>,
    roots: &ProviderRoots,
    list: &'a Vec<FpmCandidate>,
    disk: &Snapshot,
) -> (r: Option<FpmServeChoice<'a>>)
    requires
        disk.wf(),
    ensures
        match (
            r,
            serve_choice(
                version@,
                opt_str(resolver_pick),
                roots@.hearth,
                roots@.herd,
                roots@.homebrew,
                candidates(list@),
                disk@,
            ),
        ) {
            (Some(c), Some((i, mismatch))) => 0 <= i < list@.len() && *c.candidate == list@[i]
                && text::opt_text(c.resolver_mismatch) == mismatch,
            (None, None) => true,
            _ => false,
        },
{
    let b: usize = match fallback_index(list, version) {
        None => {
            return None;
        },
        Some(b) => b,
    };
    match resolver_pick {
        None => Some(FpmServeChoice { candidate: &list[b], resolver_mismatch: None }),
        Some(pick) => match map_pick(pick, version, roots, list, disk) {
            Ok(i) => Some(FpmServeChoice { candidate: &list[i], resolver_mismatch: None }),
            Err(reason) => {
                let mut said: String = text::cat5(
                    "resolver pick ",
                    pick,
                    " for PHP ",
                    version,
                    " failed verified provider mapping: ",
                );
                said.append(reason.as_str());
                said.append("; falling back to ");
                said.append(list[b].tier.name());
                said.append(" ");
                said.append(list[b].canonical.as_str());
                assert(candidates(list@)[b as int] == list@[b as int]@);
                Some(
                    FpmServeChoice {
                        candidate: &list[b],
                        resolver_mismatch: Some(bounded_candidate_reason(said.as_str())),
                    },
                )
            },
        },
    }
}

proof fn fallback_serves_the_version(c: Seq<CandidateView>, version: Seq<char>, n: int)
    requires
        0 <= n <= c.len(),
    ensures
        match fallback(c, version, n) {
            Some(b) => 0 <= b < n && c[b].version == version && forall|j: int|
                0 <= j < n && (#[trigger] c[j]).version == version ==> rank(c[b].tier) <= rank(
                    c[j].tier,
                ),
            None => forall|j: int| 0 <= j < n ==> (#[trigger] c[j]).version != version,
        },
    decreases n,
{
    if n > 0 {
        fallback_serves_the_version(c, version, n - 1);
    }
}

proof fn mapped_serves_the_version(
    c: Seq<CandidateView>,
    version: Seq<char>,
    verified: Seq<char>,
    m: FileMeta,
    d: Disk,
    i: int,
)
    requires
        0 <= i,
    ensures
        match mapped(c, version, verified, m, d, i) {
            Some(b) => i <= b < c.len() && c[b].version == version,
            None => true,
        },
    decreases c.len() - i,
{
    if i < c.len() && !is_the_one(c[i], version, verified, m, d) {
        mapped_serves_the_version(c, version, verified, m, d, i + 1);
    }
}

/// Serving is possible exactly where there is a candidate for the version, and
/// it is always done with one of them: a pick that is not verified is replaced
/// by a candidate of the most preferred tier, and that is said, in no more
/// than 512 characters.
pub proof fn serves_only_verified_candidates(
    version: Seq<char>,
    pick: Option<Seq<char>>,
    hearth: Seq<char>,
    herd: Seq<char>,
    homebrew: Seq<char>,
    c: Seq<CandidateView>,
    d: Disk,
)
    ensures
        match serve_choice(version, pick, hearth, herd, homebrew, c, d) {
            Some((i, mismatch)) => {
                &&& 0 <= i < c.len()
                &&& c[i].version == version
                &&& match mismatch {
                    Some(said) => said.len() <= 512 && pick is Some && forall|j: int|
                        0 <= j < c.len() && (#[trigger] c[j]).version == version ==> rank(
                            c[i].tier,
                        ) <= rank(c[j].tier),
                    None => true,
                }
            },
            None => forall|j: int| 0 <= j < c.len() ==> (#[trigger] c[j]).version != version,
        },
{
    fallback_serves_the_version(c, version, c.len() as int);
    if let Some(p) = pick {
        if let Some(tier) = tier_at(p, version, hearth, herd, homebrew) {
            let at = layout(provider_of(tier), PhpSapi::Fpm, version, hearth, herd, homebrew);
            if let Ok(verified) = identity_verdict(
                provider_of(tier),
                at,
                hearth,
                herd,
                homebrew,
                d,
            ) {
                if let Ok(m) = fs::facts(d, verified).target {
                    mapped_serves_the_version(c, version, verified, m, d, 0);
                }
            }
        }
    }
}

} // verus!
