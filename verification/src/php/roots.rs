//! Provider base directories and the write authority that goes with them.

use crate::fs::{self, Disk, PathFacts, Snapshot};
use crate::path;
use crate::php::channel_dir::{
    self, climbs, deepest, leaves, privileged, resolved, site_of, PRIVILEGED_PREFIX,
};
use crate::scan;
use crate::text;
use vstd::prelude::*;

verus! {

/// Injected provider base directories. Production uses the real roots; an
/// isolated runtime uses directories below its own root.
#[derive(Debug, Clone)]
pub struct ProviderRoots {
    /// Hearth config dir (contains `php/{v}/…`).
    pub hearth: String,
    /// Herd base dir (contains `bin/php{XY}` and `config/php/{XY}`).
    pub herd: String,
    /// Homebrew prefix (contains `opt/php@{v}/…` and `etc/php/{v}/conf.d`).
    pub homebrew: String,
    /// Immutable allowed WRITE roots. Discovery roots NEVER imply write
    /// authority: production is fixed to the Hearth config dir, the user's
    /// home scope, and `/opt/homebrew`; an isolated runtime is confined to its
    /// runtime root.
    allowed_write_roots: Vec<String>,
}

/// What the roots hold.
pub struct RootsView {
    pub hearth: Seq<char>,
    pub herd: Seq<char>,
    pub homebrew: Seq<char>,
    pub allowed: Seq<Seq<char>>,
}

impl View for ProviderRoots {
    type V = RootsView;

    closed spec fn view(&self) -> RootsView {
        RootsView {
            hearth: self.hearth@,
            herd: self.herd@,
            homebrew: self.homebrew@,
            allowed: text::texts(self.allowed_write_roots@),
        }
    }
}

impl ProviderRoots {
    pub fn hearth_root(&self) -> (r: &str)
        ensures
            r@ == self@.hearth,
    {
        self.hearth.as_str()
    }

    pub fn herd_root(&self) -> (r: &str)
        ensures
            r@ == self@.herd,
    {
        self.herd.as_str()
    }

    pub fn homebrew_root(&self) -> (r: &str)
        ensures
            r@ == self@.homebrew,
    {
        self.homebrew.as_str()
    }

    /// Allowed WRITE prefixes. Immutable per construction: production =
    /// Hearth config dir + `$HOME` + `/opt/homebrew`; isolated = the isolated
    /// runtime root only. Discovery-root overrides never appear here.
    pub fn allowed_prefixes(&self) -> (r: Vec<String>)
        ensures
            text::texts(r@) == self@.allowed,
    {
        text::dup_texts(&self.allowed_write_roots)
    }
}

// ---- the allowed-root invariant ----
/// A root that may carry write authority: rooted, neither `/` nor denylisted.
pub open spec fn sound_root(p: Seq<char>) -> bool {
    path::key(p) != path::key("/"@) && !privileged(p)
}

/// The canonical form of a root, or why it cannot carry write authority.
/// Symlink aliases are resolved BEFORE the checks.
pub open spec fn root_verdict(name: Seq<char>, p: Seq<char>, d: Disk) -> Result<
    Seq<char>,
    Seq<char>,
> {
    let f = fs::facts(d, p);
    if p.len() == 0 || !path::rooted(p) {
        Err(name + " root must be a non-empty absolute path, got "@ + p)
    } else {
        match f.canonical {
            Err(e) => Err(name + " root "@ + p + " must exist and canonicalize: "@ + e),
            Ok(c) => if !(f.target is Ok && f.target->Ok_0.is_dir) {
                Err(name + " root "@ + c + " is not a directory"@)
            } else if path::key(c) == path::key("/"@) {
                Err(
                    name + " root "@ + p
                        + " resolves to `/` — `/` can never be write authority"@,
                )
            } else if privileged(c) {
                Err(
                    name + " root "@ + p + " resolves under "@ + PRIVILEGED_PREFIX@
                        + " — denylisted"@,
                )
            } else {
                Ok(c)
            },
        }
    }
}

/// Canonical allowed-root invariant — the ONE constructor every allowed write
/// prefix goes through: the path must be non-empty, absolute, canonicalize to
/// an EXISTING directory, and that canonical form must be neither `/` nor
/// under the privileged denylist. Errors propagate — no permissive fallback.
pub fn canonical_allowed_root(name: &str, p: &str, disk: &Snapshot) -> (r: Result<String, String>)
    requires
        disk.wf(),
    ensures
        fs::text_result(r) == root_verdict(name@, p@, disk@),
{
    if p.is_empty() || !path::is_absolute(p) {
        return Err(text::cat3(name, " root must be a non-empty absolute path, got ", p));
    }
    let f: &PathFacts = disk.at(p);
    match &f.canonical {
        Err(e) => Err(
            text::cat5(name, " root ", p, " must exist and canonicalize: ", e.as_str()),
        ),
        Ok(c) => {
            let is_dir: bool = match &f.target {
                Ok(m) => m.is_dir,
                Err(_) => false,
            };
            if !is_dir {
                return Err(text::cat4(name, " root ", c.as_str(), " is not a directory"));
            }
            if path::same_path(c.as_str(), "/") {
                return Err(
                    text::cat4(
                        name,
                        " root ",
                        p,
                        " resolves to `/` — `/` can never be write authority",
                    ),
                );
            }
            if channel_dir::is_privileged(c.as_str()) {
                let head: String = text::cat4(name, " root ", p, " resolves under ");
                return Err(text::cat3(head.as_str(), PRIVILEGED_PREFIX, " — denylisted"));
            }
            Ok(c.clone())
        },
    }
}

/// The components of `p` below its ancestor `a`, as a relative path.
pub open spec fn remainder(p: Seq<char>, a: Seq<char>) -> Seq<char> {
    scan::glued(path::parts(p).skip(path::parts(a).len() as int), "/"@)
}

/// The same for a root that may not exist yet: its deepest existing ancestor
/// carries the invariant, and the authority is that canonical ancestor with
/// the literal remainder below it. The remainder may not lead out of the
/// ancestor, and what it comes to carries the invariant as well.
pub open spec fn missing_root_verdict(name: Seq<char>, p: Seq<char>, d: Disk) -> Result<
    Seq<char>,
    Seq<char>,
> {
    let a = deepest(d, p);
    if p.len() == 0 || !path::rooted(p) {
        Err(name + " root must be a non-empty absolute path, got "@ + p)
    } else if !fs::facts(d, a).exists {
        Err(name + " root "@ + p + " has no existing ancestor"@)
    } else {
        match root_verdict(name, a, d) {
            Err(e) => Err(e),
            Ok(c) => if !path::covers(path::key(a), path::key(p)) || leaves(p, d) {
                Err(name + " root "@ + p + " escapes its ancestor"@)
            } else if path::key(end_of(p, d)) == path::key("/"@) {
                Err(
                    name + " root "@ + p
                        + " resolves to `/` — `/` can never be write authority"@,
                )
            } else if privileged(path::joined(c, remainder(p, a))) || privileged(end_of(p, d)) {
                Err(
                    name + " root "@ + p + " resolves under "@ + PRIVILEGED_PREFIX@
                        + " — denylisted"@,
                )
            } else {
                Ok(path::joined(c, remainder(p, a)))
            },
        }
    }
}

/// The part of `p` below its nearest existing path `a`.
fn missing_part(p: &str, a: &str, disk: &Snapshot) -> (r: String)
    requires
        disk.wf(),
        a@ == deepest(disk@, p@),
    ensures
        r@ == remainder(p@, a@),
{
    scan::glue(&channel_dir::missing_parts(p, a, disk), "/")
}

/// The place that a path names: where its existing part lies, with the part
/// that is missing below.
pub open spec fn place_of(p: Seq<char>, d: Disk) -> Seq<char> {
    path::joined(resolved(p, d), remainder(p, deepest(d, p)))
}

/// The place that a path names once the climbing in its missing part is taken
/// away.
pub open spec fn end_of(p: Seq<char>, d: Disk) -> Seq<char> {
    place_of(site_of(p, d), d)
}

fn end_place(p: &str, disk: &Snapshot) -> (r: String)
    requires
        disk.wf(),
    ensures
        r@ == end_of(p@, disk@),
{
    let q: String = channel_dir::site(p, disk);
    let a: String = channel_dir::deepest_existing(q.as_str(), disk);
    let rest: String = missing_part(q.as_str(), a.as_str(), disk);
    match &disk.at(a.as_str()).canonical {
        Ok(c) => path::join(c.as_str(), rest.as_str()),
        Err(_) => path::join(a.as_str(), rest.as_str()),
    }
}

/// The allowed-root invariant for a root that may not exist yet (the Hearth
/// config dir on a first run).
pub fn canonical_allowed_root_allowing_missing(name: &str, p: &str, disk: &Snapshot) -> (r: Result<
    String,
    String,
>)
    requires
        disk.wf(),
    ensures
        fs::text_result(r) == missing_root_verdict(name@, p@, disk@),
{
    if p.is_empty() || !path::is_absolute(p) {
        return Err(text::cat3(name, " root must be a non-empty absolute path, got ", p));
    }
    let a: String = channel_dir::deepest_existing(p, disk);
    if !disk.at(a.as_str()).exists {
        return Err(text::cat4(name, " root ", p, " has no existing ancestor"));
    }
    let c: String = canonical_allowed_root(name, a.as_str(), disk)?;
    if !path::starts_with(p, a.as_str()) || channel_dir::climbing(p, disk).1 {
        return Err(text::cat4(name, " root ", p, " escapes its ancestor"));
    }
    let end: String = end_place(p, disk);
    if path::same_path(end.as_str(), "/") {
        return Err(
            text::cat4(
                name,
                " root ",
                p,
                " resolves to `/` — `/` can never be write authority",
            ),
        );
    }
    let rest: String = missing_part(p, a.as_str(), disk);
    let root: String = path::join(c.as_str(), rest.as_str());
    if channel_dir::is_privileged(root.as_str()) || channel_dir::is_privileged(end.as_str()) {
        let head: String = text::cat4(name, " root ", p, " resolves under ");
        return Err(text::cat3(head.as_str(), PRIVILEGED_PREFIX, " — denylisted"));
    }
    Ok(root)
}

// ---- isolated runtime ----
/// What is wrong with a root of an isolated runtime: it has to lie beneath the
/// runtime root and off the denylist, with the part of it that is missing.
/// That part may climb, as long as what it comes to lies there too.
pub open spec fn confined_fault(
    name: Seq<char>,
    dir: Seq<char>,
    runtime: Seq<char>,
    d: Disk,
) -> Option<Seq<char>> {
    let c = resolved(dir, d);
    if dir.len() == 0 || !path::rooted(dir) {
        Some(
            "isolated "@ + name + " root must be a non-empty absolute path, got "@ + dir,
        )
    } else if !path::covers(path::key(runtime), path::key(c)) || (climbs(dir, d) && !path::covers(
        path::key(runtime),
        path::key(end_of(dir, d)),
    )) {
        Some(
            "isolated "@ + name + " root "@ + dir
                + " is not contained beneath the isolated runtime root "@ + runtime,
        )
    } else if privileged(end_of(dir, d)) {
        Some("isolated "@ + name + " root "@ + dir + " is under "@ + PRIVILEGED_PREFIX@)
    } else {
        None
    }
}

fn check_confined(name: &str, dir: &str, runtime: &str, disk: &Snapshot) -> (r: Option<String>)
    requires
        disk.wf(),
    ensures
        text::opt_text(r) == confined_fault(name@, dir@, runtime@, disk@),
{
    if dir.is_empty() || !path::is_absolute(dir) {
        return Some(
            text::cat4(
                "isolated ",
                name,
                " root must be a non-empty absolute path, got ",
                dir,
            ),
        );
    }
    let a: String = channel_dir::deepest_existing(dir, disk);
    let climbing: bool = channel_dir::climbing(dir, disk).0;
    let end: String = end_place(dir, disk);
    let c: String = match &disk.at(a.as_str()).canonical {
        Ok(c) => c.clone(),
        Err(_) => a,
    };
    if !path::starts_with(c.as_str(), runtime) || (climbing && !path::starts_with(
        end.as_str(),
        runtime,
    )) {
        let head: String = text::cat4("isolated ", name, " root ", dir);
        return Some(
            text::cat3(
                head.as_str(),
                " is not contained beneath the isolated runtime root ",
                runtime,
            ),
        );
    }
    if channel_dir::is_privileged(end.as_str()) {
        let head: String = text::cat4("isolated ", name, " root ", dir);
        return Some(text::cat3(head.as_str(), " is under ", PRIVILEGED_PREFIX));
    }
    None
}

/// What the roots come to, or why they are refused.
pub open spec fn outcome(r: Result<ProviderRoots, String>) -> Result<RootsView, Seq<char>> {
    match r {
        Ok(v) => Ok(v@),
        Err(e) => Err(e@),
    }
}

/// The roots of an isolated runtime: write authority is exactly the canonical
/// runtime root, and every provider root is confined to it.
pub open spec fn isolated_roots(
    runtime: Seq<char>,
    hearth: Seq<char>,
    herd: Seq<char>,
    homebrew: Seq<char>,
    d: Disk,
) -> Result<RootsView, Seq<char>> {
    match root_verdict("isolated runtime"@, runtime, d) {
        Err(e) => Err(e),
        Ok(root) => match (
            confined_fault("hearth"@, hearth, root, d),
            confined_fault("herd"@, herd, root, d),
            confined_fault("homebrew"@, homebrew, root, d),
        ) {
            (Some(e), _, _) => Err(e),
            (None, Some(e), _) => Err(e),
            (None, None, Some(e)) => Err(e),
            (None, None, None) => Ok(RootsView { hearth, herd, homebrew, allowed: seq![root] }),
        },
    }
}

/// The roots of a production runtime: the home scope and the Hearth config
/// dir, and Homebrew's prefix where it exists.
pub open spec fn production_roots(home: Seq<char>, config_dir: Seq<char>, d: Disk) -> Result<
    RootsView,
    Seq<char>,
> {
    match root_verdict("home"@, home, d) {
        Err(e) => Err(
            e + " — refusing to construct a production write allowlist (fail closed)"@,
        ),
        Ok(h) => match missing_root_verdict("hearth config"@, config_dir, d) {
            Err(e) => Err(e),
            Ok(own) => Ok(
                RootsView {
                    hearth: config_dir,
                    herd: path::joined(h, "Library/Application Support/Herd"@),
                    homebrew: HOMEBREW_PREFIX@,
                    allowed: match root_verdict("homebrew"@, HOMEBREW_PREFIX@, d) {
                        Ok(brew) => seq![own, h, brew],
                        Err(_) => seq![own, h],
                    },
                },
            ),
        },
    }
}

pub const HOMEBREW_PREFIX: &'static str = "/opt/homebrew";

/// The variables that redirect provider discovery.
#[derive(Debug)]
pub struct RootOverrides {
    pub herd: Option<String>,
    pub homebrew: Option<String>,
    pub isolated: Option<String>,
}

/// What the overrides hold.
pub struct OverridesView {
    pub herd: Option<Seq<char>>,
    pub homebrew: Option<Seq<char>>,
    pub isolated: Option<Seq<char>>,
}

impl View for RootOverrides {
    type V = OverridesView;

    open spec fn view(&self) -> OverridesView {
        OverridesView {
            herd: text::opt_text(self.herd),
            homebrew: text::opt_text(self.homebrew),
            isolated: text::opt_text(self.isolated),
        }
    }
}

/// What is wrong with an override that is present.
pub open spec fn override_fault(name: Seq<char>, value: Option<Seq<char>>) -> Option<Seq<char>> {
    match value {
        None => None,
        Some(v) => if v.len() == 0 {
            Some(name + " is set but empty — unset it or point it at an absolute path"@)
        } else if !path::rooted(v) {
            Some(name + " must be an absolute path, got "@ + v)
        } else {
            None
        },
    }
}

fn check_override(name: &str, value: &Option<String>) -> (r: Option<String>)
    ensures
        text::opt_text(r) == override_fault(name@, text::opt_text(*value)),
{
    match value {
        None => None,
        Some(v) => {
            if v.as_str().is_empty() {
                Some(
                    text::cat2(
                        name,
                        " is set but empty — unset it or point it at an absolute path",
                    ),
                )
            } else if !path::is_absolute(v.as_str()) {
                Some(text::cat3(name, " must be an absolute path, got ", v.as_str()))
            } else {
                None
            }
        },
    }
}

pub open spec fn detected_roots(
    env: OverridesView,
    config_dir: Seq<char>,
    home: Option<Seq<char>>,
    d: Disk,
) -> Result<RootsView, Seq<char>> {
    let herd_fault = override_fault("HEARTH_HERD_ROOT"@, env.herd);
    let brew_fault = override_fault("HEARTH_HOMEBREW_ROOT"@, env.homebrew);
    if herd_fault is Some {
        Err(herd_fault->0)
    } else if brew_fault is Some {
        Err(brew_fault->0)
    } else {
        match env.isolated {
            Some(root) => if root.len() == 0 {
                Err("HEARTH_ISOLATED_ROOT is set but empty"@)
            } else if !path::rooted(root) {
                Err("HEARTH_ISOLATED_ROOT must be absolute, got "@ + root)
            } else {
                isolated_roots(
                    root,
                    config_dir,
                    match env.herd {
                        Some(h) => h,
                        None => path::joined(root, "herd"@),
                    },
                    match env.homebrew {
                        Some(h) => h,
                        None => path::joined(root, "homebrew"@),
                    },
                    d,
                )
            },
            None => if env.herd is Some || env.homebrew is Some {
                Err(LONE_OVERRIDE@)
            } else {
                match home {
                    None => Err(NO_HOME@),
                    Some(h) => production_roots(h, config_dir, d),
                }
            },
        }
    }
}

pub const LONE_OVERRIDE: &'static str = "HEARTH_HERD_ROOT/HEARTH_HOMEBREW_ROOT are test/smoke discovery overrides and require HEARTH_ISOLATED_ROOT — refusing to alter production provider discovery or write authority";

pub const NO_HOME: &'static str = "cannot resolve the user home directory — refusing to construct a production write allowlist (fail closed)";

impl ProviderRoots {
    /// Explicit typed isolated-runtime constructor. Every root must be
    /// non-empty, absolute, outside the privileged denylist, and contained
    /// beneath `runtime_root`; write authority is exactly `runtime_root` and
    /// nothing else. Invalid inputs fail with actionable errors — never a
    /// silent fallback.
    pub fn isolated(
        runtime_root: &str,
        hearth: String,
        herd: String,
        homebrew: String,
        disk: &Snapshot,
    ) -> (r: Result<Self, String>)
        requires
            disk.wf(),
        ensures
            outcome(r) == isolated_roots(runtime_root@, hearth@, herd@, homebrew@, disk@),
            r matches Ok(roots) ==> path::rooted(roots@.allowed[0]),
    {
        proof {
            disk.is_sane();
        }
        let root: String = canonical_allowed_root("isolated runtime", runtime_root, disk)?;
        if let Some(e) = check_confined("hearth", hearth.as_str(), root.as_str(), disk) {
            return Err(e);
        }
        if let Some(e) = check_confined("herd", herd.as_str(), root.as_str(), disk) {
            return Err(e);
        }
        if let Some(e) = check_confined("homebrew", homebrew.as_str(), root.as_str(), disk) {
            return Err(e);
        }
        let mut allowed_write_roots: Vec<String> = Vec::new();
        allowed_write_roots.push(root);
        proof {
            assert(text::texts(allowed_write_roots@) =~= seq![root@]);
        }
        Ok(ProviderRoots { hearth, herd, homebrew, allowed_write_roots })
    }

    /// Production roots: canonicalize-and-validate FIRST. A home that is
    /// missing, a file, `/`, or a symlink alias of `/`/denylisted roots fails
    /// closed with no allowlist constructed.
    pub fn production_checked(home: &str, config_dir: String, disk: &Snapshot) -> (r: Result<
        Self,
        String,
    >)
        requires
            disk.wf(),
        ensures
            outcome(r) == production_roots(home@, config_dir@, disk@),
    {
        let h: String = match canonical_allowed_root("home", home, disk) {
            Ok(h) => h,
            Err(e) => {
                return Err(
                    text::cat2(
                        e.as_str(),
                        " — refusing to construct a production write allowlist (fail closed)",
                    ),
                );
            },
        };
        let own: String = canonical_allowed_root_allowing_missing(
            "hearth config",
            config_dir.as_str(),
            disk,
        )?;
        let herd: String = path::join(h.as_str(), "Library/Application Support/Herd");
        let mut allowed_write_roots: Vec<String> = Vec::new();
        allowed_write_roots.push(own);
        allowed_write_roots.push(h);
        proof {
            assert(text::texts(allowed_write_roots@) =~= seq![own@, h@]);
        }
        match canonical_allowed_root("homebrew", HOMEBREW_PREFIX, disk) {
            Ok(brew) => {
                allowed_write_roots.push(brew);
                proof {
                    assert(text::texts(allowed_write_roots@) =~= seq![own@, h@, brew@]);
                }
            },
            Err(_) => {},
        }
        Ok(
            ProviderRoots {
                hearth: config_dir,
                herd,
                homebrew: HOMEBREW_PREFIX.to_owned(),
                allowed_write_roots,
            },
        )
    }

    /// Runtime detection with fail-closed override semantics:
    ///
    /// - No overrides → production: real Hearth/Herd/Homebrew discovery
    ///   roots and the IMMUTABLE production write allowlist (Hearth config
    ///   dir, user home scope, `/opt/homebrew`).
    /// - An isolated root → [`ProviderRoots::isolated`]: the config dir and
    ///   any provider overrides must live beneath that root; write authority
    ///   is confined to it.
    /// - A lone provider override without an isolated root is an error — a
    ///   discovery override can never silently alter production behavior or
    ///   enlarge write authority.
    ///
    /// A missing home is an error too: there is NO fallback root.
    pub fn detect_with_home(
        env: RootOverrides,
        config_dir: String,
        home: Option<String>,
        disk: &Snapshot,
    ) -> (r: Result<Self, String>)
        requires
            disk.wf(),
        ensures
            outcome(r) == detected_roots(env@, config_dir@, text::opt_text(home), disk@),
    {
        if let Some(e) = check_override("HEARTH_HERD_ROOT", &env.herd) {
            return Err(e);
        }
        if let Some(e) = check_override("HEARTH_HOMEBREW_ROOT", &env.homebrew) {
            return Err(e);
        }
        match env.isolated {
            Some(root) => {
                if root.as_str().is_empty() {
                    return Err("HEARTH_ISOLATED_ROOT is set but empty".to_owned());
                }
                if !path::is_absolute(root.as_str()) {
                    return Err(
                        text::cat2("HEARTH_ISOLATED_ROOT must be absolute, got ", root.as_str()),
                    );
                }
                let herd: String = match env.herd {
                    Some(h) => h,
                    None => path::join(root.as_str(), "herd"),
                };
                let homebrew: String = match env.homebrew {
                    Some(h) => h,
                    None => path::join(root.as_str(), "homebrew"),
                };
                Self::isolated(root.as_str(), config_dir, herd, homebrew, disk)
            },
            None => {
                if env.herd.is_some() || env.homebrew.is_some() {
                    return Err(LONE_OVERRIDE.to_owned());
                }
                match home {
                    None => Err(NO_HOME.to_owned()),
                    Some(h) => Self::production_checked(h.as_str(), config_dir, disk),
                }
            },
        }
    }
}

// ---- laws ----
/// A root that was canonicalized for authority is an existing directory, neither
/// `/` nor denylisted.
pub proof fn authority_roots_are_sound(name: Seq<char>, p: Seq<char>, d: Disk)
    requires
        root_verdict(name, p, d) is Ok,
    ensures
        sound_root(root_verdict(name, p, d)->Ok_0),
        fs::facts(d, p).target is Ok && fs::facts(d, p).target->Ok_0.is_dir,
{
}

/// An isolated runtime may write below its canonical runtime root and nowhere
/// else; that root is absolute, and neither `/` nor denylisted. Each provider
/// root lies beneath it and off the denylist, and so does what it comes to
/// once it is created.
pub proof fn isolated_authority_is_the_runtime_root(
    runtime: Seq<char>,
    hearth: Seq<char>,
    herd: Seq<char>,
    homebrew: Seq<char>,
    d: Disk,
)
    requires
        fs::sane(d),
        isolated_roots(runtime, hearth, herd, homebrew, d) is Ok,
    ensures
        ({
            let r = isolated_roots(runtime, hearth, herd, homebrew, d)->Ok_0;
            &&& r.hearth == hearth && r.herd == herd && r.homebrew == homebrew
            &&& r.allowed.len() == 1
            &&& fs::facts(d, runtime).canonical == Ok::<Seq<char>, Seq<char>>(r.allowed[0])
            &&& path::rooted(r.allowed[0])
            &&& sound_root(r.allowed[0])
            &&& forall|p: Seq<char>|
                p == hearth || p == herd || p == homebrew ==> {
                    &&& path::covers(path::key(r.allowed[0]), path::key(#[trigger] resolved(p, d)))
                    &&& path::covers(path::key(r.allowed[0]), path::key(end_of(p, d)))
                    &&& !privileged(end_of(p, d))
                }
        }),
{
    let root = isolated_roots(runtime, hearth, herd, homebrew, d)->Ok_0.allowed[0];
    assert forall|p: Seq<char>| p == hearth || p == herd || p == homebrew implies path::covers(
        path::key(root),
        path::key(#[trigger] resolved(p, d)),
    ) && path::covers(path::key(root), path::key(end_of(p, d))) && !privileged(end_of(p, d)) by {
        if !climbs(p, d) {
            place_is_below(p, d);
            path::covers_transitive(
                path::key(root),
                path::key(resolved(p, d)),
                path::key(place_of(p, d)),
            );
        }
    }
}

/// A provider override never changes production authority: without an
/// isolated root it is an error.
pub proof fn lone_override_is_refused(
    env: OverridesView,
    config_dir: Seq<char>,
    home: Option<Seq<char>>,
    d: Disk,
)
    requires
        env.isolated is None,
        env.herd is Some || env.homebrew is Some,
    ensures
        detected_roots(env, config_dir, home, d) is Err,
{
}

proof fn glued_head(list: Seq<Seq<char>>, sep: Seq<char>)
    requires
        list.len() > 0,
    ensures
        list[0].is_prefix_of(scan::glued(list, sep)),
        list.len() > 1 ==> (list[0] + sep).is_prefix_of(scan::glued(list, sep)),
    decreases list.len(),
{
    if list.len() > 1 {
        glued_head(list.drop_last(), sep);
        let g = scan::glued(list.drop_last(), sep);
        let whole = scan::glued(list, sep);
        assert(whole =~= g + sep + list.last());
        assert(list[0] =~= g.take(list[0].len() as int));
        assert(list[0] =~= whole.take(list[0].len() as int));
        if list.len() == 2 {
            assert(list.drop_last()[0] == list[0]);
            assert(g == list[0]);
        } else {
            assert((list[0] + sep) =~= g.take((list[0] + sep).len() as int));
        }
        assert((list[0] + sep) =~= whole.take((list[0] + sep).len() as int));
    }
}

/// The place that a rooted path names lies below its existing part.
proof fn place_is_below(p: Seq<char>, d: Disk)
    requires
        path::rooted(p),
        fs::sane(d),
    ensures
        path::rooted(resolved(p, d)),
        path::rooted(place_of(p, d)),
        path::covers(path::key(resolved(p, d)), path::key(place_of(p, d))),
{
    let a = deepest(d, p);
    let c = resolved(p, d);
    let rest = path::parts(p).skip(path::parts(a).len() as int);
    let tail = remainder(p, a);
    channel_dir::deepest_is_no_longer(d, p);
    path::rooted_parts_are_names(p);
    if rest.len() == 0 {
        assert(tail =~= Seq::empty());
        assert(path::parts(c).is_prefix_of(path::parts(c)));
        if c.last() == '/' {
            assert(path::joined(c, tail) =~= c);
        } else {
            assert(path::joined(c, tail) =~= c.push('/'));
            path::trailing_slash(c);
        }
    } else {
        reveal_strlit("/");
        assert("/"@ =~= seq!['/']);
        glued_head(rest, "/"@);
        let first = rest[0];
        assert(first == path::parts(p)[path::parts(a).len() as int]);
        assert(path::named(first) && !first.contains('/'));
        assert(tail[0] == first[0]);
        assert(first[0] != '/');
        assert(!path::leading_dot(tail)) by {
            if path::leading_dot(tail) {
                if first.len() == 1 {
                    assert(first =~= seq!['.']);
                } else {
                    assert(tail[1] == first[1]);
                    assert(first.contains(first[1]));
                }
            }
        }
        path::join_stays_below(c, tail);
        assert(path::joined(c, tail)[0] == c[0]);
    }
}

/// A root that may be missing never comes out as `/`.
proof fn missing_root_is_not_slash(name: Seq<char>, p: Seq<char>, d: Disk)
    requires
        missing_root_verdict(name, p, d) is Ok,
        fs::sane(d),
    ensures
        path::key(missing_root_verdict(name, p, d)->Ok_0) != path::key("/"@),
        path::rooted(missing_root_verdict(name, p, d)->Ok_0),
{
    let c = root_verdict(name, deepest(d, p), d)->Ok_0;
    path::root_has_no_parts();
    place_is_below(p, d);
    assert(resolved(p, d) == c);
    if path::parts(c).len() == 0 {
        assert(path::parts(c) =~= Seq::empty());
    }
}

/// No way of detecting the roots ever makes `/` or a denylisted root write
/// authority; every root with authority is absolute.
pub proof fn write_authority_is_sound(
    env: OverridesView,
    config_dir: Seq<char>,
    home: Option<Seq<char>>,
    d: Disk,
)
    requires
        fs::sane(d),
        detected_roots(env, config_dir, home, d) is Ok,
    ensures
        ({
            let allowed = detected_roots(env, config_dir, home, d)->Ok_0.allowed;
            forall|i: int|
                0 <= i < allowed.len() ==> sound_root(#[trigger] allowed[i]) && path::rooted(
                    allowed[i],
                )
        }),
{
    if env.isolated is None {
        missing_root_is_not_slash("hearth config"@, config_dir, d);
    }
}

} // verus!
