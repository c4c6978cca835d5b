//! Trust rules for channel directories: which directory may be written to,
//! and beneath which ancestor one may be created.

use crate::fs::{self, Disk, FileMeta, PathFacts, Snapshot};
use crate::path;
use crate::scan;
use crate::text;
use vstd::prelude::*;

verus! {

/// Shared root-owned, version-blind fallback scan dir — hard-denylisted:
/// never written, never verified, always `PrivilegedDir`.
pub const PRIVILEGED_PREFIX: &'static str = "/usr/local/etc/php";

/// A directory that passed [`verify_user_channel`]. Callers re-check dev/inode
/// identity around temp-file creation + rename.
#[derive(Debug, Clone, PartialEq, Eq)]
pub struct VerifiedDir {
    pub path: String,
    pub dev: u64,
    pub ino: u64,
}

/// What a verified directory holds.
pub struct VerifiedView {
    pub path: Seq<char>,
    pub dev: u64,
    pub ino: u64,
}

impl View for VerifiedDir {
    type V = VerifiedView;

    open spec fn view(&self) -> VerifiedView {
        VerifiedView { path: self.path@, dev: self.dev, ino: self.ino }
    }
}

/// Why a directory failed channel verification.
#[derive(Debug, Clone, PartialEq, Eq)]
pub struct ChannelRejection {
    pub reason: String,
}

impl ChannelRejection {
    /// The reason as text for the user.
    pub fn message(&self) -> (r: String)
        ensures
            r@ == self.reason@,
    {
        self.reason.clone()
    }
}

/// What a verification came to.
pub open spec fn verdict(r: Result<VerifiedDir, ChannelRejection>) -> Result<
    VerifiedView,
    Seq<char>,
> {
    match r {
        Ok(v) => Ok(v@),
        Err(e) => Err(e.reason@),
    }
}

/// A path at or below the denylisted prefix.
pub open spec fn privileged(p: Seq<char>) -> bool {
    path::covers(path::key(PRIVILEGED_PREFIX@), path::key(p))
}

pub fn is_privileged(p: &str) -> (r: bool)
    ensures
        r == privileged(p@),
{
    path::starts_with(p, PRIVILEGED_PREFIX)
}

/// A file that others than its owner may write to.
pub open spec fn loose(m: FileMeta) -> bool {
    m.mode & 0o022 != 0
}

/// A path at or below one of the roots.
pub open spec fn below_any(roots: Seq<Seq<char>>, p: Seq<char>) -> bool {
    exists|i: int| 0 <= i < roots.len() && path::covers(path::key(#[trigger] roots[i]), path::key(p))
}

fn is_below_any(roots: &Vec<String>, p: &str) -> (r: bool)
    ensures
        r == below_any(text::texts(roots@), p@),
{
    let mut i: usize = 0;
    while i < roots.len()
        invariant
            i <= roots@.len(),
            forall|j: int|
                0 <= j < i ==> !path::covers(
                    path::key(#[trigger] text::texts(roots@)[j]),
                    path::key(p@),
                ),
        decreases roots@.len() - i,
    {
        proof {
            assert(text::texts(roots@)[i as int] == roots@[i as int]@);
        }
        if path::starts_with(p, roots[i].as_str()) {
            return true;
        }
        i = i + 1;
    }
    false
}

/// Whether `dir` is a safe write channel of the current user: off the
/// denylist, a real directory without symlinked components, below an allowed
/// root, owned by the user and writable by nobody else.
pub open spec fn channel_verdict(dir: Seq<char>, allowed: Seq<Seq<char>>, d: Disk) -> Result<
    VerifiedView,
    Seq<char>,
> {
    let f = fs::facts(d, dir);
    if privileged(dir) {
        Err(
            dir + " is under the shared root-owned "@ + PRIVILEGED_PREFIX@
                + " — never written by Hearth"@,
        )
    } else {
        match (f.link, f.canonical) {
            (Err((_, e)), _) => Err(dir + " is not accessible: "@ + e),
            (Ok(m), c) => if m.is_symlink {
                Err(dir + " is a symlink — channel dirs must be real directories"@)
            } else {
                match c {
                    Err(e) => Err("cannot canonicalize "@ + dir + ": "@ + e),
                    Ok(actual) => if privileged(actual) {
                        Err(
                            dir + " resolves into "@ + PRIVILEGED_PREFIX@
                                + " — never written by Hearth"@,
                        )
                    } else if path::key(actual) != path::key(dir) {
                        Err(
                            dir + " contains a symlinked path component (resolves to "@ + actual
                                + ")"@,
                        )
                    } else if !below_any(allowed, actual) {
                        Err(actual + " is outside the allowed channel roots"@)
                    } else {
                        owned_dir(actual, f.target, d.euid)
                    },
                }
            },
        }
    }
}

/// What is asked last: a directory, owned and closed to others.
pub open spec fn owned_dir(actual: Seq<char>, target: Result<FileMeta, Seq<char>>, euid: u32) -> Result<
    VerifiedView,
    Seq<char>,
> {
    match target {
        Err(e) => Err(actual + ": "@ + e),
        Ok(m) => if !m.is_dir {
            Err(actual + " is not a directory"@)
        } else if m.uid != euid {
            Err(
                actual + " is not owned by the current user (uid "@ + text::decimal(m.uid as nat)
                    + ") — fix with chown"@,
            )
        } else if loose(m) {
            Err(
                actual + " is group/other-writable (mode "@ + text::octal((m.mode & 0o7777) as nat)
                    + ") — fix with chmod go-w"@,
            )
        } else {
            Ok(VerifiedView { path: actual, dev: m.dev, ino: m.ino })
        },
    }
}

fn check_owned_dir(actual: &str, target: &Result<FileMeta, String>, euid: u32) -> (r: Result<
    VerifiedDir,
    ChannelRejection,
>)
    ensures
        verdict(r) == owned_dir(
            actual@,
            match *target {
                Ok(m) => Ok(m),
                Err(e) => Err(e@),
            },
            euid,
        ),
{
    match target {
        Err(e) => Err(ChannelRejection { reason: text::cat3(actual, ": ", e.as_str()) }),
        Ok(m) => {
            if !m.is_dir {
                return Err(ChannelRejection { reason: text::cat2(actual, " is not a directory") });
            }
            if m.uid != euid {
                let uid: String = text::decimal_string(m.uid as u64);
                return Err(
                    ChannelRejection {
                        reason: text::cat4(
                            actual,
                            " is not owned by the current user (uid ",
                            uid.as_str(),
                            ") — fix with chown",
                        ),
                    },
                );
            }
            if m.mode & 0o022 != 0 {
                let mode: String = text::octal_number(m.mode & 0o7777);
                return Err(
                    ChannelRejection {
                        reason: text::cat4(
                            actual,
                            " is group/other-writable (mode ",
                            mode.as_str(),
                            ") — fix with chmod go-w",
                        ),
                    },
                );
            }
            Ok(VerifiedDir { path: actual.to_owned(), dev: m.dev, ino: m.ino })
        },
    }
}

/// Verify a probed scan dir as a safe user-owned write channel:
/// canonical-path allowlist, no symlink components, owned by the user,
/// no group/other write. Ambient dirs must already exist — nothing is ever
/// created here.
pub fn verify_user_channel(dir: &str, allowed_roots: &Vec<String>, disk: &Snapshot) -> (r: Result<
    VerifiedDir,
    ChannelRejection,
>)
    requires
        disk.wf(),
    ensures
        verdict(r) == channel_verdict(dir@, text::texts(allowed_roots@), disk@),
{
    if is_privileged(dir) {
        return Err(
            ChannelRejection {
                reason: text::cat4(
                    dir,
                    " is under the shared root-owned ",
                    PRIVILEGED_PREFIX,
                    " — never written by Hearth",
                ),
            },
        );
    }
    let f: &PathFacts = disk.at(dir);
    match &f.link {
        Err(e) => {
            return Err(
                ChannelRejection { reason: text::cat3(dir, " is not accessible: ", e.text.as_str()) },
            );
        },
        Ok(m) => {
            if m.is_symlink {
                return Err(
                    ChannelRejection {
                        reason: text::cat2(
                            dir,
                            " is a symlink — channel dirs must be real directories",
                        ),
                    },
                );
            }
        },
    }
    match &f.canonical {
        Err(e) => Err(
            ChannelRejection { reason: text::cat4("cannot canonicalize ", dir, ": ", e.as_str()) },
        ),
        Ok(actual) => {
            if is_privileged(actual.as_str()) {
                return Err(
                    ChannelRejection {
                        reason: text::cat4(
                            dir,
                            " resolves into ",
                            PRIVILEGED_PREFIX,
                            " — never written by Hearth",
                        ),
                    },
                );
            }
            if !path::same_path(actual.as_str(), dir) {
                return Err(
                    ChannelRejection {
                        reason: text::cat4(
                            dir,
                            " contains a symlinked path component (resolves to ",
                            actual.as_str(),
                            ")",
                        ),
                    },
                );
            }
            if !is_below_any(allowed_roots, actual.as_str()) {
                return Err(
                    ChannelRejection {
                        reason: text::cat2(actual.as_str(), " is outside the allowed channel roots"),
                    },
                );
            }
            check_owned_dir(actual.as_str(), &f.target, disk.user())
        },
    }
}

/// A verified channel is off the denylist, below an allowed root, an actual
/// directory of the user, and closed to others.
pub proof fn verified_channel_is_safe(dir: Seq<char>, allowed: Seq<Seq<char>>, d: Disk)
    requires
        channel_verdict(dir, allowed, d) is Ok,
    ensures
        !privileged(dir),
        ({
            let v = channel_verdict(dir, allowed, d)->Ok_0;
            let f = fs::facts(d, dir);
            &&& path::key(v.path) == path::key(dir)
            &&& !privileged(v.path)
            &&& below_any(allowed, v.path)
            &&& f.link is Ok && !f.link->Ok_0.is_symlink
            &&& f.target is Ok && f.target->Ok_0.is_dir && f.target->Ok_0.uid == d.euid && !loose(
                f.target->Ok_0,
            )
            &&& v.dev == f.target->Ok_0.dev && v.ino == f.target->Ok_0.ino
        }),
{
}

// ---- creation ----
proof fn dir_of_shorter(p: Seq<char>)
    requires
        path::parts(p).len() > 0,
    ensures
        path::parts(path::dir_of(p)).len() == path::parts(p).len() - 1,
        path::key(path::dir_of(p)) == path::up(path::key(p)),
{
    path::dir_of_is_parent(p);
}

/// The nearest path that exists, from `p` upwards; the topmost one where none
/// does.
pub open spec fn deepest(d: Disk, p: Seq<char>) -> Seq<char>
    decreases path::parts(p).len(),
    via deepest_terminates
{
    if fs::facts(d, p).exists || path::parts(p).len() == 0 {
        p
    } else {
        deepest(d, path::dir_of(p))
    }
}

#[via_fn]
proof fn deepest_terminates(d: Disk, p: Seq<char>) {
    if path::parts(p).len() > 0 {
        dir_of_shorter(p);
    }
}

/// The nearest existing path from `p` upwards.
pub fn deepest_existing(p: &str, disk: &Snapshot) -> (r: String)
    requires
        disk.wf(),
    ensures
        r@ == deepest(disk@, p@),
{
    let mut cur: String = p.to_owned();
    loop
        invariant
            disk.wf(),
            deepest(disk@, p@) == deepest(disk@, cur@),
        ensures
            cur@ == deepest(disk@, p@),
        decreases path::parts(cur@).len(),
    {
        if disk.at(cur.as_str()).exists {
            break;
        }
        let whole: path::PathParts = path::split(cur.as_str());
        proof {
            assert(whole@.parts.len() == whole.parts@.len());
        }
        if whole.parts.len() == 0 {
            break;
        }
        proof {
            dir_of_shorter(cur@);
        }
        cur = path::directory(cur.as_str());
    }
    cur
}

/// The nearest existing path has no more components than the path itself, and
/// is rooted where that is.
pub proof fn deepest_is_no_longer(d: Disk, p: Seq<char>)
    ensures
        path::parts(deepest(d, p)).len() <= path::parts(p).len(),
        path::rooted(deepest(d, p)) == path::rooted(p),
    decreases path::parts(p).len(),
{
    if !fs::facts(d, p).exists && path::parts(p).len() > 0 {
        dir_of_shorter(p);
        deepest_is_no_longer(d, path::dir_of(p));
    }
}

/// The components of a path that are missing: those below the nearest existing
/// path.
pub open spec fn missing(p: Seq<char>, d: Disk) -> Seq<Seq<char>> {
    path::parts(p).skip(path::parts(deepest(d, p)).len() as int)
}

/// The missing components of `p`, which begin below `existing`.
pub fn missing_parts(p: &str, existing: &str, disk: &Snapshot) -> (r: Vec<String>)
    requires
        disk.wf(),
        existing@ == deepest(disk@, p@),
    ensures
        text::texts(r@) == missing(p@, disk@),
{
    let whole: path::PathParts = path::split(p);
    let upper: path::PathParts = path::split(existing);
    let from: usize = upper.parts.len();
    let mut below: Vec<String> = Vec::new();
    let mut i: usize = from;
    let ghost all = path::parts(p@);
    proof {
        deepest_is_no_longer(disk@, p@);
        assert(upper@.parts.len() == from);
        assert(whole@.parts == all);
        assert(text::texts(below@) =~= all.skip(from as int).take(0));
    }
    while i < whole.parts.len()
        invariant
            from <= i <= all.len(),
            all == text::texts(whole.parts@),
            text::texts(below@) == all.skip(from as int).take(i - from),
        decreases whole.parts@.len() - i,
    {
        let ghost before = below@;
        below.push(whole.parts[i].clone());
        proof {
            assert(text::texts(below@) =~= text::texts(before).push(all[i as int]));
            assert(all.skip(from as int).take(i + 1 - from) =~= all.skip(from as int).take(
                i - from,
            ).push(all[i as int]));
        }
        i = i + 1;
    }
    proof {
        assert(all.skip(from as int).take(i - from) =~= all.skip(from as int));
    }
    below
}

/// Whether the missing part of a path climbs: one of its components is `..`.
pub open spec fn climbs(p: Seq<char>, d: Disk) -> bool {
    missing(p, d).contains(".."@)
}

/// How far below its start a walk along the components ends.
pub open spec fn depth(m: Seq<Seq<char>>) -> int
    decreases m.len(),
{
    if m.len() == 0 {
        0
    } else if m.last() == ".."@ {
        depth(m.drop_last()) - 1
    } else {
        depth(m.drop_last()) + 1
    }
}

/// Whether the missing part of a path leads out of the existing one. What is
/// missing cannot be a link, so counting `..` against names is exact.
pub open spec fn leaves(p: Seq<char>, d: Disk) -> bool {
    exists|i: int| 0 <= i <= missing(p, d).len() && depth(#[trigger] missing(p, d).take(i)) < 0
}

/// Where a walk along the components ends that starts at `base`: a name goes
/// down, `..` goes up, and at the top it stays.
pub open spec fn landed(base: Seq<Seq<char>>, m: Seq<Seq<char>>) -> Seq<Seq<char>>
    decreases m.len(),
{
    if m.len() == 0 {
        base
    } else {
        let before = landed(base, m.drop_last());
        if m.last() != ".."@ {
            before.push(m.last())
        } else if before.len() > 0 {
            before.drop_last()
        } else {
            before
        }
    }
}

/// Where the existing part of a path lies.
pub open spec fn resolved(p: Seq<char>, d: Disk) -> Seq<char> {
    let a = deepest(d, p);
    match fs::facts(d, a).canonical {
        Ok(c) => c,
        Err(_) => a,
    }
}

/// A path without the climbing in its missing part. It starts at the existing
/// part; where it leads out of that, at where that part lies.
pub open spec fn landing(p: Seq<char>, d: Disk) -> Seq<char> {
    let base = if leaves(p, d) {
        resolved(p, d)
    } else {
        deepest(d, p)
    };
    let names = scan::glued(landed(path::parts(base), missing(p, d)), "/"@);
    if path::rooted(base) {
        "/"@ + names
    } else {
        names
    }
}

/// The path that a path stands for: itself, or what its climbing comes to.
pub open spec fn site_of(p: Seq<char>, d: Disk) -> Seq<char> {
    if climbs(p, d) {
        landing(p, d)
    } else {
        p
    }
}

fn follow(m: &Vec<String>, p: &str, disk: &Snapshot) -> (r: (bool, bool))
    requires
        text::texts(m@) == missing(p@, disk@),
    ensures
        r.0 == climbs(p@, disk@),
        r.1 == leaves(p@, disk@),
{
    let ghost all = text::texts(m@);
    let mut up: bool = false;
    let mut out: bool = false;
    let mut below: usize = 0;
    let mut i: usize = 0;
    proof {
        assert(all.take(0) =~= Seq::empty());
    }
    while i < m.len()
        invariant
            i <= m@.len(),
            all == text::texts(m@),
            all == missing(p@, disk@),
            up == (exists|k: int| 0 <= k < i && #[trigger] all[k] == ".."@),
            !out ==> below == depth(all.take(i as int)),
            below <= i,
            out == (exists|k: int| 0 <= k <= i && depth(#[trigger] all.take(k)) < 0),
        decreases m@.len() - i,
    {
        let climb: bool = text::same(m[i].as_str(), "..");
        proof {
            assert(all[i as int] == m@[i as int]@);
            let t = all.take(i + 1);
            assert(t.drop_last() =~= all.take(i as int));
            assert(t.last() == all[i as int]);
        }
        let ghost was = out;
        if climb {
            up = true;
            if below == 0 {
                out = true;
            } else {
                below = below - 1;
            }
        } else {
            below = below + 1;
        }
        proof {
            let n = i + 1;
            if was {
                let k = choose|k: int| 0 <= k <= i && depth(#[trigger] all.take(k)) < 0;
                assert(0 <= k <= n && depth(all.take(k)) < 0);
            } else if out {
                assert(depth(all.take(n as int)) < 0);
            } else {
                assert(depth(all.take(n as int)) == below);
            }
        }
        i = i + 1;
    }
    (up, out)
}

fn climb_from(base: &str, m: &Vec<String>) -> (r: String)
    ensures
        r@ == ({
            let names = scan::glued(landed(path::parts(base@), text::texts(m@)), "/"@);
            if path::rooted(base@) {
                "/"@ + names
            } else {
                names
            }
        }),
{
    let whole: path::PathParts = path::split(base);
    let ghost start = path::parts(base@);
    let ghost all = text::texts(m@);
    let mut walk: Vec<String> = whole.parts;
    let mut i: usize = 0;
    proof {
        assert(text::texts(walk@) == start);
        assert(all.take(0) =~= Seq::empty());
    }
    while i < m.len()
        invariant
            i <= m@.len(),
            all == text::texts(m@),
            text::texts(walk@) == landed(start, all.take(i as int)),
        decreases m@.len() - i,
    {
        let ghost before = walk@;
        proof {
            assert(all[i as int] == m@[i as int]@);
            let t = all.take(i + 1);
            assert(t.drop_last() =~= all.take(i as int));
            assert(t.last() == all[i as int]);
            assert(text::texts(walk@).len() == walk@.len());
        }
        if text::same(m[i].as_str(), "..") {
            walk.pop();
            proof {
                if before.len() > 0 {
                    assert(text::texts(walk@) =~= text::texts(before).drop_last());
                }
            }
        } else {
            walk.push(m[i].clone());
            proof {
                assert(text::texts(walk@) =~= text::texts(before).push(all[i as int]));
            }
        }
        i = i + 1;
    }
    proof {
        assert(all.take(i as int) =~= all);
    }
    let names: String = scan::glue(&walk, "/");
    if path::is_absolute(base) {
        text::cat2("/", names.as_str())
    } else {
        names
    }
}

/// The path that a path stands for once the climbing in its missing part is
/// taken away. A snapshot that is to decide on the path holds this one too.
pub fn site(p: &str, disk: &Snapshot) -> (r: String)
    requires
        disk.wf(),
    ensures
        r@ == site_of(p@, disk@),
{
    let a: String = deepest_existing(p, disk);
    let m: Vec<String> = missing_parts(p, a.as_str(), disk);
    let (up, out) = follow(&m, p, disk);
    if !up {
        return p.to_owned();
    }
    if !out {
        return climb_from(a.as_str(), &m);
    }
    match &disk.at(a.as_str()).canonical {
        Ok(c) => climb_from(c.as_str(), &m),
        Err(_) => climb_from(a.as_str(), &m),
    }
}

/// Whether the missing part of a path climbs, and whether it leads out of the
/// existing one.
pub fn climbing(p: &str, disk: &Snapshot) -> (r: (bool, bool))
    requires
        disk.wf(),
    ensures
        r.0 == climbs(p@, disk@),
        r.1 == leaves(p@, disk@),
{
    let a: String = deepest_existing(p, disk);
    let m: Vec<String> = missing_parts(p, a.as_str(), disk);
    follow(&m, p, disk)
}

/// Every existing directory from the Hearth root down to the ancestor must be
/// inspectable and no symlink; `walk` is the part already checked.
pub open spec fn walk_fault(d: Disk, walk: Seq<char>, rest: Seq<Seq<char>>) -> Option<Seq<char>>
    decreases rest.len(),
{
    if rest.len() == 0 {
        None
    } else {
        let next = path::joined(walk, rest[0]);
        match fs::facts(d, next).link {
            Err((_, e)) => Some(next + ": "@ + e),
            Ok(m) => if m.is_symlink {
                Some(next + " is a symlink — refusing to create a channel dir beneath it"@)
            } else {
                walk_fault(d, next, rest.drop_first())
            },
        }
    }
}

/// Whether `dir` may be created below the Hearth root: what the canonical
/// root is, or why not. Where its missing part climbs, what that comes to must
/// pass too: nothing is created outside the root or through a link.
pub open spec fn creation_verdict(root: Seq<char>, dir: Seq<char>, d: Disk) -> Result<
    Seq<char>,
    Seq<char>,
> {
    match direct_verdict(root, dir, d) {
        Err(e) => Err(e),
        Ok(actual_root) => {
            let from = if leaves(dir, d) {
                actual_root
            } else {
                root
            };
            match direct_verdict(from, site_of(dir, d), d) {
                Err(e) if climbs(dir, d) => Err(e),
                _ => Ok(actual_root),
            }
        },
    }
}

/// The same for the path as it is written.
pub open spec fn direct_verdict(root: Seq<char>, dir: Seq<char>, d: Disk) -> Result<
    Seq<char>,
    Seq<char>,
> {
    let ancestor = deepest(d, dir);
    let below = path::parts(ancestor).skip(path::parts(root).len() as int);
    if !path::covers(path::key(root), path::key(dir)) {
        Err(
            dir + " is outside the Hearth root "@ + root
                + " — only Hearth-owned channels may be created"@,
        )
    } else if privileged(dir) {
        Err(dir + " is under "@ + PRIVILEGED_PREFIX@ + " — never written by Hearth"@)
    } else if !fs::facts(d, ancestor).exists {
        Err(dir + " has no existing ancestor"@)
    } else if !path::covers(path::key(root), path::key(ancestor)) {
        Err("existing ancestor "@ + ancestor + " escapes the Hearth root "@ + root)
    } else if walk_fault(d, root, below) is Some {
        Err(walk_fault(d, root, below)->0)
    } else {
        match (fs::facts(d, ancestor).canonical, fs::facts(d, root).canonical) {
            (Err(e), _) => Err("cannot canonicalize "@ + ancestor + ": "@ + e),
            (Ok(_), Err(e)) => Err("cannot canonicalize "@ + root + ": "@ + e),
            (Ok(actual), Ok(actual_root)) => match ancestor_fault(
                actual,
                actual_root,
                fs::facts(d, ancestor).target,
                d.euid,
            ) {
                Some(e) => Err(e),
                None => Ok(actual_root),
            },
        }
    }
}

/// What is wrong with creating beneath an existing ancestor.
pub open spec fn ancestor_fault(
    actual: Seq<char>,
    actual_root: Seq<char>,
    target: Result<FileMeta, Seq<char>>,
    euid: u32,
) -> Option<Seq<char>> {
    if !path::covers(path::key(actual_root), path::key(actual)) {
        Some(
            "existing ancestor "@ + actual + " resolves outside the Hearth root "@ + actual_root,
        )
    } else if privileged(actual) {
        Some("existing ancestor "@ + actual + " resolves into "@ + PRIVILEGED_PREFIX@)
    } else {
        match target {
            Err(e) => Some(actual + ": "@ + e),
            Ok(m) => if !m.is_dir {
                Some(actual + " is not a directory"@)
            } else if m.uid != euid {
                Some(
                    actual + " is not owned by the current user — refusing to create beneath it"@,
                )
            } else if loose(m) {
                Some(
                    actual + " is group/other-writable (mode "@ + text::octal(
                        (m.mode & 0o7777) as nat,
                    ) + ") — refusing to create beneath it"@,
                )
            } else {
                None
            },
        }
    }
}

fn check_ancestor(actual: &str, actual_root: &str, target: &Result<FileMeta, String>, euid: u32) -> (r:
    Option<String>)
    ensures
        text::opt_text(r) == ancestor_fault(
            actual@,
            actual_root@,
            match *target {
                Ok(m) => Ok(m),
                Err(e) => Err(e@),
            },
            euid,
        ),
{
    if !path::starts_with(actual, actual_root) {
        return Some(
            text::cat4(
                "existing ancestor ",
                actual,
                " resolves outside the Hearth root ",
                actual_root,
            ),
        );
    }
    if is_privileged(actual) {
        return Some(
            text::cat4("existing ancestor ", actual, " resolves into ", PRIVILEGED_PREFIX),
        );
    }
    match target {
        Err(e) => Some(text::cat3(actual, ": ", e.as_str())),
        Ok(m) => {
            if !m.is_dir {
                Some(text::cat2(actual, " is not a directory"))
            } else if m.uid != euid {
                Some(
                    text::cat2(
                        actual,
                        " is not owned by the current user — refusing to create beneath it",
                    ),
                )
            } else if m.mode & 0o022 != 0 {
                let mode: String = text::octal_number(m.mode & 0o7777);
                Some(
                    text::cat4(
                        actual,
                        " is group/other-writable (mode ",
                        mode.as_str(),
                        ") — refusing to create beneath it",
                    ),
                )
            } else {
                None
            }
        },
    }
}

fn check_walk(root: &str, parts: &Vec<String>, from: usize, disk: &Snapshot) -> (r: Option<String>)
    requires
        disk.wf(),
        from <= parts@.len(),
    ensures
        text::opt_text(r) == walk_fault(disk@, root@, text::texts(parts@).skip(from as int)),
{
    let mut walk: String = root.to_owned();
    let mut i: usize = from;
    let ghost all = text::texts(parts@);
    while i < parts.len()
        invariant
            disk.wf(),
            from <= i <= parts@.len(),
            all == text::texts(parts@),
            walk_fault(disk@, root@, all.skip(from as int)) == walk_fault(
                disk@,
                walk@,
                all.skip(i as int),
            ),
        decreases parts@.len() - i,
    {
        proof {
            assert(all.skip(i as int)[0] == parts@[i as int]@);
            assert(all.skip(i as int).drop_first() =~= all.skip(i + 1));
        }
        let next: String = path::join(walk.as_str(), parts[i].as_str());
        match &disk.at(next.as_str()).link {
            Err(e) => {
                return Some(text::cat3(next.as_str(), ": ", e.text.as_str()));
            },
            Ok(m) => {
                if m.is_symlink {
                    return Some(
                        text::cat2(
                            next.as_str(),
                            " is a symlink — refusing to create a channel dir beneath it",
                        ),
                    );
                }
            },
        }
        walk = next;
        i = i + 1;
    }
    None
}

pub open spec fn creation(r: Result<String, ChannelRejection>) -> Result<Seq<char>, Seq<char>> {
    match r {
        Ok(s) => Ok(s@),
        Err(e) => Err(e.reason@),
    }
}

fn rejected<T>(reason: String) -> (r: Result<T, ChannelRejection>)
    ensures
        r matches Err(e) && e.reason@ == reason@,
{
    Err(ChannelRejection { reason })
}

fn check_direct(hearth_root: &str, dir: &str, disk: &Snapshot) -> (r: Result<
    String,
    ChannelRejection,
>)
    requires
        disk.wf(),
    ensures
        creation(r) == direct_verdict(hearth_root@, dir@, disk@),
{
    let ancestor: String = deepest_existing(dir, disk);
    if !path::starts_with(dir, hearth_root) {
        return rejected(
            text::cat4(
                dir,
                " is outside the Hearth root ",
                hearth_root,
                " — only Hearth-owned channels may be created",
            ),
        );
    }
    if is_privileged(dir) {
        return rejected(
            text::cat4(dir, " is under ", PRIVILEGED_PREFIX, " — never written by Hearth"),
        );
    }
    let seen: &PathFacts = disk.at(ancestor.as_str());
    if !seen.exists {
        return rejected(text::cat2(dir, " has no existing ancestor"));
    }
    if !path::starts_with(ancestor.as_str(), hearth_root) {
        return rejected(
            text::cat4(
                "existing ancestor ",
                ancestor.as_str(),
                " escapes the Hearth root ",
                hearth_root,
            ),
        );
    }
    let whole: path::PathParts = path::split(ancestor.as_str());
    let root_parts: path::PathParts = path::split(hearth_root);
    let from: usize = root_parts.parts.len();
    proof {
        assert(whole@.parts.len() == whole.parts@.len());
        assert(root_parts@.parts.len() == from);
    }
    match check_walk(hearth_root, &whole.parts, from, disk) {
        Some(reason) => {
            return rejected(reason);
        },
        None => {},
    }
    match (&seen.canonical, &disk.at(hearth_root).canonical) {
        (Err(e), _) => rejected(
            text::cat4("cannot canonicalize ", ancestor.as_str(), ": ", e.as_str()),
        ),
        (Ok(_), Err(e)) => rejected(
            text::cat4("cannot canonicalize ", hearth_root, ": ", e.as_str()),
        ),
        (Ok(actual), Ok(actual_root)) => match check_ancestor(
            actual.as_str(),
            actual_root.as_str(),
            &seen.target,
            disk.user(),
        ) {
            Some(reason) => rejected(reason),
            None => Ok(actual_root.clone()),
        },
    }
}

/// Whether a missing Hearth-owned channel directory may be created, under the
/// same trust rules as [`verify_user_channel`] — never asked for ambient
/// (Herd or Homebrew) channels, which must preexist.
///
/// Before any filesystem mutation: the target must be lexically under the
/// Hearth root; the deepest EXISTING ancestor is walked component-by-component
/// (each rejected if a symlink), canonicalized, re-checked against the Hearth
/// root and the privileged denylist, and required to be a user-owned,
/// non-group/other-writable directory. The result is the canonical root that
/// [`created_channel_dir`] verifies the directory against.
pub fn ensure_hearth_channel_dir(hearth_root: &str, dir: &str, disk: &Snapshot) -> (r: Result<
    String,
    ChannelRejection,
>)
    requires
        disk.wf(),
    ensures
        creation(r) == creation_verdict(hearth_root@, dir@, disk@),
{
    let actual_root: String = match check_direct(hearth_root, dir, disk) {
        Ok(actual_root) => actual_root,
        Err(e) => {
            return Err(e);
        },
    };
    let (up, out) = climbing(dir, disk);
    if up {
        let from: &str = if out {
            actual_root.as_str()
        } else {
            hearth_root
        };
        let end: String = site(dir, disk);
        if let Err(e) = check_direct(from, end.as_str(), disk) {
            return Err(e);
        }
    }
    Ok(actual_root)
}

/// What a creation came to: the directory must still pass as a channel.
pub open spec fn created_verdict(
    dir: Seq<char>,
    actual_root: Seq<char>,
    made: Result<(), Seq<char>>,
    d: Disk,
) -> Result<VerifiedView, Seq<char>> {
    match made {
        Err(e) => Err("creating "@ + dir + " failed: "@ + e),
        Ok(_) => channel_verdict(dir, seq![actual_root], d),
    }
}

/// Verifies a directory that was just created below the canonical root.
pub fn created_channel_dir(
    dir: &str,
    canonical_root: &str,
    made: Result<(), String>,
    disk: &Snapshot,
) -> (r: Result<VerifiedDir, ChannelRejection>)
    requires
        disk.wf(),
    ensures
        verdict(r) == created_verdict(
            dir@,
            canonical_root@,
            match made {
                Ok(_) => Ok(()),
                Err(e) => Err(e@),
            },
            disk@,
        ),
{
    match made {
        Err(e) => rejected(text::cat4("creating ", dir, " failed: ", e.as_str())),
        Ok(_) => {
            let mut roots: Vec<String> = Vec::new();
            roots.push(canonical_root.to_owned());
            proof {
                assert(text::texts(roots@) =~= seq![canonical_root@]);
            }
            verify_user_channel(dir, &roots, disk)
        },
    }
}

} // verus!
