//! From discovered binaries to targets: which channel directories are to be
//! created, which binaries may be probed, and what each target may write.

use crate::config::{IniStore, PhpIniSettings};
use crate::fs::{self, Disk, Snapshot};
use crate::path;
use crate::php::channel_dir::{self, channel_verdict, verify_user_channel};
use crate::php::hearth_channel;
use crate::php::roots::RootsView;
use crate::php::rows::bare;
use crate::php::targets::{
    channel_layout, class_of, classify_channel, expected_channel_dir, identities, identity_verdict,
    layout, unprobed, verified_class_is_in_authority, verify_binary_identity, ChannelClass, ClassView,
    IdentityView, PhpProvider,
    PhpSapi, PhpTarget, PhpTargetIdentity, ProbeInfo, ProbeView, ProviderRoots, TargetView,
};
use crate::socket::{FileOutcome, FileResultView, FileView, FileWriteResult};
use crate::text;
use vstd::prelude::*;

verus! {

// ---- channel directories ----
pub open spec fn is_dir(p: Seq<char>, d: Disk) -> bool {
    let t = fs::facts(d, p).target;
    t is Ok && t->Ok_0.is_dir
}

pub open spec fn lists(dirs: Seq<Seq<char>>, p: Seq<char>) -> bool {
    exists|i: int| 0 <= i < dirs.len() && path::key(#[trigger] dirs[i]) == path::key(p)
}

/// The Hearth channels to be created for the first `n` binaries: those of
/// configured versions that are not there, each once.
pub open spec fn missing_channels(
    ids: Seq<IdentityView>,
    n: int,
    ini: IniStore,
    hearth: Seq<char>,
    d: Disk,
) -> Seq<Seq<char>>
    decreases n,
{
    if n <= 0 {
        Seq::empty()
    } else {
        let before = missing_channels(ids, n - 1, ini, hearth, d);
        let id = ids[n - 1];
        let dir = hearth_channel(hearth, id.version);
        if id.provider == PhpProvider::Hearth && !bare(ini, id.version) && !lists(before, dir)
            && !is_dir(dir, d) {
            before.push(dir)
        } else {
            before
        }
    }
}

fn listed(dirs: &Vec<String>, p: &str) -> (r: bool)
    ensures
        r == lists(text::texts(dirs@), p@),
{
    let ghost all = text::texts(dirs@);
    let mut i: usize = 0;
    while i < dirs.len()
        invariant
            i <= dirs.len(),
            all == text::texts(dirs@),
            forall|j: int| 0 <= j < i ==> path::key(#[trigger] all[j]) != path::key(p@),
        decreases dirs.len() - i,
    {
        assert(all[i as int] == dirs@[i as int]@);
        if path::same_path(dirs[i].as_str(), p) {
            return true;
        }
        i = i + 1;
    }
    false
}

/// Ambient (Herd/Homebrew) channels must preexist and are never created; a
/// missing Hearth-owned conf.d for a configured version is.
pub fn missing_hearth_channels(
    ids: &Vec<PhpTargetIdentity>,
    php_ini: &PhpIniSettings,
    roots: &ProviderRoots,
    disk: &Snapshot,
) -> (r: Vec<String>)
    requires
        php_ini.wf(),
        disk.wf(),
    ensures
        text::texts(r@) == missing_channels(
            identities(ids@),
            ids@.len() as int,
            php_ini@,
            roots@.hearth,
            disk@,
        ),
{
    let mut dirs: Vec<String> = Vec::new();
    let ghost all = identities(ids@);
    let mut i: usize = 0;
    proof {
        assert(text::texts(dirs@) =~= Seq::empty());
    }
    while i < ids.len()
        invariant
            i <= ids.len(),
            php_ini.wf(),
            disk.wf(),
            all == identities(ids@),
            text::texts(dirs@) == missing_channels(
                all,
                i as int,
                php_ini@,
                roots@.hearth,
                disk@,
            ),
        decreases ids.len() - i,
    {
        let id: &PhpTargetIdentity = &ids[i];
        assert(all[i as int] == id@);
        let ghost before = dirs@;
        if id.provider == PhpProvider::Hearth && !php_ini.effective_for(
            id.version.as_str(),
        ).is_empty() {
            let php: String = path::join(roots.hearth_root(), "php");
            let own: String = path::join(php.as_str(), id.version.as_str());
            let dir: String = path::join(own.as_str(), "conf.d");
            let there: bool = match &disk.at(dir.as_str()).target {
                Ok(m) => m.is_dir,
                Err(_) => false,
            };
            if !listed(&dirs, dir.as_str()) && !there {
                dirs.push(dir);
                proof {
                    assert(text::texts(dirs@) =~= text::texts(before).push(dir@));
                }
            }
        }
        i = i + 1;
    }
    dirs
}

pub open spec fn refused_channel(dir: Seq<char>, rejection: Seq<char>) -> FileView {
    FileView {
        path: dir,
        result: FileResultView::Failed {
            error: "channel dir creation refused: "@ + rejection,
        },
    }
}

/// A refused or failed creation is a typed `Failed` file outcome so the
/// central hard-failure gate fires.
pub fn creation_failure(dir: &str, rejection: &str) -> (r: FileOutcome)
    ensures
        r@ == refused_channel(dir@, rejection@),
{
    FileOutcome {
        path: dir.to_owned(),
        result: FileWriteResult::Failed {
            error: text::cat2("channel dir creation refused: ", rejection),
        },
    }
}

// ---- targets ----
pub const FPM_UNEXECUTED: &'static str =
    "fpm binaries are never executed for classification — FPM runs `-i` only as the service launch probe";

pub open spec fn identity_of(id: IdentityView, roots: RootsView, d: Disk) -> Result<
    Seq<char>,
    Seq<char>,
> {
    identity_verdict(
        id.provider,
        layout(id.provider, id.sapi, id.version, roots.hearth, roots.herd, roots.homebrew),
        roots.hearth,
        roots.herd,
        roots.homebrew,
        d,
    )
}

/// Whether a binary may be executed to classify it: only a CLI of verified
/// identity.
pub open spec fn probeable(id: IdentityView, roots: RootsView, d: Disk) -> bool {
    id.sapi == PhpSapi::Cli && identity_of(id, roots, d) is Ok
}

pub fn may_probe(id: &PhpTargetIdentity, roots: &ProviderRoots, disk: &Snapshot) -> (r: bool)
    requires
        disk.wf(),
    ensures
        r == probeable(id@, roots@, disk@),
{
    id.sapi == PhpSapi::Cli && verify_binary_identity(
        id.provider,
        id.version.as_str(),
        id.sapi,
        roots,
        disk,
    ).is_ok()
}

/// The first failure, from `i` on, that starts like this.
pub open spec fn failure_like(failures: Seq<Seq<char>>, prefix: Seq<char>, i: int) -> Option<
    Seq<char>,
>
    decreases failures.len() - i,
{
    if i < 0 || i >= failures.len() {
        None
    } else if prefix.is_prefix_of(failures[i]) {
        Some(failures[i])
    } else {
        failure_like(failures, prefix, i + 1)
    }
}

fn context_failure(info: &ProbeInfo, prefix: &str) -> (r: Option<String>)
    ensures
        text::opt_text(r) == failure_like(info@.failures, prefix@, 0),
{
    let ghost all = info@.failures;
    let mut i: usize = 0;
    while i < info.failures.len()
        invariant
            i <= info.failures.len(),
            all == text::texts(info.failures@),
            failure_like(all, prefix@, 0) == failure_like(all, prefix@, i as int),
        decreases info.failures.len() - i,
    {
        assert(all[i as int] == info.failures@[i as int]@);
        if text::starts_with(info.failures[i].as_str(), prefix) {
            return Some(info.failures[i].clone());
        }
        i = i + 1;
    }
    None
}

pub open spec fn channel_of(
    id: IdentityView,
    dir: Option<Seq<char>>,
    failure: Option<Seq<char>>,
    roots: RootsView,
    d: Disk,
) -> ClassView {
    class_of(
        id.provider,
        channel_layout(id.provider, id.version, roots.hearth, roots.herd, roots.homebrew),
        dir,
        failure,
        roots.allowed,
        d,
    )
}

pub open spec fn untargeted(id: IdentityView, reason: Seq<char>) -> TargetView {
    TargetView {
        id,
        probe: unprobed(),
        normal_channel: ClassView::BestEffort { reason },
        sanitized_channel: ClassView::BestEffort { reason },
        write_channel: None,
        identity_verified: false,
    }
}

/// The target that a binary is.
pub open spec fn target_of(
    id: IdentityView,
    probe: ProbeView,
    roots: RootsView,
    d: Disk,
) -> TargetView {
    match identity_of(id, roots, d) {
        Err(reason) => untargeted(id, "target identity unverified: "@ + reason),
        Ok(_) => if id.sapi == PhpSapi::Fpm {
            let dir = channel_layout(
                id.provider,
                id.version,
                roots.hearth,
                roots.herd,
                roots.homebrew,
            );
            TargetView {
                write_channel: if id.provider == PhpProvider::Hearth && channel_verdict(
                    dir,
                    roots.allowed,
                    d,
                ) is Ok {
                    Some(dir)
                } else {
                    None
                },
                identity_verified: true,
                ..untargeted(id, FPM_UNEXECUTED@)
            }
        } else {
            let normal = channel_of(
                id,
                probe.normal_scan_dir,
                failure_like(probe.failures, "normal probe:"@, 0),
                roots,
                d,
            );
            let sanitized = channel_of(
                id,
                probe.sanitized_scan_dir,
                failure_like(probe.failures, "sanitized probe:"@, 0),
                roots,
                d,
            );
            TargetView {
                id,
                probe,
                normal_channel: normal,
                sanitized_channel: sanitized,
                write_channel: match (normal, sanitized) {
                    (ClassView::Verified { dir }, _) => Some(dir),
                    (_, ClassView::Verified { dir }) => Some(dir),
                    _ => None,
                },
                identity_verified: true,
            }
        },
    }
}

fn as_str(o: &Option<String>) -> (r: Option<&str>)
    ensures
        text::opt_str(r) == text::opt_text(*o),
{
    match o {
        Some(s) => Some(s.as_str()),
        None => None,
    }
}

/// The target that a binary is, given what probing it found (nothing, where it
/// may not be probed).
///
/// An expected layout path whose canonical target escapes its canonical
/// provider root is never granted a channel — it renders as a loudly
/// unverified target instead of being silently skipped. NO FPM binary is EVER
/// executed for classification: external FPM can be granted nothing, and the
/// Hearth FPM write channel is the deterministic verified Hearth conf.d.
pub fn build_target(
    id: PhpTargetIdentity,
    probe: ProbeInfo,
    roots: &ProviderRoots,
    disk: &Snapshot,
) -> (r: PhpTarget)
    requires
        disk.wf(),
    ensures
        r@ == target_of(id@, probe@, roots@, disk@),
{
    match verify_binary_identity(id.provider, id.version.as_str(), id.sapi, roots, disk) {
        Err(e) => {
            let reason: String = text::cat2("target identity unverified: ", e.as_str());
            return PhpTarget {
                id,
                probe: ProbeInfo::default(),
                normal_channel: ChannelClass::BestEffort { reason: reason.clone() },
                sanitized_channel: ChannelClass::BestEffort { reason },
                write_channel: None,
                identity_verified: false,
            };
        },
        Ok(_) => {},
    }
    if id.sapi == PhpSapi::Fpm {
        let write_channel: Option<String> = if id.provider != PhpProvider::Hearth {
            None
        } else {
            let dir: String = expected_channel_dir(id.provider, id.version.as_str(), roots);
            let allowed: Vec<String> = roots.allowed_prefixes();
            match verify_user_channel(dir.as_str(), &allowed, disk) {
                Ok(_) => Some(dir),
                Err(_) => None,
            }
        };
        return PhpTarget {
            id,
            probe: ProbeInfo::default(),
            normal_channel: ChannelClass::BestEffort { reason: FPM_UNEXECUTED.to_owned() },
            sanitized_channel: ChannelClass::BestEffort { reason: FPM_UNEXECUTED.to_owned() },
            write_channel,
            identity_verified: true,
        };
    }
    let normal_failure: Option<String> = context_failure(&probe, "normal probe:");
    let sanitized_failure: Option<String> = context_failure(&probe, "sanitized probe:");
    let normal_channel: ChannelClass = classify_channel(
        id.provider,
        id.version.as_str(),
        as_str(&probe.normal_scan_dir),
        as_str(&normal_failure),
        roots,
        disk,
    );
    let sanitized_channel: ChannelClass = classify_channel(
        id.provider,
        id.version.as_str(),
        as_str(&probe.sanitized_scan_dir),
        as_str(&sanitized_failure),
        roots,
        disk,
    );
    let write_channel: Option<String> = match (&normal_channel, &sanitized_channel) {
        (ChannelClass::Verified { dir }, _) => Some(dir.clone()),
        (_, ChannelClass::Verified { dir }) => Some(dir.clone()),
        _ => None,
    };
    PhpTarget { id, probe, normal_channel, sanitized_channel, write_channel, identity_verified: true }
}

// ---- laws ----
/// Ambient FPM never authorizes a write, whatever was observed of it.
pub proof fn ambient_fpm_never_writes(
    id: IdentityView,
    probe: ProbeView,
    roots: RootsView,
    d: Disk,
)
    requires
        id.sapi == PhpSapi::Fpm,
        id.provider != PhpProvider::Hearth,
    ensures
        target_of(id, probe, roots, d).write_channel is None,
{
}

/// A binary whose identity is not verified gets no channel at all, and is not
/// executed.
pub proof fn unverified_identity_gets_nothing(
    id: IdentityView,
    probe: ProbeView,
    roots: RootsView,
    d: Disk,
)
    requires
        identity_of(id, roots, d) is Err,
    ensures
        !probeable(id, roots, d),
        target_of(id, probe, roots, d).write_channel is None,
        !target_of(id, probe, roots, d).identity_verified,
        target_of(id, probe, roots, d).normal_channel is BestEffort,
        target_of(id, probe, roots, d).sanitized_channel is BestEffort,
{
}

/// Every directory that is created is Hearth's own channel of a version that
/// has directives.
pub proof fn only_hearth_channels_are_created(
    ids: Seq<IdentityView>,
    n: int,
    ini: IniStore,
    hearth: Seq<char>,
    d: Disk,
    i: int,
)
    requires
        0 <= i < missing_channels(ids, n, ini, hearth, d).len(),
        n <= ids.len(),
    ensures
        exists|k: int|
            0 <= k < ids.len() && (#[trigger] ids[k]).provider == PhpProvider::Hearth && !bare(
                ini,
                ids[k].version,
            ) && missing_channels(ids, n, ini, hearth, d)[i] == hearth_channel(
                hearth,
                ids[k].version,
            ),
    decreases n,
{
    let before = missing_channels(ids, n - 1, ini, hearth, d);
    if i < before.len() {
        only_hearth_channels_are_created(ids, n - 1, ini, hearth, d, i);
    } else {
        assert(ids[n - 1].provider == PhpProvider::Hearth);
    }
}

/// A directory that is written for a target is off the denylist, within the
/// write authority, and the channel that the layout of its provider and version
/// names; and only a target of verified identity has one.
pub proof fn write_channels_are_safe(id: IdentityView, probe: ProbeView, roots: RootsView, d: Disk)
    ensures
        target_of(id, probe, roots, d).write_channel matches Some(dir) ==> {
            &&& target_of(id, probe, roots, d).identity_verified
            &&& !channel_dir::privileged(dir)
            &&& channel_dir::below_any(roots.allowed, dir)
            &&& path::key(dir) == path::key(
                channel_layout(
                    id.provider,
                    id.version,
                    roots.hearth,
                    roots.herd,
                    roots.homebrew,
                ),
            )
        },
{
    let t = target_of(id, probe, roots, d);
    if t.write_channel is Some {
        let expected = channel_layout(
            id.provider,
            id.version,
            roots.hearth,
            roots.herd,
            roots.homebrew,
        );
        if id.sapi == PhpSapi::Fpm {
            channel_dir::verified_channel_is_safe(expected, roots.allowed, d);
            below_by_key(
                roots.allowed,
                channel_verdict(expected, roots.allowed, d)->Ok_0.path,
                expected,
            );
        } else if t.normal_channel is Verified {
            verified_class_is_in_authority(
                id.provider,
                expected,
                probe.normal_scan_dir,
                failure_like(probe.failures, "normal probe:"@, 0),
                roots.allowed,
                d,
            );
        } else {
            verified_class_is_in_authority(
                id.provider,
                expected,
                probe.sanitized_scan_dir,
                failure_like(probe.failures, "sanitized probe:"@, 0),
                roots.allowed,
                d,
            );
        }
    }
}

/// Authority depends on the place that a path names, not on its spelling.
proof fn below_by_key(allowed: Seq<Seq<char>>, a: Seq<char>, b: Seq<char>)
    requires
        path::key(a) == path::key(b),
        channel_dir::below_any(allowed, a),
    ensures
        channel_dir::below_any(allowed, b),
{
    let i = choose|i: int|
        0 <= i < allowed.len() && path::covers(path::key(#[trigger] allowed[i]), path::key(a));
    assert(path::covers(path::key(allowed[i]), path::key(b)));
}

} // verus!
