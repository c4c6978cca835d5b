//! What Hearth's own FPM and its places promise, said in plain terms: what its
//! configuration holds, when it counts as Hearth's, and which roots carry write
//! authority.

use crate::fs::{self, Disk};
use crate::path;
use crate::php::artifact::ArtifactView;
use crate::php::batch::JobView;
use crate::php::channel_dir::{
    channel_verdict, climbs, creation_verdict, deepest, direct_verdict, leaves, resolved, site_of,
    walk_fault,
};
use crate::php::fpm::{
    artifact_jobs, conf_of, conf_state_of, conf_text, conf_verdict, manifest_of, materialize_start,
    materialized, ownership_state, private_next, probe_of, rows_fault, socket_of, strict_manifest,
    PrivateView, StateView, PROBE_SCRIPT_V1,
};
use crate::php::manifest::{self, is_slot, EntryState, EntryView, ManifestView, OutcomeView};
use crate::php::reconcile::{hex, sha256};
use crate::php::roots::{
    detected_roots, end_of, isolated_roots, missing_root_verdict, production_roots, remainder,
    root_verdict, OverridesView,
};
use crate::php::txn::{FinalizeMode, PurposeView, TxnView};
use vstd::prelude::*;
use vstd::utf8::{decode_utf8, encode_utf8, valid_utf8};

verus! {

// ---- the configuration ----
/// Where Hearth's own FPM keeps its files.
pub proof fn fpm_files_are_below_the_config_directory(dir: Seq<char>)
    ensures
        socket_of(dir) == path::joined(dir, "run/php-fpm.sock"@),
        conf_of(dir) == path::joined(dir, "fpm/php-fpm.conf"@),
        probe_of(dir) == path::joined(dir, "fpm/hearth-probe.php"@),
        manifest_of(dir) == path::joined(dir, "fpm/manifest.toml"@),
{
}

/// The configuration of FPM: in the foreground, logging below the
/// configuration directory, and one pool that listens on a private socket
/// there.
pub proof fn fpm_configuration_is_rendered(dir: Seq<char>)
    ensures
        conf_text(1, dir)
            == "; managed by hearth — do not edit. `hearth php config --sync` regenerates this file.\n; hearth-owned: fpm-conf v1\n\n"@
            + "[global]\nerror_log = "@ + path::joined(dir, "log/php-fpm.log"@)
            + "\ndaemonize = no\n\n[hearth]\nlisten = "@ + path::joined(dir, "run/php-fpm.sock"@)
            + "\nlisten.mode = 0600\npm = ondemand\npm.max_children = 10\npm.process_idle_timeout = 10s\npm.max_requests = 500\ncatch_workers_output = yes\nclear_env = yes\nsecurity.limit_extensions = .php\n"@,
{
}

/// A configuration is rendered exactly where the directory is text without a
/// line break or NUL, and the socket's path fits into 103 bytes.
pub proof fn fpm_configuration_needs_a_usable_directory(version: u32, bytes: Seq<u8>)
    ensures
        conf_verdict(version, bytes) is Ok <==> {
            &&& forall|i: int|
                0 <= i < bytes.len() ==> #[trigger] bytes[i] != 0 && bytes[i] != 10 && bytes[i] != 13
            &&& valid_utf8(bytes)
            &&& encode_utf8(path::joined(decode_utf8(bytes), "run/php-fpm.sock"@)).len() <= 103
        },
        conf_verdict(version, bytes) matches Ok(t) ==> t == conf_text(version, decode_utf8(bytes)),
{
    if !crate::php::fpm::has_breaking(bytes) {
        assert forall|i: int| 0 <= i < bytes.len() implies #[trigger] bytes[i] != 0 && bytes[i]
            != 10 && bytes[i] != 13 by {
            assert(!crate::php::fpm::breaking(bytes[i]));
        }
    } else {
        let i = choose|i: int|
            0 <= i < bytes.len() && crate::php::fpm::breaking(#[trigger] bytes[i]);
        assert(bytes[i] == 0 || bytes[i] == 10 || bytes[i] == 13);
    }
}

/// Both files are written, the configuration as it was rendered and the probe
/// as it is, for nobody but their owner to read.
pub proof fn both_fpm_files_are_written(dir: Seq<char>, rendered: Seq<char>)
    ensures
        artifact_jobs(dir, rendered).len() == 2,
        artifact_jobs(dir, rendered)[0] == (JobView::Apply {
            spec: ArtifactView {
                final_path: path::joined(dir, "fpm/php-fpm.conf"@),
                channel: "fpm-conf"@,
                php_version: "-"@,
                mode: 0o600,
            },
            content: rendered,
            sha256: hex(sha256(encode_utf8(rendered))),
        }),
        artifact_jobs(dir, rendered)[1] == (JobView::Apply {
            spec: ArtifactView {
                final_path: path::joined(dir, "fpm/hearth-probe.php"@),
                channel: "fpm-probe"@,
                php_version: "-"@,
                mode: 0o600,
            },
            content: PROBE_SCRIPT_V1@,
            sha256: hex(sha256(encode_utf8(PROBE_SCRIPT_V1@))),
        }),
{
}

/// Materializing writes both files in one transaction, and an unusable
/// directory blocks it.
pub proof fn materializing_starts_a_transaction(dir: Seq<char>, version: u32)
    ensures
        conf_verdict(version, encode_utf8(dir)) matches Ok(t) ==> (materialize_start(
            dir,
            version,
        ) matches Ok(run) && run.purpose == (PurposeView::Materialize {
            jobs: artifact_jobs(dir, t),
        }) && run.finalize == FinalizeMode::DeleteWhenEmpty && run.stage is Acquire),
        conf_verdict(version, encode_utf8(dir)) matches Err(e) ==> (materialize_start(
            dir,
            version,
        ) matches Err(m) && m.state == (StateView::Blocked { reason: e }) && m.conf == (
        OutcomeView::Failed { error: e }) && m.probe == (OutcomeView::Failed { error: e })),
{
}

/// What materializing came to is what became of each file; a refusal of the
/// whole refuses both, and a transaction that failed fails both.
pub proof fn materializing_is_told_by_file(t: TxnView, state: StateView)
    ensures
        t.stage is Failed ==> materialized(t, state).conf is Failed && materialized(
            t,
            state,
        ).probe is Failed && materialized(t, state).state is Blocked,
        !(t.stage is Failed) ==> materialized(t, state).state == state,
        !(t.stage is Failed) ==> (t.refusal matches Some(reason) ==> materialized(t, state).conf
            == (OutcomeView::Refused { reason }) && materialized(t, state).probe == (
        OutcomeView::Refused { reason })),
        !(t.stage is Failed) && t.refusal is None && t.batch.outcomes.len() == 2 ==> materialized(
            t,
            state,
        ).conf == t.batch.outcomes[0] && materialized(t, state).probe == t.batch.outcomes[1],
{
}

/// A private directory is created, secured and checked again, in that order;
/// what fails ends it.
pub proof fn private_directory_goes_step_by_step(dir: Seq<char>, e: Seq<char>)
    ensures
        private_next(PrivateView::Creating, dir, Ok(())) is Securing,
        private_next(PrivateView::Securing, dir, Ok(())) is Rechecking,
        private_next(PrivateView::Rechecking, dir, Ok(())) == (PrivateView::Done {
            result: Ok(()),
        }),
        private_next(PrivateView::Creating, dir, Err(e)) == (PrivateView::Done { result: Err(e) }),
        private_next(PrivateView::Rechecking, dir, Err(e)) == (PrivateView::Done {
            result: Err(e),
        }),
        private_next(PrivateView::Securing, dir, Err(e)) is Done,
        private_next(PrivateView::Securing, dir, Err(e))->result is Err,
{
}

// ---- whose configuration it is ----
/// Whether a row's file is a regular one with the hash that the row records.
pub open spec fn is_intact(e: EntryView, d: Disk) -> bool {
    let f = fs::facts(d, e.path);
    &&& f.link is Ok && f.link->Ok_0.is_file && !f.link->Ok_0.is_symlink
    &&& f.hash == Ok::<Seq<char>, Seq<char>>(e.sha256)
}

/// With a manifest that owns both files, FPM is Hearth's exactly where both
/// rows are settled and both files are as recorded.
pub proof fn fpm_is_owned_exactly_where_intact(
    dir: Seq<char>,
    m: ManifestView,
    d: Disk,
    i: int,
    j: int,
)
    requires
        is_slot(m.files, path::joined(dir, "fpm/php-fpm.conf"@), i),
        is_slot(m.files, path::joined(dir, "fpm/hearth-probe.php"@), j),
    ensures
        ({
            let fine = m.files[i].state == EntryState::Applied && m.files[j].state
                == EntryState::Applied && is_intact(m.files[i], d) && is_intact(m.files[j], d);
            let s = ownership_state(dir, Some(m), d);
            &&& fine ==> s == (StateView::HearthOwned {
                conf: path::joined(dir, "fpm/php-fpm.conf"@),
                conf_sha256: m.files[i].sha256,
                probe_sha256: m.files[j].sha256,
                listen: path::joined(dir, "run/php-fpm.sock"@),
            })
            &&& !fine ==> s is Blocked
        }),
{
    manifest::slot_is(m.files, conf_of(dir), i);
    manifest::slot_is(m.files, probe_of(dir), j);
}

/// Without a manifest a configuration that is there is the user's; a probe
/// alone blocks, and so does nothing at all.
pub proof fn fpm_without_a_manifest(dir: Seq<char>, d: Disk)
    ensures
        ({
            let conf = path::joined(dir, "fpm/php-fpm.conf"@);
            let s = ownership_state(dir, None, d);
            &&& fs::facts(d, conf).exists ==> s == (StateView::UserManaged { conf })
            &&& !fs::facts(d, conf).exists ==> s is Blocked
            &&& !fs::facts(d, conf).exists && !fs::facts(
                d,
                path::joined(dir, "fpm/hearth-probe.php"@),
            ).exists ==> s == (StateView::Blocked {
                reason: "missing fpm config — run `hearth php config --sync`"@,
            })
        }),
{
}

/// A manifest that owns only one of the two files blocks.
pub proof fn half_an_fpm_blocks(dir: Seq<char>, m: ManifestView, d: Disk)
    requires
        m.files.len() > 0,
        (forall|k: int|
            0 <= k < m.files.len() ==> path::key((#[trigger] m.files[k]).path) != path::key(
                path::joined(dir, "fpm/php-fpm.conf"@),
            )) || (forall|k: int|
            0 <= k < m.files.len() ==> path::key((#[trigger] m.files[k]).path) != path::key(
                path::joined(dir, "fpm/hearth-probe.php"@),
            )),
    ensures
        ownership_state(dir, Some(m), d) is Blocked,
{
}

/// The FPM manifest counts only where its directory and file can be trusted;
/// where either is not there, there is none.
pub proof fn fpm_manifest_is_trusted_or_absent(
    dir: Seq<char>,
    d: Disk,
    loaded: Result<ManifestView, Seq<char>>,
)
    ensures
        ({
            let home = path::joined(dir, "fpm"@);
            let file = path::joined(dir, "fpm/manifest.toml"@);
            let h = fs::facts(d, home).link;
            let f = fs::facts(d, file).link;
            let trusted = h is Ok && !h->Ok_0.is_symlink && h->Ok_0.is_dir && channel_verdict(
                home,
                seq![dir],
                d,
            ) is Ok;
            let r = strict_manifest(dir, d, loaded);
            &&& h is Err && h->Err_0.0 ==> r == Ok::<Option<ManifestView>, Seq<char>>(None)
            &&& !trusted && !(h is Err && h->Err_0.0) ==> r is Err
            &&& trusted && f is Err && f->Err_0.0 ==> r == Ok::<Option<ManifestView>, Seq<char>>(
                None,
            )
            &&& trusted && f is Err && !f->Err_0.0 ==> r is Err
            &&& trusted && f is Ok && (f->Ok_0.is_symlink || !f->Ok_0.is_file) ==> r is Err
            &&& trusted && f is Ok && !f->Ok_0.is_symlink && f->Ok_0.is_file ==> match loaded {
                Err(_) => r is Err,
                Ok(m) => r == if m.version == 1 && m.files.len() <= 2 && rows_fault(
                    m.files,
                    conf_of(dir),
                    probe_of(dir),
                    false,
                    false,
                ) is None {
                    Ok::<Option<ManifestView>, Seq<char>>(Some(m))
                } else {
                    r
                } && (r is Ok <==> m.version == 1 && m.files.len() <= 2 && rows_fault(
                    m.files,
                    conf_of(dir),
                    probe_of(dir),
                    false,
                    false,
                ) is None),
            }
            &&& r is Err ==> conf_state_of(dir, d, loaded) is Blocked
            &&& r matches Ok(m) ==> conf_state_of(dir, d, loaded) == ownership_state(dir, m, d)
        }),
{
}

/// Whether a row is that of one of the two files, as the manifest writes it.
pub open spec fn is_artifact(e: EntryView, p: Seq<char>, channel: Seq<char>) -> bool {
    path::key(e.path) == path::key(p) && e.channel == channel && e.php_version == "-"@
}

/// The rows of both files, in either order, are trusted, and so is either of
/// them alone, and none.
pub proof fn own_rows_are_trusted(files: Seq<EntryView>, conf: Seq<char>, probe: Seq<char>)
    requires
        path::key(conf) != path::key(probe),
        files.len() <= 2,
        forall|i: int|
            0 <= i < files.len() ==> is_artifact(#[trigger] files[i], conf, "fpm-conf"@)
                || is_artifact(files[i], probe, "fpm-probe"@),
        files.len() == 2 ==> path::key(files[0].path) != path::key(files[1].path),
    ensures
        rows_fault(files, conf, probe, false, false) is None,
{
    reveal_with_fuel(rows_fault, 4);
    if files.len() > 0 {
        assert(is_artifact(files[0], conf, "fpm-conf"@) || is_artifact(
            files[0],
            probe,
            "fpm-probe"@,
        ));
        if files.len() == 2 {
            assert(files.drop_first()[0] == files[1]);
            assert(is_artifact(files[1], conf, "fpm-conf"@) || is_artifact(
                files[1],
                probe,
                "fpm-probe"@,
            ));
            assert(files.drop_first().drop_first().len() == 0);
        }
    }
}

// ---- roots ----
/// A root carries authority exactly where it is absolute, resolves to an
/// existing directory, and that is neither `/` nor on the denylist; the
/// authority is what it resolves to.
pub proof fn roots_carry_authority_by_rule(name: Seq<char>, p: Seq<char>, d: Disk)
    ensures
        ({
            let f = fs::facts(d, p);
            &&& root_verdict(name, p, d) is Ok <==> {
                &&& p.len() > 0 && p[0] == '/'
                &&& f.canonical is Ok
                &&& f.target is Ok && f.target->Ok_0.is_dir
                &&& path::key(f.canonical->Ok_0) != path::key("/"@)
                &&& !path::covers(
                    path::key("/usr/local/etc/php"@),
                    path::key(f.canonical->Ok_0),
                )
            }
            &&& root_verdict(name, p, d) matches Ok(c) ==> f.canonical == Ok::<
                Seq<char>,
                Seq<char>,
            >(c)
        }),
{
}

/// A root that exists, and one of which only plain names are missing, carries
/// the authority of its nearest existing part with these names below, unless
/// that leads into the denylist.
pub proof fn missing_roots_carry_authority(name: Seq<char>, p: Seq<char>, d: Disk)
    requires
        p.len() > 0,
        p[0] == '/',
        !climbs(p, d),
        fs::facts(d, deepest(d, p)).exists,
        path::covers(path::key(deepest(d, p)), path::key(p)),
    ensures
        ({
            let a = deepest(d, p);
            let r = missing_root_verdict(name, p, d);
            &&& root_verdict(name, a, d) is Err ==> r is Err
            &&& root_verdict(name, a, d) matches Ok(c) ==> {
                let end = path::joined(c, remainder(p, a));
                &&& path::covers(path::key("/usr/local/etc/php"@), path::key(end)) ==> r is Err
                &&& !path::covers(path::key("/usr/local/etc/php"@), path::key(end)) && path::key(end)
                    != path::key("/"@) ==> r == Ok::<Seq<char>, Seq<char>>(end)
            }
        }),
{
    never_up(crate::php::channel_dir::missing(p, d));
}

proof fn never_up(m: Seq<Seq<char>>)
    requires
        !m.contains(".."@),
    ensures
        forall|i: int|
            0 <= i <= m.len() ==> crate::php::channel_dir::depth(#[trigger] m.take(i)) >= 0,
{
    assert forall|i: int| 0 <= i <= m.len() implies crate::php::channel_dir::depth(
        #[trigger] m.take(i),
    ) >= 0 by {
        depth_of_names(m, i);
    }
}

proof fn depth_of_names(m: Seq<Seq<char>>, i: int)
    requires
        !m.contains(".."@),
        0 <= i <= m.len(),
    ensures
        crate::php::channel_dir::depth(m.take(i)) == i,
    decreases i,
{
    if i > 0 {
        depth_of_names(m, i - 1);
        assert(m.take(i).drop_last() =~= m.take(i - 1));
        assert(m.take(i).last() == m[i - 1]);
        assert(m.contains(m[i - 1]));
    }
}

/// An isolated runtime is taken up exactly where its root carries authority
/// and each provider's root is absolute and lies below it, off the denylist,
/// with what is missing of it; its only authority is that root.
pub proof fn isolated_runtime_by_rule(
    runtime: Seq<char>,
    hearth: Seq<char>,
    herd: Seq<char>,
    homebrew: Seq<char>,
    d: Disk,
)
    ensures
        ({
            let root = root_verdict("isolated runtime"@, runtime, d);
            let fits = |p: Seq<char>|
                p.len() > 0 && p[0] == '/' && path::covers(
                    path::key(root->Ok_0),
                    path::key(resolved(p, d)),
                ) && (climbs(p, d) ==> path::covers(
                    path::key(root->Ok_0),
                    path::key(end_of(p, d)),
                )) && !path::covers(path::key("/usr/local/etc/php"@), path::key(end_of(p, d)));
            let r = isolated_roots(runtime, hearth, herd, homebrew, d);
            &&& r is Ok <==> root is Ok && fits(hearth) && fits(herd) && fits(homebrew)
            &&& r matches Ok(v) ==> v.hearth == hearth && v.herd == herd && v.homebrew == homebrew
                && v.allowed == seq![root->Ok_0]
        }),
{
}

/// A production runtime is taken up exactly where the home carries authority
/// and the Hearth directory does or will; Homebrew's prefix carries it too
/// where it does. Herd is looked for below the home.
pub proof fn production_runtime_by_rule(home: Seq<char>, config_dir: Seq<char>, d: Disk)
    ensures
        ({
            let h = root_verdict("home"@, home, d);
            let own = missing_root_verdict("hearth config"@, config_dir, d);
            let brew = root_verdict("homebrew"@, "/opt/homebrew"@, d);
            let r = production_roots(home, config_dir, d);
            &&& r is Ok <==> h is Ok && own is Ok
            &&& r matches Ok(v) ==> {
                &&& v.hearth == config_dir
                &&& v.herd == path::joined(h->Ok_0, "Library/Application Support/Herd"@)
                &&& v.homebrew == "/opt/homebrew"@
                &&& brew is Ok ==> v.allowed == seq![own->Ok_0, h->Ok_0, brew->Ok_0]
                &&& brew is Err ==> v.allowed == seq![own->Ok_0, h->Ok_0]
            }
        }),
{
}

/// Which runtime is detected: an isolated one where its root is given, and a
/// production one otherwise. A variable that is set but empty or relative, a
/// provider's root without an isolated one, and a home that is not known are
/// refused.
pub proof fn runtime_is_detected_by_rule(
    env: OverridesView,
    config_dir: Seq<char>,
    home: Option<Seq<char>>,
    d: Disk,
)
    ensures
        ({
            let usable = |o: Option<Seq<char>>| o matches Some(v) ==> v.len() > 0 && v[0] == '/';
            let r = detected_roots(env, config_dir, home, d);
            &&& !usable(env.herd) || !usable(env.homebrew) || !usable(env.isolated) ==> r is Err
            &&& env.isolated is None && (env.herd is Some || env.homebrew is Some) ==> r is Err
            &&& env.isolated is None && home is None ==> r is Err
            &&& env.isolated is None && env.herd is None && env.homebrew is None ==> (home matches Some(
                h,
            ) ==> r == production_roots(h, config_dir, d))
            &&& usable(env.herd) && usable(env.homebrew) && usable(env.isolated) ==> (
            env.isolated matches Some(root) ==> r == isolated_roots(
                root,
                config_dir,
                if env.herd is Some {
                    env.herd->0
                } else {
                    path::joined(root, "herd"@)
                },
                if env.homebrew is Some {
                    env.homebrew->0
                } else {
                    path::joined(root, "homebrew"@)
                },
                d,
            ))
        }),
{
}

// ---- creating channels ----
/// Whether a channel directory, as it is written, may be created below the
/// Hearth root: it lies below the root and off the denylist, its nearest
/// existing part lies below the root too, no link leads there, and that part
/// resolves to a directory of the user below the root that others cannot write
/// to.
pub open spec fn may_be_created(root: Seq<char>, dir: Seq<char>, d: Disk) -> bool {
    let a = deepest(d, dir);
    let f = fs::facts(d, a);
    let r = fs::facts(d, root).canonical;
    &&& path::covers(path::key(root), path::key(dir))
    &&& !path::covers(path::key("/usr/local/etc/php"@), path::key(dir))
    &&& f.exists
    &&& path::covers(path::key(root), path::key(a))
    &&& walk_fault(d, root, path::parts(a).skip(path::parts(root).len() as int)) is None
    &&& f.canonical is Ok && r is Ok
    &&& path::covers(path::key(r->Ok_0), path::key(f.canonical->Ok_0))
    &&& !path::covers(path::key("/usr/local/etc/php"@), path::key(f.canonical->Ok_0))
    &&& f.target is Ok && f.target->Ok_0.is_dir && f.target->Ok_0.uid == d.euid
    &&& f.target->Ok_0.mode & 0o022 == 0
}

/// A channel directory may be created exactly where it may be as it is written
/// and, where its missing part climbs, what it stands for may be as well; the
/// result is what the root resolves to.
pub proof fn channels_are_created_by_rule(root: Seq<char>, dir: Seq<char>, d: Disk)
    ensures
        creation_verdict(root, dir, d) is Ok <==> may_be_created(root, dir, d) && (climbs(dir, d)
            ==> may_be_created(
            if leaves(dir, d) {
                fs::facts(d, root).canonical->Ok_0
            } else {
                root
            },
            site_of(dir, d),
            d,
        )),
        creation_verdict(root, dir, d) matches Ok(c) ==> fs::facts(d, root).canonical == Ok::<
            Seq<char>,
            Seq<char>,
        >(c),
{
    direct_is_by_rule(root, dir, d);
    direct_is_by_rule(root, site_of(dir, d), d);
    if fs::facts(d, root).canonical is Ok {
        direct_is_by_rule(fs::facts(d, root).canonical->Ok_0, site_of(dir, d), d);
    }
}

proof fn direct_is_by_rule(root: Seq<char>, dir: Seq<char>, d: Disk)
    ensures
        direct_verdict(root, dir, d) is Ok <==> may_be_created(root, dir, d),
        direct_verdict(root, dir, d) matches Ok(c) ==> fs::facts(d, root).canonical == Ok::<
            Seq<char>,
            Seq<char>,
        >(c),
{
}

/// A missing root whose missing part leads out of its nearest existing part is
/// refused; so is one that comes to `/` or to the denylist.
pub proof fn climbing_roots_are_refused(name: Seq<char>, p: Seq<char>, d: Disk)
    ensures
        leaves(p, d) ==> missing_root_verdict(name, p, d) is Err,
        path::key(end_of(p, d)) == path::key("/"@) ==> missing_root_verdict(name, p, d) is Err,
        path::covers(path::key("/usr/local/etc/php"@), path::key(end_of(p, d)))
            ==> missing_root_verdict(name, p, d) is Err,
        !(p.len() > 0 && p[0] == '/') ==> missing_root_verdict(name, p, d) is Err,
        !fs::facts(d, deepest(d, p)).exists ==> missing_root_verdict(name, p, d) is Err,
        root_verdict(name, deepest(d, p), d) is Err ==> missing_root_verdict(name, p, d) is Err,
{
}

/// A walk down from the root passes exactly where every step can be looked at
/// and is no link.
pub proof fn walk_stops_at_links(d: Disk, walk: Seq<char>, rest: Seq<Seq<char>>)
    ensures
        rest.len() == 0 ==> walk_fault(d, walk, rest) is None,
        rest.len() > 0 ==> {
            let next = path::joined(walk, rest[0]);
            let l = fs::facts(d, next).link;
            &&& l is Err || l->Ok_0.is_symlink ==> walk_fault(d, walk, rest) is Some
            &&& l is Ok && !l->Ok_0.is_symlink ==> walk_fault(d, walk, rest) == walk_fault(
                d,
                next,
                rest.drop_first(),
            )
        },
{
}

/// The probe answers with the value of the directive that it is asked for, and
/// with the nonce that it was given.
pub proof fn probe_answers_for_its_key()
    ensures
        PROBE_SCRIPT_V1@ == r#"<?php
// managed by hearth — do not edit. `hearth php config --sync` regenerates this file.
header('Content-Type: text/plain');
$k = $_SERVER['HEARTH_PROBE_KEY'] ?? '';
$n = $_SERVER['HEARTH_PROBE_NONCE'] ?? '';
$v = ($k !== '') ? ini_get($k) : false;
echo json_encode([
    'hearth_probe' => 1,
    'nonce' => $n,
    'key' => $k,
    'pid' => getmypid(),
    'available' => $v !== false,
    'value' => $v === false ? null : (string) $v,
]);
"#@,
{
}

} // verus!
