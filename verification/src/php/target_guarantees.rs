//! What finding and classifying PHP binaries promises, said in plain terms:
//! which binaries are found, which of them are trusted, what their own output
//! says, and where Hearth may write for them.

use crate::config::IniStore;
use crate::fs::{self, Disk, FileMeta};
use crate::path;
use crate::php::assembly::{
    failure_like, identity_of, lists, missing_channels, probeable, target_of,
};
use crate::php::channel_dir::{
    below_any, channel_verdict, created_verdict, deepest, depth, landed, missing, resolved, site_of,
};
use crate::php::hearth_channel;
use crate::php::resolver::{
    already, bounded, cached, entry, enumerated, fallback, first_there, in_herd, in_homebrew, look,
    mapping, provider_of, rank, resolved_fpm, serve_choice, tier_at, CandidateView, FpmTier, Look,
};
use crate::php::roots::RootsView;
use crate::php::rows::bare;
use crate::php::targets::{
    candidate, channel_layout, class_of, cli_reported, continuation, discovered, discoveries,
    field_value, fpm_reported, honor_verdict, identity_verdict, layout, listed_paths, parsed_files,
    probed, scan_dir, scan_line, scan_value, unquoted, value_in, ClassView, IdentityView,
    PhpProvider, PhpSapi, ProbeView, SUPPORTED_VERSIONS,
};
use crate::scan::{self, Class};
use crate::text;
use vstd::prelude::*;

verus! {

// ---- where binaries are ----
/// The versions that are looked for, oldest first.
pub open spec fn version_at(v: int) -> Seq<char> {
    if v == 0 {
        "8.1"@
    } else if v == 1 {
        "8.2"@
    } else if v == 2 {
        "8.3"@
    } else if v == 3 {
        "8.4"@
    } else {
        "8.5"@
    }
}

proof fn versions_are_supported(v: int)
    requires
        0 <= v < 5,
    ensures
        SUPPORTED_VERSIONS@[v]@ == version_at(v),
        SUPPORTED_VERSIONS@.len() == 5,
{
}

/// Where each provider keeps the binaries of a version, and where the channel
/// of the version is.
pub proof fn provider_layouts(
    version: Seq<char>,
    hearth: Seq<char>,
    herd: Seq<char>,
    homebrew: Seq<char>,
)
    ensures
        layout(PhpProvider::Hearth, PhpSapi::Cli, version, hearth, herd, homebrew) == path::joined(
            path::joined(path::joined(hearth, "php"@), version),
            "php"@,
        ),
        layout(PhpProvider::Hearth, PhpSapi::Fpm, version, hearth, herd, homebrew) == path::joined(
            path::joined(path::joined(hearth, "php"@), version),
            "php-fpm"@,
        ),
        layout(PhpProvider::Herd, PhpSapi::Cli, version, hearth, herd, homebrew) == path::joined(
            path::joined(herd, "bin"@),
            "php"@ + scan::without(version, '.'),
        ),
        layout(PhpProvider::Herd, PhpSapi::Fpm, version, hearth, herd, homebrew) == path::joined(
            path::joined(herd, "bin"@),
            "php"@ + scan::without(version, '.') + "-fpm"@,
        ),
        layout(PhpProvider::Homebrew, PhpSapi::Cli, version, hearth, herd, homebrew)
            == path::joined(
            path::joined(path::joined(homebrew, "opt"@), "php@"@ + version),
            "bin/php"@,
        ),
        layout(PhpProvider::Homebrew, PhpSapi::Fpm, version, hearth, herd, homebrew)
            == path::joined(
            path::joined(path::joined(homebrew, "opt"@), "php@"@ + version),
            "sbin/php-fpm"@,
        ),
        channel_layout(PhpProvider::Hearth, version, hearth, herd, homebrew) == path::joined(
            path::joined(path::joined(hearth, "php"@), version),
            "conf.d"@,
        ),
        channel_layout(PhpProvider::Herd, version, hearth, herd, homebrew) == path::joined(
            path::joined(herd, "config/php"@),
            scan::without(version, '.'),
        ),
        channel_layout(PhpProvider::Homebrew, version, hearth, herd, homebrew) == path::joined(
            path::joined(path::joined(homebrew, "etc/php"@), version),
            "conf.d"@,
        ),
        hearth_channel(hearth, version) == channel_layout(
            PhpProvider::Hearth,
            version,
            hearth,
            herd,
            homebrew,
        ),
{
}

/// Whether there is a file at a path.
pub open spec fn file_at(p: Seq<char>, d: Disk) -> bool {
    fs::facts(d, p).target is Ok && fs::facts(d, p).target->Ok_0.is_file
}

/// Every binary of a supported version that is at its provider's place is
/// found, with the version and the place that it resolves to: one provider's
/// never hides another's.
pub proof fn every_binary_is_discovered(
    provider: PhpProvider,
    sapi: PhpSapi,
    v: int,
    hearth: Seq<char>,
    herd: Seq<char>,
    homebrew: Seq<char>,
    d: Disk,
)
    requires
        0 <= v < 5,
        file_at(layout(provider, sapi, version_at(v), hearth, herd, homebrew), d),
    ensures
        discoveries(30, hearth, herd, homebrew, d).contains(
            found_as(provider, sapi, version_at(v), hearth, herd, homebrew, d),
        ),
{
    versions_are_supported(v);
    let p: int = match provider {
        PhpProvider::Hearth => 0,
        PhpProvider::Herd => 1,
        PhpProvider::Homebrew => 2,
    };
    let s: int = if sapi == PhpSapi::Cli {
        0
    } else {
        1
    };
    let k: int = v * 6 + p * 2 + s;
    assert((k / 2) == v * 3 + p);
    assert((k / 2) % 3 == p);
    assert(k % 2 == s);
    assert(k / 6 == v);
    assert(candidate(k) == (provider, sapi, v));
    discovery_is_kept(30, k, hearth, herd, homebrew, d);
}

/// What is told of a binary at its provider's place.
pub open spec fn found_as(
    provider: PhpProvider,
    sapi: PhpSapi,
    version: Seq<char>,
    hearth: Seq<char>,
    herd: Seq<char>,
    homebrew: Seq<char>,
    d: Disk,
) -> IdentityView {
    let at = layout(provider, sapi, version, hearth, herd, homebrew);
    IdentityView {
        provider,
        version,
        sapi,
        binary: match fs::facts(d, at).canonical {
            Ok(c) => c,
            Err(_) => at,
        },
    }
}

proof fn discovery_is_kept(
    n: int,
    k: int,
    hearth: Seq<char>,
    herd: Seq<char>,
    homebrew: Seq<char>,
    d: Disk,
)
    requires
        0 <= k < n,
        discovered(k, hearth, herd, homebrew, d) is Some,
    ensures
        discoveries(n, hearth, herd, homebrew, d).contains(
            discovered(k, hearth, herd, homebrew, d)->0,
        ),
    decreases n,
{
    let before = discoveries(n - 1, hearth, herd, homebrew, d);
    let all = discoveries(n, hearth, herd, homebrew, d);
    let want = discovered(k, hearth, herd, homebrew, d)->0;
    if k == n - 1 {
        assert(all[before.len() as int] == want);
    } else {
        discovery_is_kept(n - 1, k, hearth, herd, homebrew, d);
        let i = choose|i: int| 0 <= i < before.len() && before[i] == want;
        assert(all[i] == want);
    }
}

/// Whatever is found is a binary of a supported version at its provider's
/// place.
pub proof fn discoveries_are_binaries(
    n: int,
    i: int,
    hearth: Seq<char>,
    herd: Seq<char>,
    homebrew: Seq<char>,
    d: Disk,
)
    requires
        0 <= n <= 30,
        0 <= i < discoveries(n, hearth, herd, homebrew, d).len(),
    ensures
        ({
            let id = discoveries(n, hearth, herd, homebrew, d)[i];
            &&& file_at(layout(id.provider, id.sapi, id.version, hearth, herd, homebrew), d)
            &&& id == found_as(id.provider, id.sapi, id.version, hearth, herd, homebrew, d)
            &&& exists|v: int| 0 <= v < 5 && id.version == #[trigger] version_at(v)
        }),
    decreases n,
{
    let before = discoveries(n - 1, hearth, herd, homebrew, d);
    if i < before.len() {
        discoveries_are_binaries(n - 1, i, hearth, herd, homebrew, d);
    } else {
        let v = candidate(n - 1).2;
        versions_are_supported(v);
        assert(discoveries(n, hearth, herd, homebrew, d)[i].version == version_at(v));
    }
}

// ---- whose binary it is ----
/// A binary is its provider's where it resolves to a place below the
/// provider's root and below no other; and nothing else is asked.
pub proof fn identity_is_by_root(
    at: Seq<char>,
    hearth: Seq<char>,
    herd: Seq<char>,
    homebrew: Seq<char>,
    d: Disk,
)
    ensures
        ({
            let c = fs::facts(d, at).canonical;
            let under = |root: Seq<char>|
                fs::facts(d, root).canonical is Ok && path::covers(
                    path::key(fs::facts(d, root).canonical->Ok_0),
                    path::key(c->Ok_0),
                );
            let own = |r: Result<Seq<char>, Seq<char>>, ok: bool|
                if ok {
                    r == Ok::<Seq<char>, Seq<char>>(c->Ok_0)
                } else {
                    r is Err
                };
            &&& own(
                identity_verdict(PhpProvider::Hearth, at, hearth, herd, homebrew, d),
                c is Ok && under(hearth) && !under(herd) && !under(homebrew),
            )
            &&& own(
                identity_verdict(PhpProvider::Herd, at, hearth, herd, homebrew, d),
                c is Ok && under(herd) && !under(hearth) && !under(homebrew),
            )
            &&& own(
                identity_verdict(PhpProvider::Homebrew, at, hearth, herd, homebrew, d),
                c is Ok && under(homebrew) && !under(hearth) && !under(herd),
            )
        }),
{
}

// ---- channels ----
/// A directory is a verified channel exactly where it is off the denylist,
/// accessible and no link, resolves to itself and to below an allowed root,
/// and is a directory of the user that others cannot write to.
pub proof fn channel_is_verified_exactly_where_it_is_safe(
    dir: Seq<char>,
    allowed: Seq<Seq<char>>,
    d: Disk,
)
    ensures
        ({
            let f = fs::facts(d, dir);
            channel_verdict(dir, allowed, d) is Ok <==> {
                &&& !path::covers(path::key("/usr/local/etc/php"@), path::key(dir))
                &&& f.link is Ok && !f.link->Ok_0.is_symlink
                &&& f.canonical is Ok && path::key(f.canonical->Ok_0) == path::key(dir)
                &&& exists|i: int|
                    0 <= i < allowed.len() && path::covers(
                        path::key(#[trigger] allowed[i]),
                        path::key(dir),
                    )
                &&& f.target is Ok && f.target->Ok_0.is_dir && f.target->Ok_0.uid == d.euid
                    && f.target->Ok_0.mode & 0o022 == 0
            }
        }),
        channel_verdict(dir, allowed, d) matches Ok(v) ==> v.path == fs::facts(
            d,
            dir,
        ).canonical->Ok_0 && v.dev == fs::facts(d, dir).target->Ok_0.dev && v.ino == fs::facts(
            d,
            dir,
        ).target->Ok_0.ino,
{
    let f = fs::facts(d, dir);
    if f.canonical is Ok && path::key(f.canonical->Ok_0) == path::key(dir) {
        assert(below_any(allowed, f.canonical->Ok_0) <==> exists|i: int|
            0 <= i < allowed.len() && path::covers(
                path::key(#[trigger] allowed[i]),
                path::key(dir),
            )) by {
            if below_any(allowed, f.canonical->Ok_0) {
                let i = choose|i: int|
                    0 <= i < allowed.len() && path::covers(
                        path::key(#[trigger] allowed[i]),
                        path::key(f.canonical->Ok_0),
                    );
                assert(path::covers(path::key(allowed[i]), path::key(dir)));
            }
        }
    }
}

/// A scan directory that a binary reports is privileged below the denylist,
/// verified where it is the provider's own channel and passes, and otherwise
/// only a best effort.
pub proof fn reported_directory_is_classified(
    provider: PhpProvider,
    expected: Seq<char>,
    dir: Seq<char>,
    failure: Option<Seq<char>>,
    allowed: Seq<Seq<char>>,
    d: Disk,
)
    ensures
        ({
            let class = class_of(provider, expected, Some(dir), failure, allowed, d);
            let denied = path::covers(path::key("/usr/local/etc/php"@), path::key(dir));
            &&& denied ==> class == (ClassView::PrivilegedDir { dir })
            &&& !denied && path::key(dir) == path::key(expected) && channel_verdict(
                dir,
                allowed,
                d,
            ) is Ok ==> class == (ClassView::Verified {
                dir: channel_verdict(dir, allowed, d)->Ok_0.path,
            })
            &&& !denied && (path::key(dir) != path::key(expected) || channel_verdict(
                dir,
                allowed,
                d,
            ) is Err) ==> class is BestEffort
        }),
        class_of(provider, expected, None, failure, allowed, d) is BestEffort,
        failure matches Some(f) ==> class_of(provider, expected, None, failure, allowed, d) == (
        ClassView::BestEffort { reason: f }),
{
}

// ---- targets ----
/// A verified command-line binary is written for where its own reports put it:
/// in the channel that it scans with the normal environment, or else in the one
/// that it scans with a sanitized one. Each report classifies its own context.
pub proof fn cli_target_is_written_for(
    id: IdentityView,
    probe: ProbeView,
    roots: RootsView,
    d: Disk,
)
    requires
        id.sapi == PhpSapi::Cli,
        identity_of(id, roots, d) is Ok,
    ensures
        ({
            let t = target_of(id, probe, roots, d);
            let expected = channel_layout(
                id.provider,
                id.version,
                roots.hearth,
                roots.herd,
                roots.homebrew,
            );
            &&& t.id == id && t.probe == probe && t.identity_verified
            &&& probe.normal_scan_dir matches Some(dir) ==> t.normal_channel == class_of(
                id.provider,
                expected,
                Some(dir),
                None,
                roots.allowed,
                d,
            )
            &&& probe.sanitized_scan_dir matches Some(dir) ==> t.sanitized_channel == class_of(
                id.provider,
                expected,
                Some(dir),
                None,
                roots.allowed,
                d,
            )
            &&& probe.normal_scan_dir is None ==> t.normal_channel is BestEffort
            &&& probe.sanitized_scan_dir is None ==> t.sanitized_channel is BestEffort
            &&& t.normal_channel matches ClassView::Verified { dir } ==> t.write_channel == Some(dir)
            &&& !(t.normal_channel is Verified) ==> (t.sanitized_channel matches ClassView::Verified {
                dir,
            } ==> t.write_channel == Some(dir))
            &&& !(t.normal_channel is Verified) && !(t.sanitized_channel is Verified)
                ==> t.write_channel is None
        }),
{
}

/// A verified FPM binary is never executed, and only Hearth's own is written
/// for: in Hearth's channel of its version, where that passes.
pub proof fn fpm_target_is_written_for(
    id: IdentityView,
    probe: ProbeView,
    roots: RootsView,
    d: Disk,
)
    requires
        id.sapi == PhpSapi::Fpm,
        identity_of(id, roots, d) is Ok,
    ensures
        ({
            let t = target_of(id, probe, roots, d);
            let dir = path::joined(
                path::joined(path::joined(roots.hearth, "php"@), id.version),
                "conf.d"@,
            );
            &&& t.id == id && t.identity_verified
            &&& !probeable(id, roots, d)
            &&& t.write_channel == if id.provider == PhpProvider::Hearth && channel_verdict(
                dir,
                roots.allowed,
                d,
            ) is Ok {
                Some(dir)
            } else {
                None
            }
            &&& t.normal_channel is BestEffort && t.sanitized_channel is BestEffort
        }),
{
}

/// Every verified command-line binary is probed.
pub proof fn verified_cli_is_probed(id: IdentityView, roots: RootsView, d: Disk)
    ensures
        probeable(id, roots, d) <==> id.sapi == PhpSapi::Cli && identity_verdict(
            id.provider,
            layout(id.provider, id.sapi, id.version, roots.hearth, roots.herd, roots.homebrew),
            roots.hearth,
            roots.herd,
            roots.homebrew,
            d,
        ) is Ok,
{
}

/// The channel of every Hearth binary whose version has directives, and that
/// is not a directory yet, is among those to be created.
pub proof fn every_missing_channel_is_created(
    ids: Seq<IdentityView>,
    n: int,
    ini: IniStore,
    hearth: Seq<char>,
    d: Disk,
    k: int,
)
    requires
        0 <= k < n <= ids.len(),
        ids[k].provider == PhpProvider::Hearth,
        !bare(ini, ids[k].version),
        ({
            let t = fs::facts(
                d,
                path::joined(
                    path::joined(path::joined(hearth, "php"@), ids[k].version),
                    "conf.d"@,
                ),
            ).target;
            !(t is Ok && t->Ok_0.is_dir)
        }),
    ensures
        exists|i: int|
            0 <= i < missing_channels(ids, n, ini, hearth, d).len() && path::key(
                #[trigger] missing_channels(ids, n, ini, hearth, d)[i],
            ) == path::key(
                path::joined(
                    path::joined(path::joined(hearth, "php"@), ids[k].version),
                    "conf.d"@,
                ),
            ),
    decreases n,
{
    let before = missing_channels(ids, n - 1, ini, hearth, d);
    let all = missing_channels(ids, n, ini, hearth, d);
    let dir = hearth_channel(hearth, ids[k].version);
    if k == n - 1 {
        if lists(before, dir) {
            let i = choose|i: int|
                0 <= i < before.len() && path::key(#[trigger] before[i]) == path::key(dir);
            assert(path::key(all[i]) == path::key(dir));
        } else {
            assert(path::key(all[before.len() as int]) == path::key(dir));
        }
    } else {
        every_missing_channel_is_created(ids, n - 1, ini, hearth, d, k);
        let i = choose|i: int|
            0 <= i < before.len() && path::key(#[trigger] before[i]) == path::key(dir);
        assert(all[i] == before[i]);
    }
}

// ---- what binaries report ----
/// The first line that names the scan directory decides: what follows the
/// marker is its value.
pub proof fn scan_directory_is_in_its_line(lines: Seq<Seq<char>>, i: int)
    requires
        0 <= i < lines.len(),
        forall|j: int|
            0 <= j < i ==> !scan::occurs(
                #[trigger] lines[j],
                "Scan for additional .ini files in:"@,
            ) && !scan::occurs(lines[j], "Scan this dir for additional .ini files =>"@),
    ensures
        scan::after_first(lines[i], "Scan for additional .ini files in:"@) matches Some(raw)
            ==> scan_dir(lines) == scan_value(raw),
        scan::after_first(lines[i], "Scan for additional .ini files in:"@) is None ==> (
        scan::after_first(lines[i], "Scan this dir for additional .ini files =>"@) matches Some(raw)
            ==> scan_dir(lines) == scan_value(raw)),
    decreases i,
{
    if i > 0 {
        let rest = lines.drop_first();
        assert(scan_line(lines[0]) is None);
        assert forall|j: int| 0 <= j < i - 1 implies !scan::occurs(
            #[trigger] rest[j],
            "Scan for additional .ini files in:"@,
        ) && !scan::occurs(rest[j], "Scan this dir for additional .ini files =>"@) by {
            assert(rest[j] == lines[j + 1]);
        }
        scan_directory_is_in_its_line(rest, i - 1);
    }
}

/// Output without such a line names no directory.
pub proof fn no_scan_directory_without_its_line(lines: Seq<Seq<char>>)
    requires
        forall|j: int|
            0 <= j < lines.len() ==> !scan::occurs(
                #[trigger] lines[j],
                "Scan for additional .ini files in:"@,
            ) && !scan::occurs(lines[j], "Scan this dir for additional .ini files =>"@),
    ensures
        scan_dir(lines) is None,
    decreases lines.len(),
{
    if lines.len() > 0 {
        let rest = lines.drop_first();
        assert(scan_line(lines[0]) is None);
        assert forall|j: int| 0 <= j < rest.len() implies !scan::occurs(
            #[trigger] rest[j],
            "Scan for additional .ini files in:"@,
        ) && !scan::occurs(rest[j], "Scan this dir for additional .ini files =>"@) by {
            assert(rest[j] == lines[j + 1]);
        }
        no_scan_directory_without_its_line(rest);
    }
}

/// A plain value is the directory; quotes round it and a colon in front of it
/// are taken off, and an empty one and `(none)` name no directory.
pub proof fn scan_value_is_the_directory(raw: Seq<char>, dir: Seq<char>)
    requires
        dir.len() > 0,
        dir[0] != '"',
        dir[0] != ':',
        dir != "(none)"@,
    ensures
        scan::trimmed(raw, Class::Space) == dir ==> scan_value(raw) == Some(dir),
        scan::trimmed(raw, Class::Space) == ":"@ + dir ==> scan_value(raw) == Some(dir),
        scan::trimmed(raw, Class::Space) == "\""@ + dir + "\""@ ==> scan_value(raw) == Some(dir),
        scan::trimmed(raw, Class::Space) == "(none)"@ ==> scan_value(raw) is None,
        scan::trimmed(raw, Class::Space).len() == 0 ==> scan_value(raw) is None,
{
    reveal_strlit(":");
    reveal_strlit("\"");
    reveal_strlit("(none)");
    let t = scan::trimmed(raw, Class::Space);
    if t == ":"@ + dir {
        assert(t.drop_first() =~= dir);
        assert(unquoted(t) == t);
    }
    if t == "\""@ + dir + "\""@ {
        assert(t.subrange(1, t.len() - 1) =~= dir);
    }
}

/// What is listed are the items, white space and quotes trimmed, but for empty
/// ones and `(none)`, in their order.
pub proof fn listed_paths_are_the_items(items: Seq<Seq<char>>)
    ensures
        listed_paths(items) == items.map_values(
            |item: Seq<char>|
                scan::trimmed(
                    scan::trimmed(scan::trimmed(item, Class::Space), Class::Quote),
                    Class::Space,
                ),
        ).filter(|p: Seq<char>| p.len() > 0 && p != "(none)"@),
    decreases items.len(),
{
    reveal(Seq::filter);
    let bare_item = |item: Seq<char>|
        scan::trimmed(
            scan::trimmed(scan::trimmed(item, Class::Space), Class::Quote),
            Class::Space,
        );
    let solid = |p: Seq<char>| p.len() > 0 && p != "(none)"@;
    let all = items.map_values(bare_item);
    if items.len() > 0 {
        listed_paths_are_the_items(items.drop_last());
        assert(all.drop_last() =~= items.drop_last().map_values(bare_item));
        assert(all.last() == bare_item(items.last()));
        if solid(all.last()) {
            assert(all.filter(solid) == all.drop_last().filter(solid).push(all.last()));
        } else {
            assert(all.filter(solid) == all.drop_last().filter(solid));
        }
    } else {
        assert(all.filter(solid) =~= Seq::empty());
    }
}

/// The files that a binary parsed are those in the first line with the field,
/// and in the lines behind it as long as they go on with a path.
pub proof fn parsed_files_are_listed_in_their_field(lines: Seq<Seq<char>>, i: int, n: int)
    requires
        0 <= i < lines.len(),
        scan::after_first(lines[i], "Additional .ini files parsed"@) is Some,
        forall|j: int|
            0 <= j < i ==> !scan::occurs(#[trigger] lines[j], "Additional .ini files parsed"@),
    ensures
        parsed_files(lines) == listed_paths(
            scan::cut(
                field_value(
                    scan::after_first(lines[i], "Additional .ini files parsed"@)->0,
                ),
                ',',
            ),
        ) + continuation(lines.skip(i + 1)),
        lines.len() == i + 1 ==> continuation(lines.skip(i + 1)).len() == 0,
        i + 1 < lines.len() && (scan::trimmed(lines[i + 1], Class::Space).len() == 0 || (
        scan::trimmed(lines[i + 1], Class::Space)[0] != '/' && scan::trimmed(
            lines[i + 1],
            Class::Space,
        )[0] != '"')) ==> continuation(lines.skip(i + 1)).len() == 0,
        i + 1 < lines.len() && scan::trimmed(lines[i + 1], Class::Space).len() > 0 && (
        scan::trimmed(lines[i + 1], Class::Space)[0] == '/' || scan::trimmed(
            lines[i + 1],
            Class::Space,
        )[0] == '"') ==> continuation(lines.skip(i + 1)) == listed_paths(
            scan::cut(scan::trimmed(lines[i + 1], Class::Space), ','),
        ) + continuation(lines.skip(i + 2)),
    decreases i,
{
    if i + 1 < lines.len() {
        assert(lines.skip(i + 1)[0] == lines[i + 1]);
        assert(lines.skip(i + 1).drop_first() =~= lines.skip(i + 2));
    }
    if i == 0 {
        assert(lines.drop_first() =~= lines.skip(1));
    } else {
        let rest = lines.drop_first();
        assert(rest[i - 1] == lines[i]);
        assert forall|j: int| 0 <= j < i - 1 implies !scan::occurs(
            #[trigger] rest[j],
            "Additional .ini files parsed"@,
        ) by {
            assert(rest[j] == lines[j + 1]);
        }
        assert(!scan::occurs(lines[0], "Additional .ini files parsed"@));
        parsed_files_are_listed_in_their_field(rest, i - 1, n);
        assert(rest.skip(i) =~= lines.skip(i + 1));
    }
}

/// A binary honors the scan directory of its environment where it ran and
/// parsed the marker file; a run that failed tells nothing.
pub proof fn honoring_is_parsing_the_marker(
    status: Seq<char>,
    stdout: Seq<char>,
    marker: Seq<char>,
)
    ensures
        honor_verdict(true, status, stdout, marker) == Ok::<bool, Seq<char>>(
            exists|i: int|
                0 <= i < parsed_files(scan::lines_of(stdout)).len() && path::key(
                    #[trigger] parsed_files(scan::lines_of(stdout))[i],
                ) == path::key(marker),
        ),
        honor_verdict(false, status, stdout, marker) is Err,
{
}

/// What a probe comes to: each context's directory is read from that context's
/// own output, the environment is credited only where the canary says so, and
/// every failure is told.
pub proof fn probe_is_told_by_context(
    home: bool,
    normal: Result<Seq<char>, Seq<char>>,
    sanitized: Result<Seq<char>, Seq<char>>,
    canary: Result<bool, Seq<char>>,
)
    ensures
        ({
            let p = probed(home, normal, sanitized, canary);
            &&& normal matches Ok(out) ==> p.normal_scan_dir == scan_dir(scan::lines_of(out))
            &&& sanitized matches Ok(out) ==> p.sanitized_scan_dir == scan_dir(scan::lines_of(out))
            &&& normal is Err ==> p.normal_scan_dir is None
            &&& sanitized is Err ==> p.sanitized_scan_dir is None
            &&& p.env_honored <==> (canary matches Ok(honored) && honored)
            &&& normal matches Err(e) ==> p.failures.contains("normal probe: "@ + e)
            &&& sanitized matches Err(e) ==> p.failures.contains("sanitized probe: "@ + e)
            &&& canary matches Err(e) ==> p.failures.contains("canary probe: "@ + e)
            &&& home && normal is Ok && sanitized is Ok && canary == Ok::<bool, Seq<char>>(true)
                ==> p.failures.len() == 0
        }),
{
    let p = probed(home, normal, sanitized, canary);
    let h: int = if home {
        0
    } else {
        1
    };
    let n: int = if normal is Err {
        1
    } else {
        0
    };
    let s: int = if sanitized is Err {
        1
    } else {
        0
    };
    if let Err(e) = normal {
        assert(p.failures[h] == "normal probe: "@ + e);
    }
    if let Err(e) = sanitized {
        assert(p.failures[h + n] == "sanitized probe: "@ + e);
    }
    if let Err(e) = canary {
        assert(p.failures[h + n + s] == "canary probe: "@ + e);
    }
}

/// A directive's value is what follows `{key} => ` in the first line that
/// starts so, up to the next ` => `.
pub proof fn effective_value_is_in_its_line(lines: Seq<Seq<char>>, key: Seq<char>, i: int)
    requires
        0 <= i <= lines.len(),
        forall|j: int| 0 <= j < i ==> !(key + " => "@).is_prefix_of(#[trigger] lines[j]),
    ensures
        i < lines.len() && (key + " => "@).is_prefix_of(lines[i]) ==> value_in(lines, key)
            == Some(
            scan::trimmed(
                scan::before_first(lines[i].skip(key.len() + " => "@.len() as int), " => "@),
                Class::Space,
            ),
        ),
        i == lines.len() ==> value_in(lines, key) is None,
    decreases i,
{
    if i > 0 {
        let rest = lines.drop_first();
        assert(!(key + " => "@).is_prefix_of(lines[0]));
        assert forall|j: int| 0 <= j < i - 1 implies !(key + " => "@).is_prefix_of(
            #[trigger] rest[j],
        ) by {
            assert(rest[j] == lines[j + 1]);
        }
        effective_value_is_in_its_line(rest, key, i - 1);
        if i < lines.len() {
            assert(rest[i - 1] == lines[i]);
        }
    }
}

// ---- resolution ----
/// The chain of resolution: Hearth's own binary, then Herd's, then Homebrew's,
/// and nothing where none of them is there.
pub proof fn resolution_goes_down_the_chain(
    version: Seq<char>,
    config_dir: Seq<char>,
    home: Seq<char>,
    d: Disk,
)
    ensures
        ({
            let own = path::joined(
                path::joined(path::joined(config_dir, "php"@), version),
                "php-fpm"@,
            );
            let herd = path::joined(
                path::joined(home, "Library/Application Support/Herd/bin"@),
                "php"@ + scan::without(version, '.') + "-fpm"@,
            );
            let brew = "/opt/homebrew/opt/php@"@ + version + "/sbin/php-fpm"@;
            let there = |p: Seq<char>| fs::facts(d, p).exists;
            &&& resolved_fpm(version, config_dir, Some(home), d) == if there(own) {
                Some(own)
            } else if there(herd) {
                Some(herd)
            } else if there(brew) {
                Some(brew)
            } else {
                None
            }
            &&& resolved_fpm(version, config_dir, None, d) == if there(own) {
                Some(own)
            } else if there(brew) {
                Some(brew)
            } else {
                None
            }
        }),
        ({
            let own = path::joined(
                path::joined(path::joined(config_dir, "php"@), version),
                "php"@,
            );
            let herd = path::joined(
                path::joined(home, "Library/Application Support/Herd/bin"@),
                "php"@ + scan::without(version, '.') + ""@,
            );
            let brew = "/opt/homebrew/opt/php@"@ + version + "/bin/php"@;
            let there = |p: Seq<char>| fs::facts(d, p).exists;
            first_there(
                cached(config_dir, version, "php"@),
                in_herd(Some(home), version, ""@),
                in_homebrew(version, "/bin/php"@),
                d,
            ) == if there(own) {
                Some(own)
            } else if there(herd) {
                Some(herd)
            } else if there(brew) {
                Some(brew)
            } else {
                None
            }
        }),
{
}

/// A file is executable where it is a regular file with any execute bit.
pub open spec fn runnable(m: FileMeta) -> bool {
    m.is_file && m.mode & 0o111 != 0
}

/// An FPM binary is a candidate where it is at its provider's place, is the
/// provider's own, and is an executable file; where it is there and is not, it
/// is rejected; where there is nothing it is passed over.
pub proof fn fpm_candidates_are_looked_at(
    tier: FpmTier,
    version: Seq<char>,
    hearth: Seq<char>,
    herd: Seq<char>,
    homebrew: Seq<char>,
    d: Disk,
)
    ensures
        ({
            let provider = match tier {
                FpmTier::Hearth => PhpProvider::Hearth,
                FpmTier::Herd => PhpProvider::Herd,
                FpmTier::Homebrew => PhpProvider::Homebrew,
            };
            let at = layout(provider, PhpSapi::Fpm, version, hearth, herd, homebrew);
            let f = fs::facts(d, at);
            let id = identity_verdict(provider, at, hearth, herd, homebrew, d);
            let t = fs::facts(d, id->Ok_0).target;
            let fine = f.link is Ok && id is Ok && t is Ok && runnable(t->Ok_0);
            let seen = look(tier, version, hearth, herd, homebrew, d);
            &&& fine ==> seen == (Look::Found {
                canonical: id->Ok_0,
                dev: t->Ok_0.dev,
                ino: t->Ok_0.ino,
            })
            &&& seen is Absent <==> f.link is Err && f.link->Err_0.0
            &&& !fine && !(f.link is Err && f.link->Err_0.0) ==> seen is Rejected
        }),
{
    assert(0x49u32 == 0o111u32);
}

/// Every FPM binary that is found is among the candidates of its version, by
/// the file that it is; every one that is rejected is told.
pub proof fn every_fpm_candidate_is_enumerated(
    tier: FpmTier,
    v: int,
    hearth: Seq<char>,
    herd: Seq<char>,
    homebrew: Seq<char>,
    d: Disk,
)
    requires
        0 <= v < 5,
    ensures
        ({
            let e = enumerated(15, hearth, herd, homebrew, d);
            match look(tier, version_at(v), hearth, herd, homebrew, d) {
                Look::Found { canonical, dev, ino } => exists|j: int|
                    0 <= j < e.found.len() && (#[trigger] e.found[j]).version == version_at(v)
                        && e.files[j] == (dev, ino),
                Look::Rejected { reason } => exists|j: int|
                    0 <= j < e.rejected.len() && (#[trigger] e.rejected[j]).version == version_at(
                        v,
                    ) && e.rejected[j].tier == tier && e.rejected[j].reason == reason,
                Look::Absent => true,
            }
        }),
{
    versions_are_supported(v);
    let k: int = v * 3 + match tier {
        FpmTier::Hearth => 0int,
        FpmTier::Herd => 1,
        FpmTier::Homebrew => 2,
    };
    assert(k / 3 == v);
    assert(entry(k) == (tier, v));
    kept_in_enumeration(15, k, tier, version_at(v), hearth, herd, homebrew, d);
}

proof fn kept_in_enumeration(
    n: int,
    k: int,
    tier: FpmTier,
    version: Seq<char>,
    hearth: Seq<char>,
    herd: Seq<char>,
    homebrew: Seq<char>,
    d: Disk,
)
    requires
        0 <= k < n <= 15,
        entry(k).0 == tier,
        SUPPORTED_VERSIONS@[entry(k).1]@ == version,
    ensures
        ({
            let e = enumerated(n, hearth, herd, homebrew, d);
            &&& e.found.len() == e.files.len()
            &&& match look(tier, version, hearth, herd, homebrew, d) {
                Look::Found { canonical, dev, ino } => exists|j: int|
                    0 <= j < e.found.len() && (#[trigger] e.found[j]).version == version
                        && e.files[j] == (dev, ino),
                Look::Rejected { reason } => exists|j: int|
                    0 <= j < e.rejected.len() && (#[trigger] e.rejected[j]).version == version
                        && e.rejected[j].tier == tier && e.rejected[j].reason == reason,
                Look::Absent => true,
            }
        }),
    decreases n,
{
    let b = enumerated(n - 1, hearth, herd, homebrew, d);
    let e = enumerated(n, hearth, herd, homebrew, d);
    in_step(n - 1, hearth, herd, homebrew, d);
    match look(tier, version, hearth, herd, homebrew, d) {
        Look::Found { canonical, dev, ino } => {
            if k == n - 1 {
                if already(b, version, dev, ino) {
                    let j = choose|j: int|
                        0 <= j < b.found.len() && (#[trigger] b.found[j]).version == version
                            && b.files[j] == (dev, ino);
                    assert(e.found[j].version == version);
                } else {
                    assert(e.found[b.found.len() as int].version == version);
                }
            } else {
                kept_in_enumeration(n - 1, k, tier, version, hearth, herd, homebrew, d);
                let j = choose|j: int|
                    0 <= j < b.found.len() && (#[trigger] b.found[j]).version == version
                        && b.files[j] == (dev, ino);
                assert(e.found[j] == b.found[j] && e.files[j] == b.files[j]);
            }
        },
        Look::Rejected { reason } => {
            if k == n - 1 {
                assert(e.rejected[b.rejected.len() as int].version == version);
            } else {
                kept_in_enumeration(n - 1, k, tier, version, hearth, herd, homebrew, d);
                let j = choose|j: int|
                    0 <= j < b.rejected.len() && (#[trigger] b.rejected[j]).version == version
                        && b.rejected[j].tier == tier && b.rejected[j].reason == reason;
                assert(e.rejected[j] == b.rejected[j]);
            }
        },
        Look::Absent => {},
    }
}

proof fn in_step(n: int, hearth: Seq<char>, herd: Seq<char>, homebrew: Seq<char>, d: Disk)
    ensures
        enumerated(n, hearth, herd, homebrew, d).found.len() == enumerated(
            n,
            hearth,
            herd,
            homebrew,
            d,
        ).files.len(),
    decreases n,
{
    if n > 0 {
        in_step(n - 1, hearth, herd, homebrew, d);
    }
}

/// Hearth's own binary is preferred to Herd's, and Herd's to Homebrew's.
pub proof fn tiers_are_ranked()
    ensures
        rank(FpmTier::Hearth) < rank(FpmTier::Herd) < rank(FpmTier::Homebrew),
{
}

/// The candidate that is served: where the resolver picked a binary that is
/// one of the candidates, that one and without complaint; where it picked
/// none, the best of the version.
pub proof fn served_candidate_is_the_pick(
    version: Seq<char>,
    pick: Option<Seq<char>>,
    hearth: Seq<char>,
    herd: Seq<char>,
    homebrew: Seq<char>,
    c: Seq<CandidateView>,
    d: Disk,
)
    ensures
        match serve_choice(version, pick, hearth, herd, homebrew, c, d) {
            Some((i, complaint)) => {
                &&& pick is None ==> complaint is None
                &&& pick matches Some(p) ==> {
                    &&& mapping(p, version, hearth, herd, homebrew, c, d) matches Ok(k) ==> i == k
                        && complaint is None
                    &&& mapping(p, version, hearth, herd, homebrew, c, d) is Err ==> complaint
                        is Some
                }
                &&& pick is None || complaint is Some ==> Some(i) == fallback(
                    c,
                    version,
                    c.len() as int,
                )
            },
            None => fallback(c, version, c.len() as int) is None,
        },
{
}

/// A pick is one of the candidates where it is at a provider's place, is that
/// provider's own executable file, and a candidate of the version is that very
/// file.
pub proof fn pick_is_mapped_to_its_file(
    pick: Seq<char>,
    version: Seq<char>,
    hearth: Seq<char>,
    herd: Seq<char>,
    homebrew: Seq<char>,
    c: Seq<CandidateView>,
    d: Disk,
)
    ensures
        mapping(pick, version, hearth, herd, homebrew, c, d) matches Ok(i) ==> exists|
            provider: PhpProvider,
        |
            {
                let at = #[trigger] layout(
                    provider,
                    PhpSapi::Fpm,
                    version,
                    hearth,
                    herd,
                    homebrew,
                );
                let id = identity_verdict(provider, at, hearth, herd, homebrew, d);
                &&& path::key(at) == path::key(pick)
                &&& id is Ok
                &&& fs::facts(d, id->Ok_0).target is Ok
                &&& runnable(fs::facts(d, id->Ok_0).target->Ok_0)
                &&& 0 <= i < c.len()
                &&& c[i].version == version
                &&& path::key(c[i].canonical) == path::key(id->Ok_0) || (fs::facts(
                    d,
                    c[i].canonical,
                ).target is Ok && fs::facts(d, c[i].canonical).target->Ok_0.dev == fs::facts(
                    d,
                    id->Ok_0,
                ).target->Ok_0.dev && fs::facts(d, c[i].canonical).target->Ok_0.ino == fs::facts(
                    d,
                    id->Ok_0,
                ).target->Ok_0.ino)
            },
{
    assert(0x49u32 == 0o111u32);
    if let Ok(i) = mapping(pick, version, hearth, herd, homebrew, c, d) {
        let tier = tier_at(pick, version, hearth, herd, homebrew)->0;
        let provider = provider_of(tier);
        let at = layout(provider, PhpSapi::Fpm, version, hearth, herd, homebrew);
        let id = identity_verdict(provider, at, hearth, herd, homebrew, d);
        let m = fs::facts(d, id->Ok_0).target->Ok_0;
        mapped_is_the_file(c, version, id->Ok_0, m, d, 0);
    }
}

proof fn mapped_is_the_file(
    c: Seq<CandidateView>,
    version: Seq<char>,
    verified: Seq<char>,
    m: FileMeta,
    d: Disk,
    k: int,
)
    requires
        0 <= k,
    ensures
        crate::php::resolver::mapped(c, version, verified, m, d, k) matches Some(i) ==> 0 <= i
            < c.len() && crate::php::resolver::is_the_one(c[i], version, verified, m, d),
    decreases c.len() - k,
{
    if k < c.len() && !crate::php::resolver::is_the_one(c[k], version, verified, m, d) {
        mapped_is_the_file(c, version, verified, m, d, k + 1);
    }
}

/// A probe that succeeded reports what it printed, trimmed; FPM's own report is
/// read for the key. A probe that failed reports nothing.
pub proof fn probes_report_what_was_printed(stdout: Seq<char>, key: Seq<char>)
    ensures
        cli_reported(true, stdout) == Some(scan::trimmed(stdout, Class::Space)),
        cli_reported(false, stdout) is None,
        fpm_reported(true, stdout, key) == value_in(scan::lines_of(stdout), key),
        fpm_reported(false, stdout, key) is None,
{
}

/// The value of a field is what follows it, without white space and separators
/// in front, and without white space behind.
pub proof fn field_value_is_what_follows(raw: Seq<char>, value: Seq<char>)
    requires
        value.len() > 0,
        !text::whitespace(value[0]),
        !text::whitespace(value.last()),
        value[0] != ':' && value[0] != '=' && value[0] != '>',
    ensures
        raw == value ==> field_value(raw) == value,
        raw == ": "@ + value ==> field_value(raw) == value,
        raw == " => "@ + value ==> field_value(raw) == value,
{
    reveal_strlit(": ");
    reveal_strlit(" => ");
    reveal_with_fuel(scan::left_trimmed, 4);
    reveal_with_fuel(scan::right_trimmed, 2);
    if raw == ": "@ + value {
        assert(raw[0] == ':' && raw[1] == ' ');
        assert(raw.drop_first().drop_first() =~= value);
        assert(raw.drop_first()[0] == ' ');
    }
    if raw == " => "@ + value {
        assert(raw[0] == ' ' && raw[1] == '=' && raw[2] == '>' && raw[3] == ' ');
        let a = raw.drop_first();
        let b = a.drop_first();
        let c = b.drop_first();
        assert(a[0] == '=' && b[0] == '>' && c[0] == ' ');
        assert(c.drop_first() =~= value);
        assert(scan::left_trimmed(raw, Class::Space) == a);
        assert(scan::left_trimmed(a, Class::Separator) == c);
        assert(scan::left_trimmed(c, Class::Space) == value);
    }
}

/// A reason is told in at most 512 characters: its first ones.
pub proof fn reasons_are_bounded(reason: Seq<char>)
    ensures
        bounded(reason).len() <= 512,
        reason.len() <= 512 ==> bounded(reason) == reason,
        reason.len() > 512 ==> bounded(reason) == reason.take(512),
{
}

/// A context without a directory tells the first failure of its own probe.
pub proof fn failed_probe_is_told_for_its_context(
    id: IdentityView,
    probe: ProbeView,
    roots: RootsView,
    d: Disk,
    i: int,
)
    requires
        id.sapi == PhpSapi::Cli,
        identity_of(id, roots, d) is Ok,
        0 <= i < probe.failures.len(),
    ensures
        probe.normal_scan_dir is None && "normal probe:"@.is_prefix_of(probe.failures[i]) && (
        forall|j: int| 0 <= j < i ==> !"normal probe:"@.is_prefix_of(#[trigger] probe.failures[j]))
            ==> target_of(id, probe, roots, d).normal_channel == (ClassView::BestEffort {
            reason: probe.failures[i],
        }),
        probe.sanitized_scan_dir is None && "sanitized probe:"@.is_prefix_of(probe.failures[i]) && (
        forall|j: int|
            0 <= j < i ==> !"sanitized probe:"@.is_prefix_of(#[trigger] probe.failures[j]))
            ==> target_of(id, probe, roots, d).sanitized_channel == (ClassView::BestEffort {
            reason: probe.failures[i],
        }),
{
    if "normal probe:"@.is_prefix_of(probe.failures[i]) && (forall|j: int|
        0 <= j < i ==> !"normal probe:"@.is_prefix_of(#[trigger] probe.failures[j])) {
        first_failure(probe.failures, "normal probe:"@, 0, i);
    }
    if "sanitized probe:"@.is_prefix_of(probe.failures[i]) && (forall|j: int|
        0 <= j < i ==> !"sanitized probe:"@.is_prefix_of(#[trigger] probe.failures[j])) {
        first_failure(probe.failures, "sanitized probe:"@, 0, i);
    }
}

proof fn first_failure(failures: Seq<Seq<char>>, prefix: Seq<char>, k: int, i: int)
    requires
        0 <= k <= i < failures.len(),
        prefix.is_prefix_of(failures[i]),
        forall|j: int| 0 <= j < i ==> !prefix.is_prefix_of(#[trigger] failures[j]),
    ensures
        failure_like(failures, prefix, k) == Some(failures[i]),
    decreases i - k,
{
    if k < i {
        first_failure(failures, prefix, k + 1, i);
    }
}

/// A directory that was just created is a channel where it passes as one below
/// the Hearth root.
pub proof fn created_channel_must_pass(
    dir: Seq<char>,
    root: Seq<char>,
    e: Seq<char>,
    d: Disk,
)
    ensures
        created_verdict(dir, root, Ok(()), d) == channel_verdict(dir, seq![root], d),
        created_verdict(dir, root, Err(e), d) is Err,
{
}

/// Going down and up again is going nowhere; names go down one by one.
pub proof fn climbing_is_undone_by_names(
    base: Seq<Seq<char>>,
    m: Seq<Seq<char>>,
    name: Seq<char>,
)
    requires
        name != ".."@,
    ensures
        landed(base, Seq::empty()) == base,
        landed(base, m.push(name)) == landed(base, m).push(name),
        landed(base, m.push(name).push(".."@)) == landed(base, m),
        landed(base, m).len() > 0 ==> landed(base, m.push(".."@)) == landed(base, m).drop_last(),
        depth(m.push(name)) == depth(m) + 1,
        depth(m.push(".."@)) == depth(m) - 1,
        depth(Seq::empty()) == 0,
{
    assert(m.push(name).drop_last() =~= m);
    assert(m.push(".."@).drop_last() =~= m);
    assert(m.push(name).push(".."@).drop_last() =~= m.push(name));
    assert(landed(base, m).push(name).drop_last() =~= landed(base, m));
}

/// What a path stands for: itself where its missing part does not climb, and
/// otherwise where the climbing ends, from the existing part or, where it leads
/// out of that, from where that part lies.
pub proof fn climbing_path_stands_for_its_end(p: Seq<char>, d: Disk)
    ensures
        !missing(p, d).contains(".."@) ==> site_of(p, d) == p,
        missing(p, d).contains(".."@) && path::rooted(p) && (forall|i: int|
            0 <= i <= missing(p, d).len() ==> depth(#[trigger] missing(p, d).take(i)) >= 0)
            ==> site_of(p, d) == "/"@ + scan::glued(
            landed(path::parts(deepest(d, p)), missing(p, d)),
            "/"@,
        ),
        missing(p, d).contains(".."@) && path::rooted(resolved(p, d)) && (exists|i: int|
            0 <= i <= missing(p, d).len() && depth(#[trigger] missing(p, d).take(i)) < 0)
            ==> site_of(p, d) == "/"@ + scan::glued(
            landed(path::parts(resolved(p, d)), missing(p, d)),
            "/"@,
        ),
        missing(p, d) == path::parts(p).skip(path::parts(deepest(d, p)).len() as int),
        fs::facts(d, p).exists ==> deepest(d, p) == p,
        !fs::facts(d, p).exists && path::parts(p).len() > 0 ==> deepest(d, p) == deepest(
            d,
            path::dir_of(p),
        ),
        fs::facts(d, deepest(d, p)).canonical matches Ok(c) ==> resolved(p, d) == c,
        fs::facts(d, deepest(d, p)).canonical is Err ==> resolved(p, d) == deepest(d, p),
{
    crate::php::channel_dir::deepest_is_no_longer(d, p);
}

} // verus!
