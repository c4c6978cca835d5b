//! What the parts below the services and PHP promise, said in plain terms: the
//! list of sites, the choice between Valet and Herd, and the handling of text
//! and paths that everything rests on.

use crate::clock;
use crate::fs::{self, Disk, FactsView};
use crate::path::{self, PathKey};
use crate::scan::{self, Class};
use crate::site::{
    by_name, isolated_php, linked_sites, listing_is_sorted, merged, served_sites, ManagerView,
    SiteEntryView, SiteView,
};
use crate::socket::{hard_lines, FileResultView, FileView};
use crate::text;
use crate::valet::{
    backend_verdict, herd_places, install_next, opt_args, verdict, BackendPolicy, CommandView,
    InstallView, SiteBackendKind,
};
use vstd::prelude::*;

verus! {

// ---- sites ----
/// Whether the certificate of a site is there, below Valet's home.
pub open spec fn has_certificate(home: Seq<char>, name: Seq<char>, d: Disk) -> bool {
    fs::facts(d, path::joined(path::joined(home, "Certificates"@), name + ".crt"@)).exists
}

/// Whether a name is that of a hidden file.
pub open spec fn dotted(name: Seq<char>) -> bool {
    name.len() > 0 && name[0] == '.'
}

/// The site that an entry of `Sites/` stands for.
pub open spec fn linked_as(
    m: ManagerView,
    e: SiteEntryView,
    files: Seq<(Seq<char>, Seq<char>)>,
    d: Disk,
) -> SiteView {
    SiteView {
        name: e.name,
        path: if e.link is Some {
            e.link->0
        } else {
            path::joined(path::joined(m.home, "Sites"@), e.name)
        },
        secured: has_certificate(m.home, e.name, d),
        php_version: isolated_php(files, e.name, m.tld),
    }
}

/// The site that an entry of `Nginx/` stands for.
pub open spec fn served_as(
    m: ManagerView,
    e: SiteEntryView,
    files: Seq<(Seq<char>, Seq<char>)>,
    d: Disk,
) -> SiteView {
    SiteView {
        name: e.name,
        path: if e.link is Some {
            e.link->0
        } else {
            Seq::empty()
        },
        secured: has_certificate(m.home, e.name, d),
        php_version: isolated_php(files, e.name, m.tld),
    }
}

/// Every listed site, whichever directory it comes from, is secured exactly
/// where its certificate is there, has the version that it is isolated to, and
/// is no hidden file.
pub proof fn listed_sites_are_told_truly(
    m: ManagerView,
    linked: Seq<SiteEntryView>,
    served: Seq<SiteEntryView>,
    files: Seq<(Seq<char>, Seq<char>)>,
    d: Disk,
    i: int,
)
    requires
        0 <= i < by_name(merged(m, linked, served, files, d)).len(),
    ensures
        ({
            let s = by_name(merged(m, linked, served, files, d))[i];
            &&& s.secured == fs::facts(
                d,
                path::joined(path::joined(m.home, "Certificates"@), s.name + ".crt"@),
            ).exists
            &&& s.php_version == isolated_php(files, s.name, m.tld)
            &&& !dotted(s.name)
            &&& comes_from_linked(m, linked, files, d, s) || comes_from_served(
                m,
                served,
                files,
                d,
                s,
            )
        }),
{
    let all = merged(m, linked, served, files, d);
    let list = by_name(all);
    let first = linked_sites(m, linked, linked.len() as int, files, d);
    let rest = served_sites(m, served, served.len() as int, first, files, d);
    listing_is_sorted(all);
    same_members(list, all, i);
    let k = choose|k: int| 0 <= k < all.len() && all[k] == list[i];
    if k < first.len() {
        linked_comes_from(m, linked, linked.len() as int, files, d, k);
    } else {
        assert(all[k] == rest[k - first.len()]);
        served_comes_from(m, served, served.len() as int, first, files, d, k - first.len());
    }
}

/// Whether a site is that of a visible entry of `Sites/`.
pub open spec fn comes_from_linked(
    m: ManagerView,
    linked: Seq<SiteEntryView>,
    files: Seq<(Seq<char>, Seq<char>)>,
    d: Disk,
    s: SiteView,
) -> bool {
    exists|k: int|
        0 <= k < linked.len() && !dotted(linked[k].name) && s == linked_as(
            m,
            #[trigger] linked[k],
            files,
            d,
        )
}

/// Whether a site is that of a visible entry of `Nginx/`.
pub open spec fn comes_from_served(
    m: ManagerView,
    served: Seq<SiteEntryView>,
    files: Seq<(Seq<char>, Seq<char>)>,
    d: Disk,
    s: SiteView,
) -> bool {
    exists|k: int|
        0 <= k < served.len() && !dotted(served[k].name) && s == served_as(
            m,
            #[trigger] served[k],
            files,
            d,
        )
}

proof fn same_members(a: Seq<SiteView>, b: Seq<SiteView>, i: int)
    requires
        a.to_multiset() == b.to_multiset(),
        0 <= i < a.len(),
    ensures
        b.contains(a[i]),
{
    broadcast use vstd::seq_lib::group_to_multiset_ensures;

    assert(a.contains(a[i]));
    assert(a.to_multiset().count(a[i]) > 0);
    assert(b.to_multiset().count(a[i]) > 0);
}

proof fn linked_comes_from(
    m: ManagerView,
    linked: Seq<SiteEntryView>,
    n: int,
    files: Seq<(Seq<char>, Seq<char>)>,
    d: Disk,
    k: int,
)
    requires
        0 <= n <= linked.len(),
        0 <= k < linked_sites(m, linked, n, files, d).len(),
    ensures
        comes_from_linked(m, linked, files, d, linked_sites(m, linked, n, files, d)[k]),
    decreases n,
{
    let before = linked_sites(m, linked, n - 1, files, d);
    if k < before.len() {
        linked_comes_from(m, linked, n - 1, files, d, k);
    } else {
        assert(linked_sites(m, linked, n, files, d)[k] == linked_as(m, linked[n - 1], files, d));
    }
}

proof fn served_comes_from(
    m: ManagerView,
    served: Seq<SiteEntryView>,
    n: int,
    known: Seq<SiteView>,
    files: Seq<(Seq<char>, Seq<char>)>,
    d: Disk,
    k: int,
)
    requires
        0 <= n <= served.len(),
        0 <= k < served_sites(m, served, n, known, files, d).len(),
    ensures
        comes_from_served(
            m,
            served,
            files,
            d,
            served_sites(m, served, n, known, files, d)[k],
        ),
    decreases n,
{
    let before = served_sites(m, served, n - 1, known, files, d);
    if k < before.len() {
        served_comes_from(m, served, n - 1, known, files, d, k);
    } else {
        assert(served_sites(m, served, n, known, files, d)[k] == served_as(
            m,
            served[n - 1],
            files,
            d,
        ));
    }
}

/// Every visible entry of `Sites/` is listed, where its link leads or where it
/// is itself.
pub proof fn every_linked_site_is_listed(
    m: ManagerView,
    linked: Seq<SiteEntryView>,
    served: Seq<SiteEntryView>,
    files: Seq<(Seq<char>, Seq<char>)>,
    d: Disk,
    k: int,
)
    requires
        0 <= k < linked.len(),
        !dotted(linked[k].name),
    ensures
        by_name(merged(m, linked, served, files, d)).contains(linked_as(m, linked[k], files, d)),
{
    let all = merged(m, linked, served, files, d);
    let first = linked_sites(m, linked, linked.len() as int, files, d);
    listing_is_sorted(all);
    let j = linked_found(m, linked, linked.len() as int, files, d, k);
    assert(all[j] == first[j]);
    same_members(all, by_name(all), j);
}

proof fn linked_found(
    m: ManagerView,
    linked: Seq<SiteEntryView>,
    n: int,
    files: Seq<(Seq<char>, Seq<char>)>,
    d: Disk,
    k: int,
) -> (j: int)
    requires
        0 <= k < n <= linked.len(),
        !dotted(linked[k].name),
    ensures
        0 <= j < linked_sites(m, linked, n, files, d).len(),
        linked_sites(m, linked, n, files, d)[j] == linked_as(m, linked[k], files, d),
    decreases n,
{
    let before = linked_sites(m, linked, n - 1, files, d);
    if k == n - 1 {
        before.len() as int
    } else {
        linked_found(m, linked, n - 1, files, d, k)
    }
}

/// Every visible entry of `Nginx/` is listed, unless `Sites/` has a visible
/// entry of its name.
pub proof fn every_served_site_is_listed(
    m: ManagerView,
    linked: Seq<SiteEntryView>,
    served: Seq<SiteEntryView>,
    files: Seq<(Seq<char>, Seq<char>)>,
    d: Disk,
    k: int,
)
    requires
        0 <= k < served.len(),
        !dotted(served[k].name),
        forall|j: int|
            0 <= j < linked.len() ==> (#[trigger] linked[j]).name != served[k].name,
    ensures
        by_name(merged(m, linked, served, files, d)).contains(served_as(m, served[k], files, d)),
{
    let all = merged(m, linked, served, files, d);
    let first = linked_sites(m, linked, linked.len() as int, files, d);
    let rest = served_sites(m, served, served.len() as int, first, files, d);
    listing_is_sorted(all);
    assert forall|i: int| 0 <= i < first.len() implies (#[trigger] first[i]).name
        != served[k].name by {
        linked_comes_from(m, linked, linked.len() as int, files, d, i);
        let j = choose|j: int|
            0 <= j < linked.len() && !dotted(linked[j].name) && first[i] == linked_as(
                m,
                #[trigger] linked[j],
                files,
                d,
            );
        assert(linked[j].name != served[k].name);
    }
    let j = served_found(m, served, served.len() as int, first, files, d, k);
    assert(all[first.len() + j] == rest[j]);
    same_members(all, by_name(all), first.len() + j);
}

proof fn served_found(
    m: ManagerView,
    served: Seq<SiteEntryView>,
    n: int,
    known: Seq<SiteView>,
    files: Seq<(Seq<char>, Seq<char>)>,
    d: Disk,
    k: int,
) -> (j: int)
    requires
        0 <= k < n <= served.len(),
        !dotted(served[k].name),
        forall|i: int| 0 <= i < known.len() ==> (#[trigger] known[i]).name != served[k].name,
    ensures
        0 <= j < served_sites(m, served, n, known, files, d).len(),
        served_sites(m, served, n, known, files, d)[j] == served_as(m, served[k], files, d),
    decreases n,
{
    let before = served_sites(m, served, n - 1, known, files, d);
    if k == n - 1 {
        before.len() as int
    } else {
        served_found(m, served, n - 1, known, files, d, k)
    }
}

/// No name of `Sites/` is listed a second time for `Nginx/`: there are as many
/// sites as visible entries of `Sites/`, and as visible entries of `Nginx/`
/// with other names.
pub proof fn sites_are_listed_once(
    m: ManagerView,
    linked: Seq<SiteEntryView>,
    served: Seq<SiteEntryView>,
    files: Seq<(Seq<char>, Seq<char>)>,
    d: Disk,
)
    ensures
        by_name(merged(m, linked, served, files, d)).len() == linked.filter(
            |e: SiteEntryView| !dotted(e.name),
        ).len() + served.filter(
            |e: SiteEntryView| !dotted(e.name) && !listed(linked, e.name),
        ).len(),
{
    broadcast use vstd::seq_lib::group_to_multiset_ensures;

    let all = merged(m, linked, served, files, d);
    let first = linked_sites(m, linked, linked.len() as int, files, d);
    listing_is_sorted(all);
    assert(by_name(all).len() == by_name(all).to_multiset().len());
    assert(all.len() == all.to_multiset().len());
    count_linked(m, linked, linked.len() as int, files, d);
    assert(linked.take(linked.len() as int) =~= linked);
    assert forall|name: Seq<char>| #[trigger] crate::site::has_site(first, name) == listed(
        linked,
        name,
    ) by {
        if crate::site::has_site(first, name) {
            let i = choose|i: int| 0 <= i < first.len() && (#[trigger] first[i]).name == name;
            linked_comes_from(m, linked, linked.len() as int, files, d, i);
            let j = choose|j: int|
                0 <= j < linked.len() && !dotted(linked[j].name) && first[i] == linked_as(
                    m,
                    #[trigger] linked[j],
                    files,
                    d,
                );
            assert(linked[j].name == name);
        }
        if listed(linked, name) {
            let j = choose|j: int|
                0 <= j < linked.len() && (#[trigger] linked[j]).name == name && !dotted(name);
            let i = linked_found(m, linked, linked.len() as int, files, d, j);
            assert(first[i].name == name);
        }
    }
    count_served(m, linked, served, served.len() as int, first, files, d);
    assert(served.take(served.len() as int) =~= served);
}

/// Whether `Sites/` has a visible entry of a name.
pub open spec fn listed(linked: Seq<SiteEntryView>, name: Seq<char>) -> bool {
    exists|j: int| 0 <= j < linked.len() && (#[trigger] linked[j]).name == name && !dotted(name)
}

proof fn count_linked(
    m: ManagerView,
    linked: Seq<SiteEntryView>,
    n: int,
    files: Seq<(Seq<char>, Seq<char>)>,
    d: Disk,
)
    requires
        0 <= n <= linked.len(),
    ensures
        linked_sites(m, linked, n, files, d).len() == linked.take(n).filter(
            |e: SiteEntryView| !dotted(e.name),
        ).len(),
    decreases n,
{
    reveal(Seq::filter);
    let f = |e: SiteEntryView| !dotted(e.name);
    let t = linked.take(n);
    if n > 0 {
        count_linked(m, linked, n - 1, files, d);
        assert(t.drop_last() =~= linked.take(n - 1));
        if f(t.last()) {
            assert(t.filter(f) == t.drop_last().filter(f).push(t.last()));
        } else {
            assert(t.filter(f) == t.drop_last().filter(f));
        }
    }
}

proof fn count_served(
    m: ManagerView,
    linked: Seq<SiteEntryView>,
    served: Seq<SiteEntryView>,
    n: int,
    known: Seq<SiteView>,
    files: Seq<(Seq<char>, Seq<char>)>,
    d: Disk,
)
    requires
        0 <= n <= served.len(),
        forall|name: Seq<char>| #[trigger]
            crate::site::has_site(known, name) == listed(linked, name),
    ensures
        served_sites(m, served, n, known, files, d).len() == served.take(n).filter(
            |e: SiteEntryView| !dotted(e.name) && !listed(linked, e.name),
        ).len(),
    decreases n,
{
    reveal(Seq::filter);
    let f = |e: SiteEntryView| !dotted(e.name) && !listed(linked, e.name);
    let t = served.take(n);
    if n > 0 {
        count_served(m, linked, served, n - 1, known, files, d);
        assert(t.drop_last() =~= served.take(n - 1));
        assert(crate::site::has_site(known, t.last().name) == listed(linked, t.last().name));
        if f(t.last()) {
            assert(t.filter(f) == t.drop_last().filter(f).push(t.last()));
        } else {
            assert(t.filter(f) == t.drop_last().filter(f));
        }
    }
}

/// The first file of a name decides what it says.
pub open spec fn says(files: Seq<(Seq<char>, Seq<char>)>, name: Seq<char>, i: int) -> bool {
    &&& 0 <= i < files.len()
    &&& files[i].0 == name
    &&& forall|j: int| 0 <= j < i ==> (#[trigger] files[j]).0 != name
}

/// A site is isolated to what the file `{site}.{tld}` holds, white space
/// trimmed; where there is no such file, or nothing in it, to what the file
/// `{site}` holds; and otherwise to nothing.
pub proof fn isolation_is_read_from_its_files(
    files: Seq<(Seq<char>, Seq<char>)>,
    site: Seq<char>,
    tld: Seq<char>,
    i: int,
    j: int,
)
    ensures
        says(files, site + "."@ + tld, i) && scan::trimmed(files[i].1, Class::Space).len() > 0
            ==> isolated_php(files, site, tld) == Some(scan::trimmed(files[i].1, Class::Space)),
        (says(files, site + "."@ + tld, i) && scan::trimmed(files[i].1, Class::Space).len() == 0
            || forall|k: int| 0 <= k < files.len() ==> (#[trigger] files[k]).0 != site + "."@ + tld)
            ==> {
            &&& says(files, site, j) && scan::trimmed(files[j].1, Class::Space).len() > 0
                ==> isolated_php(files, site, tld) == Some(
                scan::trimmed(files[j].1, Class::Space),
            )
            &&& says(files, site, j) && scan::trimmed(files[j].1, Class::Space).len() == 0
                ==> isolated_php(files, site, tld) is None
            &&& (forall|k: int| 0 <= k < files.len() ==> (#[trigger] files[k]).0 != site)
                ==> isolated_php(files, site, tld) is None
        },
{
    let full = site + "."@ + tld;
    assert(site + ("."@ + tld) =~= full);
    if says(files, full, i) {
        content_found(files, full, i, 0);
    }
    if says(files, site, j) {
        content_found(files, site, j, 0);
    }
    if forall|k: int| 0 <= k < files.len() ==> (#[trigger] files[k]).0 != full {
        content_missing(files, full, 0);
    }
    if forall|k: int| 0 <= k < files.len() ==> (#[trigger] files[k]).0 != site {
        content_missing(files, site, 0);
    }
}

proof fn content_found(files: Seq<(Seq<char>, Seq<char>)>, name: Seq<char>, i: int, k: int)
    requires
        says(files, name, i),
        0 <= k <= i,
    ensures
        crate::site::content_of(files, name, k) == Some(files[i].1),
    decreases i - k,
{
    if k < i {
        content_found(files, name, i, k + 1);
    }
}

proof fn content_missing(files: Seq<(Seq<char>, Seq<char>)>, name: Seq<char>, k: int)
    requires
        forall|j: int| 0 <= j < files.len() ==> (#[trigger] files[j]).0 != name,
        0 <= k,
    ensures
        crate::site::content_of(files, name, k) is None,
    decreases files.len() - k,
{
    if k < files.len() {
        content_missing(files, name, k + 1);
    }
}

// ---- Valet and Herd ----
/// The Herd CLI is looked for below the configuration directory first, and
/// then below the home directory; each place that is known is among those
/// looked at, under some spelling.
pub proof fn herd_is_looked_for(config_dir: Option<Seq<char>>, home: Option<Seq<char>>)
    ensures
        ({
            let places = herd_places(config_dir, home);
            &&& config_dir matches Some(c) ==> places.len() > 0 && places[0] == path::joined(
                c,
                "Herd/bin/herd"@,
            )
            &&& home matches Some(h) ==> places.len() > 0 && path::key(places.last()) == path::key(
                path::joined(h, "Library/Application Support/Herd/bin/herd"@),
            )
            &&& config_dir is None && home is None ==> places.len() == 0
            &&& places.len() <= 2
        }),
{
}

/// While Herd runs, a command that Herd can take goes to the first of its
/// places at which there is a file; where there is none it is refused, and
/// never handed to Valet.
pub proof fn running_herd_gets_the_command(
    config_dir: Option<Seq<char>>,
    home: Option<Seq<char>>,
    d: Disk,
    i: int,
)
    ensures
        ({
            let places = herd_places(config_dir, home);
            let file = |p: Seq<char>|
                fs::facts(d, p).target is Ok && fs::facts(d, p).target->Ok_0.is_file;
            let r = backend_verdict(BackendPolicy::HerdAware, true, config_dir, home, d);
            &&& 0 <= i < places.len() && file(places[i]) && (forall|j: int|
                0 <= j < i ==> !file(#[trigger] places[j])) ==> (r matches Ok(b)
                && b.kind == SiteBackendKind::Herd && b.executable == places[i])
            &&& (forall|j: int| 0 <= j < places.len() ==> !file(#[trigger] places[j])) ==> r is Err
        }),
{
    let places = herd_places(config_dir, home);
    let file = |p: Seq<char>| fs::facts(d, p).target is Ok && fs::facts(d, p).target->Ok_0.is_file;
    if 0 <= i < places.len() && file(places[i]) && (forall|j: int|
        0 <= j < i ==> !file(#[trigger] places[j])) {
        first_file_found(places, d, i, 0);
    }
    if forall|j: int| 0 <= j < places.len() ==> !file(#[trigger] places[j]) {
        no_file_found(places, d, 0);
    }
}

proof fn first_file_found(places: Seq<Seq<char>>, d: Disk, i: int, k: int)
    requires
        0 <= k <= i < places.len(),
        fs::facts(d, places[i]).target is Ok && fs::facts(d, places[i]).target->Ok_0.is_file,
        forall|j: int|
            0 <= j < i ==> !(fs::facts(d, #[trigger] places[j]).target is Ok && fs::facts(
                d,
                places[j],
            ).target->Ok_0.is_file),
    ensures
        crate::valet::first_file(places, d, k) == Some(places[i]),
    decreases i - k,
{
    if k < i {
        first_file_found(places, d, i, k + 1);
    }
}

proof fn no_file_found(places: Seq<Seq<char>>, d: Disk, k: int)
    requires
        0 <= k,
        forall|j: int|
            0 <= j < places.len() ==> !(fs::facts(d, #[trigger] places[j]).target is Ok
                && fs::facts(d, places[j]).target->Ok_0.is_file),
    ensures
        crate::valet::first_file(places, d, k) is None,
    decreases places.len() - k,
{
    if k < places.len() {
        no_file_found(places, d, k + 1);
    }
}

/// Without Herd, and for what only Valet can do, the command is `valet`.
pub proof fn valet_gets_the_rest(
    policy: BackendPolicy,
    running: bool,
    config_dir: Option<Seq<char>>,
    home: Option<Seq<char>>,
    d: Disk,
)
    requires
        !running || policy == BackendPolicy::ValetOnly,
    ensures
        backend_verdict(policy, running, config_dir, home, d) matches Ok(b) && b.kind
            == SiteBackendKind::Valet && b.executable == "valet"@,
{
}

/// A command that succeeds gives its trimmed output, whatever it said beside;
/// one that fails gives an error that names the backend, the operation and
/// what was said, without deprecation notices.
pub proof fn command_is_reported(
    c: CommandView,
    success: bool,
    stdout: Seq<char>,
    stderr: Seq<char>,
)
    ensures
        success ==> verdict(c, success, stdout, stderr) == Ok::<Seq<char>, Seq<char>>(
            scan::trimmed(stdout, Class::Space),
        ),
        !success ==> (verdict(c, success, stdout, stderr) matches Err(e) && e == (
        if c.backend.kind == SiteBackendKind::Valet {
            "Valet"@
        } else {
            "Herd"@
        }) + " "@ + c.operation + " failed: "@ + scan::trimmed(
            scan::glued(
                scan::lines_of(stderr).filter(
                    |l: Seq<char>| !"Deprecated:"@.is_prefix_of(l),
                ),
                "\n"@,
            ),
            Class::Space,
        )),
{
    let telling = |l: Seq<char>| crate::valet::telling(l);
    let plain = |l: Seq<char>| !"Deprecated:"@.is_prefix_of(l);
    same_filter(scan::lines_of(stderr), telling, plain);
}

proof fn same_filter(
    s: Seq<Seq<char>>,
    f: spec_fn(Seq<char>) -> bool,
    g: spec_fn(Seq<char>) -> bool,
)
    requires
        forall|i: int| 0 <= i < s.len() ==> f(#[trigger] s[i]) == g(s[i]),
    ensures
        s.filter(f) == s.filter(g),
    decreases s.len(),
{
    reveal(Seq::filter);
    if s.len() > 0 {
        let r = s.drop_last();
        assert forall|i: int| 0 <= i < r.len() implies f(#[trigger] r[i]) == g(r[i]) by {
            assert(r[i] == s[i]);
        }
        same_filter(r, f, g);
        assert(f(s[s.len() - 1]) == g(s[s.len() - 1]));
    }
}

/// Installing does nothing where Valet answers; otherwise it requires the
/// package, and sets Valet up only once that succeeded.
pub proof fn install_goes_step_by_step(ran: bool, success: bool, stderr: Seq<char>)
    ensures
        install_next(InstallView::Check, ran, success, stderr) == (if ran && success {
            InstallView::Done { result: Ok(()) }
        } else {
            InstallView::Require
        }),
        install_next(InstallView::Require, ran, success, stderr) is SetUp <==> ran && success,
        !(ran && success) ==> install_next(InstallView::Require, ran, success, stderr) is Done
            && install_next(InstallView::Require, ran, success, stderr)->result is Err,
        install_next(InstallView::SetUp, ran, success, stderr) is Done,
        install_next(InstallView::SetUp, ran, success, stderr)->result is Ok <==> ran,
{
}

// ---- what is asked of a user ----
/// Every file that was refused or failed is told, with its path and reason,
/// and nothing else is.
pub proof fn hard_failures_are_told(files: Seq<FileView>)
    ensures
        hard_lines(files) == files.filter(
            |f: FileView| f.result is Refused || f.result is Failed,
        ).map_values(
            |f: FileView|
                f.path + ": "@ + match f.result {
                    FileResultView::Refused { reason } => reason,
                    FileResultView::Failed { error } => error,
                    _ => Seq::<char>::empty(),
                },
        ),
    decreases files.len(),
{
    reveal(Seq::filter);
    let bad = |f: FileView| f.result is Refused || f.result is Failed;
    let line = |f: FileView|
        f.path + ": "@ + match f.result {
            FileResultView::Refused { reason } => reason,
            FileResultView::Failed { error } => error,
            _ => Seq::<char>::empty(),
        };
    if files.len() > 0 {
        hard_failures_are_told(files.drop_last());
        let kept = files.drop_last().filter(bad);
        if bad(files.last()) {
            assert(files.filter(bad) == kept.push(files.last()));
            assert(kept.push(files.last()).map_values(line) =~= kept.map_values(line).push(
                line(files.last()),
            ));
        } else {
            assert(files.filter(bad) == kept);
        }
    } else {
        assert(files.filter(bad).map_values(line) =~= Seq::empty());
    }
}

// ---- snapshots ----
/// What was recorded last of a path is what a snapshot says of it, under any
/// spelling; what it says of other paths stays.
pub proof fn snapshot_tells_the_latest(
    seen: Seq<(Seq<char>, FactsView)>,
    p: Seq<char>,
    f: FactsView,
    q: Seq<char>,
    euid: u32,
)
    ensures
        path::key(p) == path::key(q) ==> fs::facts(Disk { seen: seen.push((p, f)), euid }, q) == f,
        path::key(p) != path::key(q) ==> fs::facts(Disk { seen: seen.push((p, f)), euid }, q)
            == fs::facts(Disk { seen, euid }, q),
        !fs::facts(Disk { seen: Seq::empty(), euid }, q).exists,
{
    assert(seen.push((p, f)).drop_last() =~= seen);
}

/// A fact is recorded as it was found, but for a canonical path that is not
/// absolute.
pub proof fn facts_are_recorded_as_found(f: FactsView)
    ensures
        fs::recorded(f).exists == f.exists,
        fs::recorded(f).link == f.link,
        fs::recorded(f).target == f.target,
        fs::recorded(f).hash == f.hash,
        f.canonical is Ok && f.canonical->Ok_0.len() > 0 && f.canonical->Ok_0[0] == '/'
            ==> fs::recorded(f).canonical == f.canonical,
        f.canonical is Ok && !(f.canonical->Ok_0.len() > 0 && f.canonical->Ok_0[0] == '/')
            ==> fs::recorded(f).canonical is Err,
{
}

// ---- text ----
/// Whether `t` is what lies from `i` on in a text, with nothing but characters
/// of a class on either side.
pub open spec fn is_middle(s: Seq<char>, t: Seq<char>, i: int, k: Class) -> bool {
    &&& 0 <= i && i + t.len() <= s.len()
    &&& t == s.subrange(i, i + t.len() as int)
    &&& forall|j: int| 0 <= j < i ==> scan::in_class(k, #[trigger] s[j])
    &&& forall|j: int| i + t.len() <= j < s.len() ==> scan::in_class(k, #[trigger] s[j])
}

/// Trimming takes away a run of white space at either end, all of it, and
/// nothing else.
pub proof fn trimming_takes_the_ends(s: Seq<char>, k: Class)
    ensures
        exists|i: int| #[trigger] is_middle(s, scan::trimmed(s, k), i, k),
        ({
            let t = scan::trimmed(s, k);
            t.len() > 0 ==> !scan::in_class(k, t[0]) && !scan::in_class(k, t.last())
        }),
{
    let l = scan::left_trimmed(s, k);
    let i = left_trim(s, k);
    right_trim(l, k);
    let t = scan::right_trimmed(l, k);
    assert(t =~= s.subrange(i, i + t.len() as int));
    assert forall|j: int| i + t.len() <= j < s.len() implies scan::in_class(k, #[trigger] s[j]) by {
        assert(l[j - i] == s[j]);
    }
    assert(is_middle(s, scan::trimmed(s, k), i, k));
}

proof fn left_trim(s: Seq<char>, k: Class) -> (i: int)
    ensures
        0 <= i <= s.len(),
        scan::left_trimmed(s, k) == s.skip(i),
        forall|j: int| 0 <= j < i ==> scan::in_class(k, #[trigger] s[j]),
        i < s.len() ==> !scan::in_class(k, s[i]),
    decreases s.len(),
{
    if s.len() > 0 && scan::in_class(k, s[0]) {
        let r = s.drop_first();
        let i = left_trim(r, k);
        assert(r.skip(i) =~= s.skip(i + 1));
        assert forall|j: int| 0 <= j < i + 1 implies scan::in_class(k, #[trigger] s[j]) by {
            if j > 0 {
                assert(r[j - 1] == s[j]);
            }
        }
        i + 1
    } else {
        assert(s.skip(0) =~= s);
        0
    }
}

proof fn right_trim(s: Seq<char>, k: Class)
    ensures
        ({
            let t = scan::right_trimmed(s, k);
            &&& t.len() <= s.len()
            &&& t == s.take(t.len() as int)
            &&& forall|j: int| t.len() <= j < s.len() ==> scan::in_class(k, #[trigger] s[j])
            &&& t.len() > 0 ==> !scan::in_class(k, t.last())
        }),
    decreases s.len(),
{
    if s.len() > 0 && scan::in_class(k, s.last()) {
        let r = s.drop_last();
        right_trim(r, k);
        let t = scan::right_trimmed(s, k);
        assert(r.take(t.len() as int) =~= s.take(t.len() as int));
        assert forall|j: int| t.len() <= j < s.len() implies scan::in_class(k, #[trigger] s[j]) by {
            if j < r.len() {
                assert(r[j] == s[j]);
            }
        }
    } else {
        assert(s.take(s.len() as int) =~= s);
    }
}

/// The classes of characters: white space, the double quote, and the
/// separators `:`, `=` and `>`.
pub proof fn classes_of_characters(c: char)
    ensures
        scan::in_class(Class::Quote, c) <==> c == '"',
        scan::in_class(Class::Separator, c) <==> c == ':' || c == '=' || c == '>',
        c == ' ' || c == '\t' || c == '\n' || c == '\r' ==> scan::in_class(Class::Space, c),
        '!' <= c && c <= '~' ==> !scan::in_class(Class::Space, c),
        text::control(c) <==> c <= '\u{1f}' || ('\u{7f}' <= c && c <= '\u{9f}'),
        text::ascii_digit(c) <==> '0' <= c && c <= '9',
        text::ascii_letter(c) <==> ('a' <= c && c <= 'z') || ('A' <= c && c <= 'Z'),
{
}

/// What is cut at a separator has no separator in it, and glued together again
/// is what it was.
pub proof fn cutting_and_gluing(s: Seq<char>, sep: char)
    ensures
        scan::glued(scan::cut(s, sep), seq![sep]) == s,
        forall|i: int|
            0 <= i < scan::cut(s, sep).len() ==> !(#[trigger] scan::cut(s, sep)[i]).contains(sep),
        scan::cut(s, sep).len() > 0,
    decreases s.len(),
{
    let all = scan::cut(s, sep);
    scan::cut_nonempty(s, sep);
    if s.len() == 0 {
        assert(scan::glued(all, seq![sep]) =~= s);
    } else {
        let r = s.drop_last();
        let p = scan::cut(r, sep);
        cutting_and_gluing(r, sep);
        if s.last() == sep {
            assert(all.drop_last() =~= p);
            assert(scan::glued(all, seq![sep]) =~= s);
        } else {
            let front = p.drop_last();
            assert(all.drop_last() =~= front);
            if front.len() > 0 {
                assert(scan::glued(all, seq![sep]) =~= scan::glued(p, seq![sep]).push(s.last()));
            } else {
                assert(scan::glued(all, seq![sep]) =~= p.last().push(s.last()));
                assert(p[0] == p.last());
            }
            assert(scan::glued(all, seq![sep]) =~= s);
            assert forall|i: int| 0 <= i < all.len() implies !(#[trigger] all[i]).contains(sep) by {
                if i < front.len() {
                    assert(all[i] == p[i]);
                } else {
                    assert(!p[p.len() - 1].contains(sep));
                    let x = p.last();
                    assert forall|j: int| 0 <= j < all[i].len() implies all[i][j] != sep by {
                        if j < x.len() {
                            assert(x.contains(x[j]));
                            assert(all[i][j] == x[j]);
                        }
                    }
                }
            }
        }
    }
}

/// What comes before the first occurrence of a text, that text, and what comes
/// after it make up the whole; and the text does not occur earlier.
pub proof fn split_at_the_first(s: Seq<char>, needle: Seq<char>, k: int)
    ensures
        scan::after_first(s, needle) is Some <==> exists|i: int|
            0 <= i && i + needle.len() <= s.len() && #[trigger] s.subrange(
                i,
                i + needle.len() as int,
            ) == needle,
        scan::after_first(s, needle) matches Some(rest) ==> {
            &&& s == scan::before_first(s, needle) + needle + rest
            &&& 0 <= k < scan::before_first(s, needle).len() ==> s.subrange(
                k,
                k + needle.len() as int,
            ) != needle
        },
        scan::after_first(s, needle) is None ==> scan::before_first(s, needle) == s,
{
    assert(scan::occurs(s, needle) <==> exists|i: int|
        0 <= i && i + needle.len() <= s.len() && #[trigger] s.subrange(i, i + needle.len() as int)
            == needle) by {
        if scan::occurs(s, needle) {
            let i = choose|i: int| scan::occurs_at(s, needle, i);
            assert(s.subrange(i, i + needle.len() as int) == needle);
        }
        if exists|i: int|
            0 <= i && i + needle.len() <= s.len() && #[trigger] s.subrange(
                i,
                i + needle.len() as int,
            ) == needle {
            let i = choose|i: int|
                0 <= i && i + needle.len() <= s.len() && #[trigger] s.subrange(
                    i,
                    i + needle.len() as int,
                ) == needle;
            assert(scan::occurs_at(s, needle, i));
        }
    }
    if scan::occurs(s, needle) {
        let o = choose|i: int| scan::occurs_at(s, needle, i);
        let f = first_occurrence(s, needle, o);
        let i = choose|i: int| scan::first_at(s, needle, i);
        assert(scan::first_at(s, needle, f));
        assert(s =~= s.take(i) + needle + s.skip(i + needle.len()));
        if 0 <= k < i {
            assert(!scan::occurs_at(s, needle, k));
            assert(k + needle.len() <= s.len());
        }
    }
}

proof fn first_occurrence(s: Seq<char>, needle: Seq<char>, i: int) -> (k: int)
    requires
        scan::occurs_at(s, needle, i),
    ensures
        scan::first_at(s, needle, k),
    decreases i,
{
    if exists|j: int| 0 <= j < i && scan::occurs_at(s, needle, j) {
        let j = choose|j: int| 0 <= j < i && scan::occurs_at(s, needle, j);
        first_occurrence(s, needle, j)
    } else {
        i
    }
}

/// Taking a character away leaves the others, in their order.
pub proof fn removal_leaves_the_others(s: Seq<char>, c: char)
    ensures
        scan::without(s, c) == s.filter(|x: char| x != c),
    decreases s.len(),
{
    reveal(Seq::filter);
    let other = |x: char| x != c;
    if s.len() > 0 {
        removal_leaves_the_others(s.drop_last(), c);
        if other(s.last()) {
            assert(s.filter(other) == s.drop_last().filter(other).push(s.last()));
        } else {
            assert(s.filter(other) == s.drop_last().filter(other));
        }
    }
}

/// The number that digits stand for.
pub open spec fn number(s: Seq<char>, base: nat) -> nat
    decreases s.len(),
{
    if s.len() == 0 {
        0
    } else {
        number(s.drop_last(), base) * base + (s.last() as nat - '0' as nat) as nat
    }
}

/// A number is written in decimal digits that stand for it, without a leading
/// zero.
pub proof fn decimals_stand_for_their_number(n: nat)
    ensures
        number(text::decimal(n), 10) == n,
        text::decimal(n).len() > 0,
        forall|i: int|
            0 <= i < text::decimal(n).len() ==> '0' <= #[trigger] text::decimal(n)[i]
                && text::decimal(n)[i] <= '9',
        n > 0 ==> text::decimal(n)[0] != '0',
    decreases n,
{
    reveal_with_fuel(number, 2);
    let s = text::decimal(n);
    if n >= 10 {
        decimals_stand_for_their_number(n / 10);
        assert(s.drop_last() =~= text::decimal(n / 10));
        assert(s[0] == text::decimal(n / 10)[0]);
    } else {
        assert(s.drop_last() =~= Seq::empty());
    }
}

/// A mode is written in octal digits that stand for it, without a leading zero.
pub proof fn octals_stand_for_their_number(n: nat)
    ensures
        number(text::octal(n), 8) == n,
        text::octal(n).len() > 0,
        forall|i: int|
            0 <= i < text::octal(n).len() ==> '0' <= #[trigger] text::octal(n)[i] && text::octal(
                n,
            )[i] <= '7',
    decreases n,
{
    reveal_with_fuel(number, 2);
    let s = text::octal(n);
    if n >= 8 {
        octals_stand_for_their_number(n / 8);
        assert(s.drop_last() =~= text::octal(n / 8));
    } else {
        assert(s.drop_last() =~= Seq::empty());
    }
}

/// Texts are ordered as in a dictionary: by the first character in which they
/// differ, and a text before every longer one that starts with it.
pub proof fn texts_are_ordered_as_in_a_dictionary(a: Seq<char>, b: Seq<char>, i: int)
    ensures
        0 <= i < a.len() && i < b.len() && a.take(i) == b.take(i) && a[i] != b[i] ==> (text::lt(
            a,
            b,
        ) <==> a[i] < b[i]),
        a.len() < b.len() && a == b.take(a.len() as int) ==> text::lt(a, b) && !text::lt(b, a),
    decreases a.len(),
{
    if 0 <= i < a.len() && i < b.len() && a.take(i) == b.take(i) && a[i] != b[i] {
        if i > 0 {
            assert(a[0] == a.take(i)[0]);
            assert(b[0] == b.take(i)[0]);
            let x = a.drop_first();
            let y = b.drop_first();
            assert forall|j: int| 0 <= j < i - 1 implies x[j] == y[j] by {
                assert(x[j] == a.take(i)[j + 1]);
                assert(y[j] == b.take(i)[j + 1]);
            }
            assert(x.take(i - 1) =~= y.take(i - 1));
            texts_are_ordered_as_in_a_dictionary(x, y, i - 1);
        }
    }
    if a.len() < b.len() && a == b.take(a.len() as int) {
        if a.len() > 0 {
            assert(a[0] == b[0]);
            let x = a.drop_first();
            let y = b.drop_first();
            assert(x =~= y.take(x.len() as int));
            texts_are_ordered_as_in_a_dictionary(x, y, 0);
        }
    }
}

/// Lowering changes the letters from `A` to `Z` into those from `a` to `z`, one
/// for one, and nothing else.
pub proof fn lowering_changes_capitals(s: Seq<char>, i: int)
    requires
        0 <= i < s.len(),
    ensures
        text::ascii_lower(s).len() == s.len(),
        'A' <= s[i] && s[i] <= 'Z' ==> text::ascii_lower(s)[i] as int == s[i] as int + 32,
        !('A' <= s[i] && s[i] <= 'Z') ==> text::ascii_lower(s)[i] == s[i],
{
}

// ---- paths ----
/// A path lies below another where its components start with all of the
/// other's, and both are rooted or neither is.
pub proof fn lying_below_is_by_component(a: PathKey, b: PathKey, name: Seq<char>)
    requires
        a.root || a.parts.len() > 0,
    ensures
        path::covers(a, b) <==> a.root == b.root && a.parts.len() <= b.parts.len() && b.parts.take(
            a.parts.len() as int,
        ) == a.parts,
        path::covers(a, PathKey { root: a.root, parts: a.parts.push(name) }),
{
    if a.parts.len() <= b.parts.len() {
        if b.parts.take(a.parts.len() as int) == a.parts {
            assert(a.parts.is_prefix_of(b.parts));
        }
        if a.parts.is_prefix_of(b.parts) {
            assert(b.parts.take(a.parts.len() as int) =~= a.parts);
        }
    }
    assert(a.parts.is_prefix_of(a.parts.push(name)));
}

/// A path that is joined from a directory and a relative one is the
/// directory's text, a slash where there is none yet, and the relative text; a
/// rooted one replaces the directory.
pub proof fn joining_is_textual(dir: Seq<char>, tail: Seq<char>)
    ensures
        tail.len() > 0 && tail[0] == '/' ==> path::joined(dir, tail) == tail,
        dir.len() > 0 && !(tail.len() > 0 && tail[0] == '/') && dir.last() == '/' ==> path::joined(
            dir,
            tail,
        ) == dir + tail,
        dir.len() > 0 && !(tail.len() > 0 && tail[0] == '/') && dir.last() != '/' ==> path::joined(
            dir,
            tail,
        ) == dir + "/"@ + tail,
{
    reveal_strlit("/");
    assert("/"@ =~= seq!['/']);
}

/// A rooted path of plain names has exactly these names as its components.
pub proof fn components_are_the_names(dir: Seq<char>, name: Seq<char>)
    requires
        dir.len() > 0,
        dir[0] == '/',
        name.len() > 0,
        !name.contains('/'),
        name != seq!['.'],
    ensures
        path::key(path::joined(dir, name)) == (PathKey {
            root: true,
            parts: path::parts(dir).push(name),
        }),
{
    assert(name[0] != '/') by {
        assert(name.contains(name[0]));
    }
    if path::leading_dot(name) {
        if name.len() == 1 {
            assert(name =~= seq!['.']);
        } else {
            assert(name.contains(name[1]));
        }
    }
    path::join_appends_components(dir, name);
    one_piece(name);
    assert(path::parts(name) =~= seq![name]);
    assert(path::parts(dir) + seq![name] =~= path::parts(dir).push(name));
}

proof fn one_piece(name: Seq<char>)
    requires
        !name.contains('/'),
    ensures
        path::pieces(name) == seq![name],
        path::named(name) ==> path::kept(path::pieces(name)) == seq![name],
    decreases name.len(),
{
    reveal_with_fuel(path::kept, 2);
    if name.len() == 0 {
        assert(name =~= Seq::empty());
        assert(path::pieces(name) =~= seq![name]);
    } else {
        let r = name.drop_last();
        assert(r.push(name.last()) =~= name);
        assert forall|i: int| 0 <= i < r.len() implies r[i] != '/' by {
            assert(name.contains(name[i]));
        }
        one_piece(r);
        assert(name.contains(name.last()));
        assert(seq![r].drop_last().push(r.push(name.last())) =~= seq![name]);
    }
    assert(seq![name].drop_last() =~= Seq::empty());
    assert(Seq::<Seq<char>>::empty().push(name) =~= seq![name]);
}

// ---- durations ----
/// A duration is told in whole milliseconds below a second, and in seconds with
/// what is left of them from there on; the digits stand for it.
pub proof fn durations_stand_for_their_length(ms: u64)
    ensures
        ms == 0 ==> clock::duration_text(ms) == "0ns"@,
        0 < ms < 1000 ==> clock::duration_text(ms) == text::decimal(ms as nat) + "ms"@,
        ms >= 1000 && ms % 1000 == 0 ==> clock::duration_text(ms) == text::decimal(
            (ms / 1000) as nat,
        ) + "s"@,
        ms >= 1000 && ms % 1000 != 0 ==> {
            let rest = clock::thousandths((ms % 1000) as nat);
            &&& clock::duration_text(ms) == text::decimal((ms / 1000) as nat) + "."@ + rest + "s"@
            &&& 1 <= rest.len() <= 3
            &&& rest.len() == 1 ==> number(rest, 10) * 100 == ms % 1000
            &&& rest.len() == 2 ==> number(rest, 10) * 10 == ms % 1000
            &&& rest.len() == 3 ==> number(rest, 10) == ms % 1000
        },
{
    reveal_with_fuel(number, 4);
    let n = (ms % 1000) as nat;
    let rest = clock::thousandths(n);
    if ms >= 1000 && n != 0 {
        assert(n < 1000);
        if rest.len() == 1 {
            assert(rest.drop_last() =~= Seq::empty());
        } else if rest.len() == 2 {
            assert(rest.drop_last() =~= seq![rest[0]]);
            assert(seq![rest[0]].drop_last() =~= Seq::empty());
        } else {
            assert(rest.drop_last() =~= seq![rest[0], rest[1]]);
            assert(seq![rest[0], rest[1]].drop_last() =~= seq![rest[0]]);
            assert(seq![rest[0]].drop_last() =~= Seq::empty());
        }
    }
}

// ---- lines ----
/// The lines of a text are what lies between its line breaks, all of it: joined
/// by line breaks again they are the text, but for a line break at its end and
/// a carriage return before one.
pub proof fn lines_are_the_text(s: Seq<char>)
    ensures
        !s.contains('\r') && s.len() > 0 && s.last() != '\n' ==> scan::glued(
            scan::lines_of(s),
            seq!['\n'],
        ) == s,
        !s.contains('\r') && s.len() > 0 && s.last() == '\n' ==> scan::glued(
            scan::lines_of(s),
            seq!['\n'],
        ).push('\n') == s,
        s.len() == 0 ==> scan::lines_of(s).len() == 0,
        forall|i: int|
            0 <= i < scan::lines_of(s).len() ==> !(#[trigger] scan::lines_of(s)[i]).contains('\n'),
        forall|i: int|
            0 <= i < scan::cut(s, '\n').len() - 1 ==> #[trigger] scan::lines_of(s)[i] == (if ends_in_cr(
                scan::cut(s, '\n')[i],
            ) {
                scan::cut(s, '\n')[i].drop_last()
            } else {
                scan::cut(s, '\n')[i]
            }),
{
    let p = scan::cut(s, '\n');
    let lines = scan::lines_of(s);
    cutting_and_gluing(s, '\n');
    let ended = p.drop_last().map_values(|l: Seq<char>| scan::without_cr(l));
    assert forall|i: int| 0 <= i < lines.len() implies !(#[trigger] lines[i]).contains('\n') by {
        assert(!p[i].contains('\n'));
        if lines[i].contains('\n') {
            let j = choose|j: int| 0 <= j < lines[i].len() && lines[i][j] == '\n';
            assert(p[i][j] == '\n');
            assert(p[i].contains('\n'));
        }
    }
    last_piece(s);
    if !s.contains('\r') && s.len() > 0 {
        pieces_are_of_the_text(s, '\n', '\r');
        assert forall|i: int| 0 <= i < ended.len() implies #[trigger] ended[i] == p[i] by {
            assert(!p[i].contains('\r'));
            if p[i].len() > 0 {
                assert(p[i].contains(p[i].last()));
            }
        }
        assert(ended =~= p.drop_last());
        if s.last() != '\n' {
            assert(lines =~= p);
        } else {
            assert(lines =~= p.drop_last());
            assert(p.last().len() == 0);
            if p.len() > 1 {
                assert(scan::glued(p, seq!['\n']) =~= scan::glued(p.drop_last(), seq!['\n']).push(
                    '\n',
                ));
            } else {
                assert(scan::glued(p, seq!['\n']) == p[0]);
            }
        }
    }
}

/// Whether a line ends in a carriage return.
pub open spec fn ends_in_cr(l: Seq<char>) -> bool {
    l.len() > 0 && l.last() == '\r'
}

proof fn last_piece(s: Seq<char>)
    ensures
        s.len() > 0 ==> (scan::cut(s, '\n').last().len() == 0 <==> s.last() == '\n'),
        s.len() == 0 ==> scan::cut(s, '\n') == seq![Seq::<char>::empty()],
{
    if s.len() > 0 {
        scan::cut_nonempty(s.drop_last(), '\n');
    }
}

proof fn pieces_are_of_the_text(s: Seq<char>, sep: char, c: char)
    requires
        !s.contains(c),
    ensures
        forall|i: int|
            0 <= i < scan::cut(s, sep).len() ==> !(#[trigger] scan::cut(s, sep)[i]).contains(c),
    decreases s.len(),
{
    let all = scan::cut(s, sep);
    if s.len() > 0 {
        let r = s.drop_last();
        let p = scan::cut(r, sep);
        assert forall|j: int| 0 <= j < r.len() implies r[j] != c by {
            assert(s.contains(s[j]));
        }
        pieces_are_of_the_text(r, sep, c);
        scan::cut_nonempty(r, sep);
        assert(s.contains(s.last()));
        assert forall|i: int| 0 <= i < all.len() implies !(#[trigger] all[i]).contains(c) by {
            if s.last() == sep {
                if i < p.len() {
                    assert(all[i] == p[i]);
                }
            } else if i < p.len() - 1 {
                assert(all[i] == p[i]);
            } else {
                let x = p[p.len() - 1];
                assert(!x.contains(c));
                assert forall|j: int| 0 <= j < all[i].len() implies all[i][j] != c by {
                    if j < x.len() {
                        assert(x.contains(x[j]));
                        assert(all[i][j] == x[j]);
                    }
                }
            }
        }
    }
}

// ---- the order of paths ----
/// Paths are ordered by the first component in which they differ, as names are,
/// and a path before those below it.
pub proof fn paths_are_ordered_by_component(
    root: bool,
    a: Seq<Seq<char>>,
    b: Seq<Seq<char>>,
    i: int,
)
    ensures
        ({
            let name = |p: Seq<char>| p != seq!['.'] && p != seq!['.', '.'];
            &&& 0 <= i < a.len() && i < b.len() && a.take(i) == b.take(i) && a[i] != b[i] && name(
                a[i],
            ) && name(b[i]) ==> (path::key_lt(
                PathKey { root, parts: a },
                PathKey { root, parts: b },
            ) <==> text::lt(a[i], b[i]))
            &&& a.len() < b.len() && a == b.take(a.len() as int) ==> path::key_lt(
                PathKey { root, parts: a },
                PathKey { root, parts: b },
            )
        }),
    decreases a.len(),
{
    let x = a.drop_first();
    let y = b.drop_first();
    if 0 < i < a.len() && i < b.len() && a.take(i) == b.take(i) {
        assert(a[0] == a.take(i)[0] && b[0] == b.take(i)[0]);
        assert forall|j: int| 0 <= j < i - 1 implies x[j] == y[j] by {
            assert(x[j] == a.take(i)[j + 1]);
            assert(y[j] == b.take(i)[j + 1]);
        }
        assert(x.take(i - 1) =~= y.take(i - 1));
        assert(x[i - 1] == a[i] && y[i - 1] == b[i]);
        paths_are_ordered_by_component(root, x, y, i - 1);
    }
    if a.len() < b.len() && a == b.take(a.len() as int) && a.len() > 0 {
        assert(a[0] == b[0]);
        assert(x =~= y.take(x.len() as int));
        paths_are_ordered_by_component(root, x, y, 0);
    }
}

/// The parent of a path is the path without its last component.
pub proof fn parent_is_without_the_last(p: Seq<char>)
    requires
        path::parts(p).len() > 0,
    ensures
        path::parts(path::dir_of(p)) == path::parts(p).drop_last(),
        path::rooted(path::dir_of(p)) == path::rooted(p),
        path::dir_of(p).len() <= p.len(),
        path::dir_of(p) == p.take(path::dir_of(p).len() as int),
{
    path::dir_of_is_parent(p);
}

/// A name that a command is given is its one argument; without a name it has
/// none.
pub proof fn names_are_arguments(name: Seq<char>)
    ensures
        opt_args(Some(name)) == seq![name],
        opt_args(None).len() == 0,
{
}

/// Where Herd runs and its CLI is not found, that is told with every place that
/// was looked at.
pub proof fn missing_herd_is_told(
    config_dir: Option<Seq<char>>,
    home: Option<Seq<char>>,
    d: Disk,
)
    ensures
        backend_verdict(BackendPolicy::HerdAware, true, config_dir, home, d) matches Err(e) ==> (
        herd_places(config_dir, home).len() > 0 ==> e
            == "Herd is running, but the Herd CLI was not found. Searched: "@ + scan::glued(
            herd_places(config_dir, home),
            ", "@,
        )),
{
}

} // verus!
