//! Linked sites: which there are, where they are, and with which PHP.

use crate::fs::{self, Disk, Snapshot};
use crate::path;
use crate::scan::{self, Class};
use crate::text;
use vstd::prelude::*;

verus! {

/// Represents a linked site managed by Valet.
#[derive(Debug, Clone)]
pub struct Site {
    pub name: String,
    pub path: String,
    pub secured: bool,
    pub php_version: Option<String>,
}

pub struct SiteView {
    pub name: Seq<char>,
    pub path: Seq<char>,
    pub secured: bool,
    pub php_version: Option<Seq<char>>,
}

impl View for Site {
    type V = SiteView;

    open spec fn view(&self) -> SiteView {
        SiteView {
            name: self.name@,
            path: self.path@,
            secured: self.secured,
            php_version: text::opt_text(self.php_version),
        }
    }
}

pub open spec fn sites(v: Seq<Site>) -> Seq<SiteView> {
    v.map_values(|s: Site| s@)
}

/// An entry of a directory of sites.
#[derive(Debug)]
pub struct SiteEntry {
    pub name: String,
    /// Where the link of this name below `Sites/` leads, if it is one; empty
    /// if it cannot be read.
    pub link: Option<String>,
}

pub struct SiteEntryView {
    pub name: Seq<char>,
    pub link: Option<Seq<char>>,
}

impl View for SiteEntry {
    type V = SiteEntryView;

    open spec fn view(&self) -> SiteEntryView {
        SiteEntryView { name: self.name@, link: text::opt_text(self.link) }
    }
}

pub open spec fn site_entries(v: Seq<SiteEntry>) -> Seq<SiteEntryView> {
    v.map_values(|e: SiteEntry| e@)
}

/// What Valet's home holds on sites. A directory that is not there counts as
/// an empty one.
#[derive(Debug)]
pub struct SiteListing {
    /// `Sites/` — symlinks created by `valet link`.
    pub linked: Vec<SiteEntry>,
    /// `Nginx/` — Nginx config files (used by Herd).
    pub served: Vec<SiteEntry>,
    /// `Isolate/` — the readable files, by name, with their content.
    pub isolated: Vec<(String, String)>,
}

/// What the first file of a name, from `i` on, holds.
pub open spec fn content_of(files: Seq<(Seq<char>, Seq<char>)>, name: Seq<char>, i: int) -> Option<
    Seq<char>,
>
    decreases files.len() - i,
{
    if i < 0 || i >= files.len() {
        None
    } else if files[i].0 == name {
        Some(files[i].1)
    } else {
        content_of(files, name, i + 1)
    }
}

/// The version that an isolation file gives: its trimmed content, unless there
/// is none.
pub open spec fn isolation(files: Seq<(Seq<char>, Seq<char>)>, name: Seq<char>) -> Option<
    Seq<char>,
> {
    match content_of(files, name, 0) {
        Some(content) => {
            let version = scan::trimmed(content, Class::Space);
            if version.len() > 0 {
                Some(version)
            } else {
                None
            }
        },
        None => None,
    }
}

/// The isolated PHP version of a site: the file `{site}.{tld}`, then just
/// `{site}`.
pub open spec fn isolated_php(
    files: Seq<(Seq<char>, Seq<char>)>,
    site: Seq<char>,
    tld: Seq<char>,
) -> Option<Seq<char>> {
    match isolation(files, site + ("."@ + tld)) {
        Some(v) => Some(v),
        None => isolation(files, site),
    }
}

pub open spec fn hidden(name: Seq<char>) -> bool {
    name.len() > 0 && name[0] == '.'
}

pub open spec fn secured(home: Seq<char>, name: Seq<char>, d: Disk) -> bool {
    fs::facts(d, path::joined(path::joined(home, "Certificates"@), name + ".crt"@)).exists
}

/// Site management — Valet does the actual operations.
///
/// Hearth wraps Valet commands and adds:
/// - Lazy site enumeration (for GUI performance)
/// - PHP version tracking per-site
/// - Integration with Anvil worktrees
#[derive(Debug)]
pub struct SiteManager {
    valet_home: String,
    tld: String,
}

pub struct ManagerView {
    pub home: Seq<char>,
    pub tld: Seq<char>,
}

impl View for SiteManager {
    type V = ManagerView;

    closed spec fn view(&self) -> ManagerView {
        ManagerView { home: self.valet_home@, tld: self.tld@ }
    }
}

/// The site of an entry of `Sites/`: where its link leads, or the entry
/// itself.
pub open spec fn linked_site(
    m: ManagerView,
    e: SiteEntryView,
    files: Seq<(Seq<char>, Seq<char>)>,
    d: Disk,
) -> SiteView {
    SiteView {
        name: e.name,
        path: match e.link {
            Some(target) => target,
            None => path::joined(path::joined(m.home, "Sites"@), e.name),
        },
        secured: secured(m.home, e.name, d),
        php_version: isolated_php(files, e.name, m.tld),
    }
}

/// The site of an entry of `Nginx/`: where the link of its name leads, or an
/// unknown place.
pub open spec fn served_site(
    m: ManagerView,
    e: SiteEntryView,
    files: Seq<(Seq<char>, Seq<char>)>,
    d: Disk,
) -> SiteView {
    SiteView {
        name: e.name,
        path: match e.link {
            Some(target) => target,
            None => Seq::empty(),
        },
        secured: secured(m.home, e.name, d),
        php_version: isolated_php(files, e.name, m.tld),
    }
}

/// The sites of the first `n` entries of `Sites/`.
pub open spec fn linked_sites(
    m: ManagerView,
    list: Seq<SiteEntryView>,
    n: int,
    files: Seq<(Seq<char>, Seq<char>)>,
    d: Disk,
) -> Seq<SiteView>
    decreases n,
{
    if n <= 0 {
        Seq::empty()
    } else {
        let before = linked_sites(m, list, n - 1, files, d);
        if hidden(list[n - 1].name) {
            before
        } else {
            before.push(linked_site(m, list[n - 1], files, d))
        }
    }
}

pub open spec fn has_site(list: Seq<SiteView>, name: Seq<char>) -> bool {
    exists|i: int| 0 <= i < list.len() && (#[trigger] list[i]).name == name
}

/// The sites of the first `n` entries of `Nginx/` that are not in `Sites/`.
pub open spec fn served_sites(
    m: ManagerView,
    list: Seq<SiteEntryView>,
    n: int,
    known: Seq<SiteView>,
    files: Seq<(Seq<char>, Seq<char>)>,
    d: Disk,
) -> Seq<SiteView>
    decreases n,
{
    if n <= 0 {
        Seq::empty()
    } else {
        let before = served_sites(m, list, n - 1, known, files, d);
        if hidden(list[n - 1].name) || has_site(known, list[n - 1].name) {
            before
        } else {
            before.push(served_site(m, list[n - 1], files, d))
        }
    }
}

/// A list with one more site, behind those whose name is not greater.
pub open spec fn placed(list: Seq<SiteView>, s: SiteView) -> Seq<SiteView>
    decreases list.len(),
{
    if list.len() == 0 {
        seq![s]
    } else if text::lt(s.name, list.last().name) {
        placed(list.drop_last(), s).push(list.last())
    } else {
        list.push(s)
    }
}

/// The sites by name; those of one name stay in their order.
pub open spec fn by_name(list: Seq<SiteView>) -> Seq<SiteView>
    decreases list.len(),
{
    if list.len() == 0 {
        Seq::empty()
    } else {
        placed(by_name(list.drop_last()), list.last())
    }
}

/// Sites from both sources, merged, with `Sites/` taking priority.
pub open spec fn merged(
    m: ManagerView,
    linked: Seq<SiteEntryView>,
    served: Seq<SiteEntryView>,
    files: Seq<(Seq<char>, Seq<char>)>,
    d: Disk,
) -> Seq<SiteView> {
    let first = linked_sites(m, linked, linked.len() as int, files, d);
    first + served_sites(m, served, served.len() as int, first, files, d)
}

fn insert_by_name(list: &mut Vec<Site>, s: Site)
    ensures
        sites(final(list)@) == placed(sites(old(list)@), s@),
{
    let ghost all = sites(list@);
    let n: usize = list.len();
    let mut k: usize = n;
    proof {
        assert(all.take(n as int) =~= all);
        assert(all.skip(n as int) =~= Seq::empty());
        assert(placed(all, s@) =~= placed(all.take(n as int), s@) + all.skip(n as int));
    }
    while k > 0 && text::less(s.name.as_str(), list[k - 1].name.as_str())
        invariant
            k <= n,
            n == list.len(),
            all == sites(list@),
            *list == *old(list),
            placed(all, s@) == placed(all.take(k as int), s@) + all.skip(k as int),
        decreases k,
    {
        proof {
            let t = all.take(k as int);
            assert(t.drop_last() =~= all.take(k - 1));
            assert(t.last() == list@[k - 1]@);
            assert(placed(t.drop_last(), s@).push(t.last()) + all.skip(k as int) =~= placed(
                t.drop_last(),
                s@,
            ) + all.skip(k - 1));
        }
        k = k - 1;
    }
    proof {
        let t = all.take(k as int);
        if k > 0 {
            assert(t.last() == list@[k - 1]@);
            assert(placed(t, s@) == t.push(s@));
        } else {
            assert(t =~= Seq::empty());
            assert(placed(t, s@) =~= t.push(s@));
        }
    }
    list.insert(k, s);
    proof {
        assert(sites(list@) =~= all.take(k as int).push(s@) + all.skip(k as int));
    }
}

/// Sorts sites by name; those of one name stay in their order.
fn sort_by_name(list: Vec<Site>) -> (r: Vec<Site>)
    ensures
        sites(r@) == by_name(sites(list@)),
{
    let ghost all = sites(list@);
    let mut rest: Vec<Site> = list;
    let mut out: Vec<Site> = Vec::new();
    proof {
        assert(sites(out@) =~= by_name(all.take(0)));
        assert(all.skip(0) =~= all);
    }
    while rest.len() > 0
        invariant
            rest@.len() <= all.len(),
            sites(rest@) == all.skip(all.len() - rest@.len()),
            sites(out@) == by_name(all.take(all.len() - rest@.len())),
        decreases rest.len(),
    {
        let ghost k = all.len() - rest@.len();
        let ghost before = rest@;
        let s: Site = rest.remove(0);
        proof {
            assert(all[k] == all.skip(k)[0]);
            assert(sites(before)[0] == s@);
            assert(all.take(k + 1).drop_last() =~= all.take(k));
            assert forall|i: int| 0 <= i < rest@.len() implies #[trigger] sites(rest@)[i]
                == all.skip(k + 1)[i] by {
                assert(sites(before)[i + 1] == all.skip(k)[i + 1]);
            }
            assert(sites(rest@) =~= all.skip(k + 1));
        }
        insert_by_name(&mut out, s);
    }
    proof {
        assert(all.take(all.len() as int) =~= all);
    }
    out
}

/// Whether one of the first `n` sites has this name.
fn has_name(list: &Vec<Site>, n: usize, name: &str) -> (r: bool)
    requires
        n <= list@.len(),
    ensures
        r == has_site(sites(list@).take(n as int), name@),
{
    let ghost known = sites(list@).take(n as int);
    let mut i: usize = 0;
    while i < n
        invariant
            i <= n,
            n <= list@.len(),
            known == sites(list@).take(n as int),
            forall|k: int| 0 <= k < i ==> (#[trigger] known[k]).name != name@,
        decreases n - i,
    {
        assert(known[i as int] == list@[i as int]@);
        if text::same(list[i].name.as_str(), name) {
            return true;
        }
        i = i + 1;
    }
    false
}

fn is_hidden(name: &str) -> (r: bool)
    ensures
        r == hidden(name@),
{
    name.unicode_len() > 0 && name.get_char(0) == '.'
}

fn read_isolation(files: &Vec<(String, String)>, name: &str) -> (r: Option<String>)
    ensures
        text::opt_text(r) == isolation(text::text_pairs(files@), name@),
{
    let ghost all = text::text_pairs(files@);
    let mut i: usize = 0;
    while i < files.len()
        invariant
            i <= files.len(),
            all == text::text_pairs(files@),
            content_of(all, name@, 0) == content_of(all, name@, i as int),
        decreases files.len() - i,
    {
        assert(all[i as int] == (files@[i as int].0@, files@[i as int].1@));
        if text::same(files[i].0.as_str(), name) {
            let version: String = scan::trim(files[i].1.as_str(), Class::Space);
            if version.as_str().unicode_len() > 0 {
                return Some(version);
            }
            return None;
        }
        i = i + 1;
    }
    None
}

impl SiteManager {
    pub fn new(valet_home: String, tld: String) -> (r: Self)
        ensures
            r@ == (ManagerView { home: valet_home@, tld: tld@ }),
    {
        SiteManager { valet_home, tld }
    }

    /// The Valet home path.
    pub fn valet_home(&self) -> (r: &str)
        ensures
            r@ == self@.home,
    {
        self.valet_home.as_str()
    }

    /// The isolated PHP version for a site from Valet's Isolate directory.
    ///
    /// Valet stores isolation as files named `{site_name}{tld}` containing the
    /// PHP version string (e.g., "8.3").
    pub fn resolve_isolated_php(&self, site_name: &str, files: &Vec<(String, String)>) -> (r: Option<
        String,
    >)
        ensures
            text::opt_text(r) == isolated_php(text::text_pairs(files@), site_name@, self@.tld),
    {
        let suffix: String = text::cat2(".", self.tld.as_str());
        let full: String = text::cat2(site_name, suffix.as_str());
        match read_isolation(files, full.as_str()) {
            Some(v) => Some(v),
            None => read_isolation(files, site_name),
        }
    }

    fn is_secured(&self, name: &str, disk: &Snapshot) -> (r: bool)
        requires
            disk.wf(),
        ensures
            r == secured(self@.home, name@, disk@),
    {
        let dir: String = path::join(self.valet_home.as_str(), "Certificates");
        let file: String = text::cat2(name, ".crt");
        disk.at(path::join(dir.as_str(), file.as_str()).as_str()).exists
    }

    fn site_at(&self, e: &SiteEntry, at: String, files: &Vec<(String, String)>, disk: &Snapshot) -> (r:
        Site)
        requires
            disk.wf(),
        ensures
            r@ == (SiteView {
                name: e@.name,
                path: at@,
                secured: secured(self@.home, e@.name, disk@),
                php_version: isolated_php(text::text_pairs(files@), e@.name, self@.tld),
            }),
    {
        Site {
            name: e.name.clone(),
            path: at,
            secured: self.is_secured(e.name.as_str(), disk),
            php_version: self.resolve_isolated_php(e.name.as_str(), files),
        }
    }

    /// List all linked sites.
    ///
    /// Primary source: `Sites/` — contains symlinks created by `valet link`.
    /// Fallback: `Nginx/` — contains Nginx config files (used by Herd).
    /// Sites from both sources are merged, with `Sites/` taking priority.
    pub fn list_sites(&self, listing: &SiteListing, disk: &Snapshot) -> (r: Vec<Site>)
        requires
            disk.wf(),
        ensures
            sites(r@) == by_name(
                merged(
                    self@,
                    site_entries(listing.linked@),
                    site_entries(listing.served@),
                    text::text_pairs(listing.isolated@),
                    disk@,
                ),
            ),
    {
        let ghost files = text::text_pairs(listing.isolated@);
        let ghost linked = site_entries(listing.linked@);
        let ghost served = site_entries(listing.served@);
        let mut all: Vec<Site> = Vec::new();
        let mut i: usize = 0;
        proof {
            assert(sites(all@) =~= Seq::empty());
        }
        while i < listing.linked.len()
            invariant
                i <= listing.linked.len(),
                disk.wf(),
                files == text::text_pairs(listing.isolated@),
                linked == site_entries(listing.linked@),
                sites(all@) == linked_sites(self@, linked, i as int, files, disk@),
            decreases listing.linked.len() - i,
        {
            let e: &SiteEntry = &listing.linked[i];
            assert(linked[i as int] == e@);
            if !is_hidden(e.name.as_str()) {
                let at: String = match &e.link {
                    Some(target) => target.clone(),
                    None => {
                        let dir: String = path::join(self.valet_home.as_str(), "Sites");
                        path::join(dir.as_str(), e.name.as_str())
                    },
                };
                let ghost before = sites(all@);
                let s: Site = self.site_at(e, at, &listing.isolated, disk);
                all.push(s);
                proof {
                    assert(s@ == linked_site(self@, e@, files, disk@));
                    assert(sites(all@) =~= before.push(s@));
                }
            }
            i = i + 1;
        }
        let ghost known = sites(all@);
        let n: usize = all.len();
        let mut j: usize = 0;
        proof {
            assert(known + served_sites(self@, served, 0, known, files, disk@) =~= known);
            assert(sites(all@).take(n as int) =~= known);
        }
        while j < listing.served.len()
            invariant
                j <= listing.served.len(),
                disk.wf(),
                files == text::text_pairs(listing.isolated@),
                served == site_entries(listing.served@),
                n <= all.len(),
                sites(all@).take(n as int) == known,
                sites(all@) == known + served_sites(
                    self@,
                    served,
                    j as int,
                    known,
                    files,
                    disk@,
                ),
            decreases listing.served.len() - j,
        {
            let e: &SiteEntry = &listing.served[j];
            assert(served[j as int] == e@);
            if !is_hidden(e.name.as_str()) && !has_name(&all, n, e.name.as_str()) {
                let at: String = match &e.link {
                    Some(target) => target.clone(),
                    None => String::new(),
                };
                let ghost before = sites(all@);
                let s: Site = self.site_at(e, at, &listing.isolated, disk);
                all.push(s);
                proof {
                    assert(s@.path =~= served_site(self@, e@, files, disk@).path);
                    let part = served_sites(self@, served, j as int, known, files, disk@);
                    assert(sites(all@) =~= before.push(s@));
                    assert(sites(all@) =~= known + part.push(s@));
                    assert(sites(all@).take(n as int) =~= before.take(n as int));
                }
            }
            j = j + 1;
        }
        sort_by_name(all)
    }
}

// ---- laws ----
/// Names never go down in the order of the list.
pub open spec fn in_order(list: Seq<SiteView>) -> bool {
    forall|i: int, j: int|
        0 <= i < j < list.len() ==> !text::lt(
            (#[trigger] list[j]).name,
            (#[trigger] list[i]).name,
        )
}

proof fn placed_keeps_order(list: Seq<SiteView>, s: SiteView)
    requires
        in_order(list),
    ensures
        in_order(placed(list, s)),
        placed(list, s).to_multiset() == list.to_multiset().insert(s),
        placed(list, s).len() == list.len() + 1,
        forall|x: int|
            0 <= x < placed(list, s).len() ==> (#[trigger] placed(list, s)[x]) == s
                || list.contains(placed(list, s)[x]),
    decreases list.len(),
{
    broadcast use vstd::seq_lib::group_to_multiset_ensures;

    if list.len() == 0 {
        assert(seq![s] =~= Seq::<SiteView>::empty().push(s));
    } else if text::lt(s.name, list.last().name) {
        let front = list.drop_last();
        let last = list.last();
        assert(in_order(front));
        placed_keeps_order(front, s);
        let p = placed(front, s);
        assert(list =~= front.push(last));
        assert forall|x: int| 0 <= x < p.len() implies !text::lt(
            last.name,
            (#[trigger] p[x]).name,
        ) by {
            if p[x] == s {
                text::lt_irreflexive(s.name);
                if text::lt(last.name, s.name) {
                    text::lt_transitive(s.name, last.name, s.name);
                }
            } else {
                let k = choose|k: int| 0 <= k < front.len() && front[k] == p[x];
                assert(list[k] == p[x]);
                assert(!text::lt(list[list.len() - 1].name, list[k].name));
            }
        }
        assert forall|x: int| 0 <= x < p.push(last).len() implies (#[trigger] p.push(last)[x]) == s
            || list.contains(p.push(last)[x]) by {
            if x < p.len() {
                if p[x] != s {
                    let k = choose|k: int| 0 <= k < front.len() && front[k] == p[x];
                    assert(list[k] == p[x]);
                }
            } else {
                assert(list[list.len() - 1] == last);
            }
        }
        assert(front.to_multiset().insert(s).insert(last) =~= front.to_multiset().insert(
            last,
        ).insert(s));
    } else {
        assert forall|i: int| 0 <= i < list.len() implies !text::lt(
            s.name,
            (#[trigger] list[i]).name,
        ) by {
            if text::lt(s.name, list[i].name) {
                if i < list.len() - 1 {
                    assert(!text::lt(list[list.len() - 1].name, list[i].name));
                    text::lt_total(list.last().name, list[i].name);
                    if list.last().name != list[i].name {
                        text::lt_transitive(s.name, list[i].name, list.last().name);
                    }
                }
            }
        }
        assert forall|x: int| 0 <= x < list.push(s).len() implies (#[trigger] list.push(s)[x]) == s
            || list.contains(list.push(s)[x]) by {
            if x < list.len() {
                assert(list[x] == list.push(s)[x]);
            }
        }
    }
}

/// The listing is sorted by name, and holds exactly the sites that were merged.
pub proof fn listing_is_sorted(list: Seq<SiteView>)
    ensures
        in_order(by_name(list)),
        by_name(list).to_multiset() == list.to_multiset(),
    decreases list.len(),
{
    broadcast use vstd::seq_lib::group_to_multiset_ensures;

    if list.len() > 0 {
        listing_is_sorted(list.drop_last());
        placed_keeps_order(by_name(list.drop_last()), list.last());
        assert(list =~= list.drop_last().push(list.last()));
    }
}

/// A site that is in both sources is listed once, as `Sites/` has it: no site
/// of `Nginx/` has the name of one of `Sites/`, and no hidden entry is listed.
pub proof fn sites_take_priority(
    m: ManagerView,
    served: Seq<SiteEntryView>,
    n: int,
    known: Seq<SiteView>,
    files: Seq<(Seq<char>, Seq<char>)>,
    d: Disk,
    i: int,
)
    requires
        0 <= i < served_sites(m, served, n, known, files, d).len(),
    ensures
        !has_site(known, served_sites(m, served, n, known, files, d)[i].name),
        !hidden(served_sites(m, served, n, known, files, d)[i].name),
    decreases n,
{
    if n > 0 {
        if i < served_sites(m, served, n - 1, known, files, d).len() {
            sites_take_priority(m, served, n - 1, known, files, d, i);
        }
    }
}

} // verus!
