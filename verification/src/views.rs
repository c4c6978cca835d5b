//! What contracts say of a value is what the value holds: every field of it, and
//! every element of a list, in its place.

use crate::config::{packages, AddedPackage, PhpIniSettings};
use crate::fs::{text_result, PathFacts};
use crate::php::artifact::OwnedArtifactSpec;
use crate::php::batch::{job_views, outcome_views, Job, JobView};
use crate::php::manifest::{rows, Manifest, OutcomeView, WriteOutcome};
use crate::php::migration::{
    import_view, legacy_views, section_view, skipped_views, LegacyFile, MigrationReport, Section,
    SkippedDirective,
};
use crate::php::reconcile::{
    actions_of, groups_of, skipped_of, ChannelGroup, FileAction, SkippedTarget,
};
use crate::php::recovery::{action_views, seen_views, RecoveryAction, Seen};
use crate::php::resolver::{candidates, rejections, FpmCandidate, FpmCandidateRejection};
use crate::php::roots::RootOverrides;
use crate::php::targets::{
    identities, target_views, ChannelClass, ClassView, PhpTarget, PhpTargetIdentity, ProbeInfo,
};
use crate::service::managed::ManagedService;
use crate::service::supervisor::{detail_rows, managed, state_rows, FpmOwnership, ServiceDetail};
use crate::service::{ServiceKind, ServiceState};
use crate::site::{site_entries, sites, Site, SiteEntry};
use crate::socket::{
    file_views, row_views, FileOutcome, FileResultView, FileWriteResult, PhpConfigOutcome,
    PhpTargetRow,
};
use crate::text;
use crate::valet::{SiteCliBackend, SiteCommand};
use vstd::prelude::*;

verus! {

/// Texts, alone, in lists and in pairs.
pub proof fn texts_are_seen_whole(
    o: Option<String>,
    b: Option<&str>,
    v: Seq<String>,
    p: Seq<(String, String)>,
    r: Result<String, String>,
    i: int,
)
    ensures
        o is None <==> text::opt_text(o) is None,
        o matches Some(s) ==> text::opt_text(o) == Some(s@),
        b is None <==> text::opt_str(b) is None,
        b matches Some(s) ==> text::opt_str(b) == Some(s@),
        text::texts(v).len() == v.len(),
        0 <= i < v.len() ==> text::texts(v)[i] == v[i]@,
        text::text_pairs(p).len() == p.len(),
        0 <= i < p.len() ==> text::text_pairs(p)[i] == (p[i].0@, p[i].1@),
        r matches Ok(s) ==> text_result(r) == Ok::<Seq<char>, Seq<char>>(s@),
        r matches Err(s) ==> text_result(r) == Err::<Seq<char>, Seq<char>>(s@),
{
}

/// Sites and the entries that they come from.
pub proof fn sites_are_seen_whole(v: Seq<Site>, e: Seq<SiteEntry>, i: int)
    ensures
        sites(v).len() == v.len() && site_entries(e).len() == e.len(),
        0 <= i < v.len() ==> {
            let s = sites(v)[i];
            &&& s.name == v[i].name@ && s.path == v[i].path@ && s.secured == v[i].secured
            &&& s.php_version == text::opt_text(v[i].php_version)
        },
        0 <= i < e.len() ==> site_entries(e)[i].name == e[i].name@ && site_entries(e)[i].link
            == text::opt_text(e[i].link),
{
}

/// Commands for Valet and Herd.
pub proof fn commands_are_seen_whole(b: SiteCliBackend, c: SiteCommand)
    ensures
        b@.kind == b.kind && b@.executable == b.executable@,
        c@.backend == c.backend@ && c@.operation == c.operation@,
        c@.args == text::texts(c.args@) && c@.current_dir == text::opt_text(c.current_dir),
{
}

/// The store, and packages.
pub proof fn settings_are_seen_whole(s: PhpIniSettings, v: Seq<AddedPackage>, i: int)
    ensures
        s@.global == s.global@ && s@.overrides == s.overrides@,
        packages(v).len() == v.len(),
        0 <= i < v.len() ==> {
            let p = packages(v)[i];
            &&& p.package == v[i].package@ && p.site_path == v[i].site_path@
            &&& p.site_name == v[i].site_name@ && p.command == v[i].command@
            &&& p.args == text::texts(v[i].args@) && p.php_version == text::opt_text(
                v[i].php_version,
            )
        },
{
}

/// What is known of a path.
pub proof fn facts_are_seen_whole(f: PathFacts)
    ensures
        f@.exists == f.exists,
        f.link matches Ok(m) ==> f@.link == Ok::<_, (bool, Seq<char>)>(m),
        f.link matches Err(e) ==> f@.link is Err && f@.link->Err_0 == (e.not_found, e.text@),
        f.target matches Ok(m) ==> f@.target == Ok::<_, Seq<char>>(m),
        f.target matches Err(e) ==> f@.target is Err && f@.target->Err_0 == e@,
        f@.canonical == text_result(f.canonical),
        f@.hash == text_result(f.hash),
{
}

/// Binaries, what was probed of them, and what they come to.
pub proof fn targets_are_seen_whole(
    v: Seq<PhpTarget>,
    ids: Seq<PhpTargetIdentity>,
    p: ProbeInfo,
    c: ChannelClass,
    i: int,
)
    ensures
        target_views(v).len() == v.len() && identities(ids).len() == ids.len(),
        0 <= i < v.len() ==> {
            let t = target_views(v)[i];
            &&& t.id == v[i].id@ && t.probe == v[i].probe@
            &&& t.normal_channel == v[i].normal_channel@ && t.sanitized_channel
                == v[i].sanitized_channel@
            &&& t.write_channel == text::opt_text(v[i].write_channel)
            &&& t.identity_verified == v[i].identity_verified
        },
        0 <= i < ids.len() ==> {
            let id = identities(ids)[i];
            &&& id.provider == ids[i].provider && id.sapi == ids[i].sapi
            &&& id.version == ids[i].version@ && id.binary == ids[i].binary@
        },
        p@.normal_scan_dir == text::opt_text(p.normal_scan_dir),
        p@.sanitized_scan_dir == text::opt_text(p.sanitized_scan_dir),
        p@.env_honored == p.env_honored && p@.failures == text::texts(p.failures@),
        c matches ChannelClass::Verified { dir } ==> c@ == (ClassView::Verified { dir: dir@ }),
        c matches ChannelClass::PrivilegedDir { dir } ==> c@ == (ClassView::PrivilegedDir {
            dir: dir@,
        }),
        c matches ChannelClass::BestEffort { reason } ==> c@ == (ClassView::BestEffort {
            reason: reason@,
        }),
{
}

/// Candidates for FPM, and those that were rejected.
pub proof fn candidates_are_seen_whole(
    v: Seq<FpmCandidate>,
    w: Seq<FpmCandidateRejection>,
    i: int,
)
    ensures
        candidates(v).len() == v.len() && rejections(w).len() == w.len(),
        0 <= i < v.len() ==> {
            let c = candidates(v)[i];
            &&& c.version == v[i].version@ && c.tier == v[i].tier
            &&& c.path == v[i].path@ && c.canonical == v[i].canonical@
        },
        0 <= i < w.len() ==> {
            let c = rejections(w)[i];
            &&& c.version == w[i].version@ && c.tier == w[i].tier
            &&& c.path == w[i].path@ && c.reason == w[i].reason@
        },
{
}

/// Channels, what was done to their files, and targets passed over.
pub proof fn reconciles_are_seen_whole(
    g: Seq<ChannelGroup>,
    a: Seq<FileAction>,
    s: Seq<SkippedTarget>,
    i: int,
)
    ensures
        groups_of(g).len() == g.len() && actions_of(a).len() == a.len() && skipped_of(s).len()
            == s.len(),
        0 <= i < g.len() ==> groups_of(g)[i].version == g[i].version@ && groups_of(g)[i].dir
            == g[i].dir@ && groups_of(g)[i].provider == g[i].provider,
        0 <= i < a.len() ==> {
            let x = actions_of(a)[i];
            &&& x.path == a[i].path@ && x.php_version == a[i].php_version@
            &&& x.channel == a[i].channel@ && x.outcome == a[i].outcome@
        },
        0 <= i < s.len() ==> skipped_of(s)[i].id == s[i].id@ && skipped_of(s)[i].normal_channel
            == s[i].normal_channel@ && skipped_of(s)[i].sanitized_channel
            == s[i].sanitized_channel@,
{
}

/// Jobs on files, and what they come to.
pub proof fn jobs_are_seen_whole(
    j: Seq<Job>,
    o: Seq<WriteOutcome>,
    spec: OwnedArtifactSpec,
    i: int,
)
    ensures
        job_views(j).len() == j.len() && outcome_views(o).len() == o.len(),
        0 <= i < j.len() ==> {
            &&& j[i] matches Job::Apply { spec: s, content, sha256 } ==> job_views(j)[i] == (
            JobView::Apply { spec: s@, content: content@, sha256: sha256@ })
            &&& j[i] matches Job::Remove { path } ==> job_views(j)[i] == (JobView::Remove {
                path: path@,
            })
        },
        0 <= i < o.len() ==> {
            let v = outcome_views(o)[i];
            &&& o[i] is Written ==> v is Written
            &&& o[i] is Unchanged ==> v is Unchanged
            &&& o[i] is Deleted ==> v is Deleted
            &&& o[i] matches WriteOutcome::Refused { reason } ==> v == (OutcomeView::Refused {
                reason: reason@,
            })
            &&& o[i] matches WriteOutcome::Failed { error } ==> v == (OutcomeView::Failed {
                error: error@,
            })
        },
        spec@.final_path == spec.final_path@ && spec@.channel == spec.channel@,
        spec@.php_version == spec.php_version@ && spec@.mode == spec.mode,
{
}

/// The manifest and its rows.
pub proof fn manifests_are_seen_whole(m: Manifest, i: int)
    ensures
        m@.version == m.version && m@.files == rows(m.files@) && m@.files.len() == m.files@.len(),
        0 <= i < m.files@.len() ==> {
            let e = m.files@[i];
            let v = m@.files[i];
            &&& v.path == e.path@ && v.php_version == e.php_version@ && v.channel == e.channel@
            &&& v.sha256 == e.sha256@ && v.state == e.state
            &&& v.expected_old_sha256 == text::opt_text(e.expected_old_sha256)
            &&& v.desired_sha256 == text::opt_text(e.desired_sha256)
            &&& v.last_outcome == e.last_outcome && v.applied_at_unix_ms == e.applied_at_unix_ms
        },
{
}

/// What was seen for a recovery, and what it comes to.
pub proof fn recoveries_are_seen_whole(s: Seq<Seen>, a: Seq<RecoveryAction>, i: int)
    ensures
        seen_views(s).len() == s.len() && action_views(a).len() == a.len(),
        0 <= i < s.len() ==> seen_views(s)[i].sha256 == text::opt_text(s[i].sha256)
            && seen_views(s)[i].unreadable == s[i].unreadable && seen_views(s)[i].unix_ms
            == s[i].unix_ms,
        0 <= i < a.len() ==> action_views(a)[i] == (a[i].path@, a[i].outcome@),
{
}

/// Legacy files, what they hold, and what is reported of them.
pub proof fn migrations_are_seen_whole(
    f: Seq<LegacyFile>,
    s: Section,
    d: Seq<SkippedDirective>,
    ini: PhpIniSettings,
    r: MigrationReport,
    i: int,
)
    ensures
        legacy_views(f).len() == f.len() && skipped_views(d).len() == d.len(),
        0 <= i < f.len() ==> legacy_views(f)[i].version == f[i].version@ && legacy_views(f)[i].path
            == f[i].path@ && legacy_views(f)[i].input == text_result(f[i].input),
        section_view(s).0 == s.0@ && section_view(s).1.len() == s.1@.len(),
        0 <= i < s.1@.len() ==> section_view(s).1[i] == (s.1@[i].0@, text::opt_text(s.1@[i].1)),
        0 <= i < d.len() ==> skipped_views(d)[i].version == d[i].version@ && skipped_views(
            d,
        )[i].key == d[i].key@ && skipped_views(d)[i].reason == d[i].reason@,
        import_view(ini, r).store == ini@,
        import_view(ini, r).imported == text::text_pairs(r.imported@),
        import_view(ini, r).skipped == skipped_views(r.skipped@),
{
}

/// The rows and files of a report.
pub proof fn reports_are_seen_whole(
    v: Seq<PhpTargetRow>,
    f: Seq<FileOutcome>,
    o: PhpConfigOutcome,
    i: int,
)
    ensures
        row_views(v).len() == v.len() && file_views(f).len() == f.len(),
        0 <= i < v.len() ==> {
            let r = row_views(v)[i];
            &&& r.provider == v[i].provider@ && r.version == v[i].version@ && r.sapi == v[i].sapi@
            &&& r.context == v[i].context@ && r.channel == text::opt_text(v[i].channel)
            &&& r.coverage == v[i].coverage@ && r.configured == text::opt_text(v[i].configured)
            &&& r.observed == text::opt_text(v[i].observed)
            &&& r.observed_state == v[i].observed_state@
            &&& r.pending_restart == v[i].pending_restart
        },
        0 <= i < f.len() ==> {
            let w = file_views(f)[i];
            &&& w.path == f[i].path@
            &&& f[i].result is Written ==> w.result is Written
            &&& f[i].result is Unchanged ==> w.result is Unchanged
            &&& f[i].result is Deleted ==> w.result is Deleted
            &&& f[i].result matches FileWriteResult::Refused { reason } ==> w.result == (
            FileResultView::Refused { reason: reason@ })
            &&& f[i].result matches FileWriteResult::Failed { error } ==> w.result == (
            FileResultView::Failed { error: error@ })
        },
        o@.persisted == o.persisted && o@.rows == row_views(o.rows@) && o@.files == file_views(
            o.files@,
        ),
        o@.status_key == text::opt_text(o.status_key) && o@.status_token == text::opt_text(
            o.status_token,
        ),
{
}

/// Services, their states, and who owns FPM.
pub proof fn services_are_seen_whole(
    v: Seq<ManagedService>,
    s: Seq<(ServiceKind, ServiceState)>,
    d: Seq<ServiceDetail>,
    st: ServiceState,
    o: FpmOwnership,
    e: RootOverrides,
    i: int,
)
    ensures
        managed(v).len() == v.len() && state_rows(s).len() == s.len() && detail_rows(d).len()
            == d.len(),
        0 <= i < v.len() ==> managed(v)[i] == v[i]@,
        0 <= i < s.len() ==> state_rows(s)[i] == (s[i].0, s[i].1@),
        0 <= i < d.len() ==> detail_rows(d)[i] == (d[i].display_name@, d[i].state@),
        st is Stopped <==> st@ is Stopped,
        st is Starting <==> st@ is Starting,
        st matches ServiceState::Running { pid } ==> st@ is Running && st@->pid == pid,
        st matches ServiceState::Failed { reason } ==> st@ is Failed && st@->reason == reason@,
        o is Owned <==> o@ is Owned,
        o is Unowned <==> o@ is Unowned,
        o matches FpmOwnership::Unknown(why) ==> o@ is Unknown && o@->Unknown_0 == why@,
        e@.herd == text::opt_text(e.herd) && e@.homebrew == text::opt_text(e.homebrew),
        e@.isolated == text::opt_text(e.isolated),
{
}

} // verus!
