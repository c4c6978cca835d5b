//! Materialization of the canonical PHP INI store into verified channel
//! files, owned by an authoritative manifest with a crash-safe pending
//! journal, plus guarded migration of legacy per-version Hearth INIs.
//!
//! Ownership rule: overwrite/delete/unmanage require a manifest entry
//! whose recorded sha256 exactly matches the on-disk file. The rendered file
//! header is informational only — a headered file without a manifest entry is
//! a collision and is refused, never adopted.

use crate::config::{effective, IniStore, PhpIniSettings};
use crate::path;
pub use crate::php::artifact::{DirIdentity, OwnedArtifactSpec};
use crate::php::artifact::ArtifactView;
use crate::php::batch::{job_views, Job, JobView, Policy};
use crate::php::channel_dir::below_any;
pub use crate::php::manifest::{
    EntryState, LastOutcome, Manifest, ManifestEntry, WriteOutcome, MANIFEST_VERSION,
};
use crate::php::ini_guard;
use crate::php::manifest::OutcomeView;
pub use crate::php::migration::{migrate_legacy_inis, MigrationReport, SkippedDirective};
pub use crate::php::recovery::{RecoveryAction, RecoveryOutcome};
use crate::php::targets::{
    target_views, ChannelClass, ClassView, IdentityView, PhpProvider, PhpTarget, PhpTargetIdentity,
    TargetView,
};
use crate::php::txn::{
    self, cut_short, FinalizeMode, Purpose, PurposeView, TxnRun, TxnStage, TxnStageView, TxnView,
};
use crate::scan::{self, cut};
use crate::strmap::{self, listing, StrMap};
use crate::text;
use vstd::prelude::*;

verus! {

/// File name Hearth materializes into every verified channel. `zz-` sorts
/// last in the alphabetical scan order, so Hearth values win over Herd's
/// `php.ini` and Homebrew's `ext-*.ini`.
pub const CHANNEL_FILE_NAME: &'static str = "zz-hearth.ini";

pub const INI_HEADER: &'static str = "; managed by hearth — do not edit. `hearth php config` regenerates this file.\n; hearth-owned: v1\n";

pub const CHANNEL_MODE: u32 = 0o644;

// ---- rendering ----
/// The directives, one assignment per line.
pub open spec fn assignments(list: Seq<(Seq<char>, Seq<char>)>) -> Seq<char>
    decreases list.len(),
{
    if list.len() == 0 {
        Seq::empty()
    } else {
        assignments(list.drop_last()) + list.last().0 + seq!['='] + list.last().1 + seq!['\n']
    }
}

/// The channel file for a list of directives.
pub open spec fn rendered(list: Seq<(Seq<char>, Seq<char>)>) -> Seq<char> {
    INI_HEADER@ + assignments(list)
}

/// Render the effective directive map into the byte-stable channel file.
/// The header is informational only — ownership lives in the manifest.
pub fn render_ini(directives: &StrMap<String>) -> (r: String)
    requires
        directives.wf(),
    ensures
        r@ == rendered(listing(directives@)),
{
    proof {
        strmap::listing_of_sorted(directives.entries());
    }
    let mut out: String = INI_HEADER.to_owned();
    let n: usize = directives.len();
    let ghost list = directives.entries();
    let mut i: usize = 0;
    proof {
        assert(list.take(0) =~= Seq::empty());
        assert(out@ =~= INI_HEADER@ + assignments(list.take(0)));
    }
    while i < n
        invariant
            i <= n,
            n == list.len(),
            list == directives.entries(),
            directives.wf(),
            out@ == INI_HEADER@ + assignments(list.take(i as int)),
        decreases n - i,
    {
        let ghost before = out@;
        out.append(directives.key_at(i).as_str());
        out.push('=');
        out.append(directives.value_at(i).as_str());
        out.push('\n');
        proof {
            let t = list.take(i + 1);
            assert(t.drop_last() =~= list.take(i as int));
            assert(out@ =~= INI_HEADER@ + assignments(t));
        }
        i = i + 1;
    }
    proof {
        assert(list.take(i as int) =~= list);
    }
    out
}

/// The line of one directive.
pub open spec fn assignment(p: (Seq<char>, Seq<char>)) -> Seq<char> {
    p.0 + seq!['='] + p.1
}

proof fn cut_of_rendered(list: Seq<(Seq<char>, Seq<char>)>)
    requires
        forall|i: int|
            0 <= i < list.len() ==> ini_guard::key_accepted((#[trigger] list[i]).0)
                && ini_guard::value_accepted(list[i].1),
    ensures
        cut(rendered(list), '\n') == (cut(INI_HEADER@, '\n').drop_last() + list.map_values(
            |p: (Seq<char>, Seq<char>)| assignment(p),
        )).push(Seq::empty()),
    decreases list.len(),
{
    let head = cut(INI_HEADER@, '\n');
    if list.len() == 0 {
        assert(rendered(list) =~= INI_HEADER@);
        assert(INI_HEADER@.last() == '\n') by {
            reveal_strlit(
                "; managed by hearth — do not edit. `hearth php config` regenerates this file.\n; hearth-owned: v1\n",
            );
        }
        assert(list.map_values(|p: (Seq<char>, Seq<char>)| assignment(p)) =~= Seq::empty());
        assert(head.last() =~= Seq::empty());
        scan::cut_nonempty(INI_HEADER@, '\n');
        assert((head.drop_last() + Seq::<Seq<char>>::empty()).push(Seq::empty()) =~= head);
    } else {
        let prev = list.drop_last();
        let (k, v) = list.last();
        assert forall|i: int| 0 <= i < prev.len() implies ini_guard::key_accepted(
            (#[trigger] prev[i]).0,
        ) && ini_guard::value_accepted(prev[i].1) by {
            assert(prev[i] == list[i]);
        }
        cut_of_rendered(prev);
        let line = assignment((k, v));
        assert(ini_guard::key_accepted(list[list.len() - 1].0));
        assert(!line.contains('\n')) by {
            if line.contains('\n') {
                let i = choose|i: int| 0 <= i < line.len() && line[i] == '\n';
                if i < k.len() {
                    ini_guard::accepted_key_is_one_name(k, i);
                } else if i > k.len() {
                    ini_guard::accepted_value_is_one_line(v, i - k.len() - 1);
                }
            }
        }
        let before = rendered(prev);
        let whole = rendered(list);
        assert(whole =~= (before + line).push('\n'));
        scan::cut_extends_last(before, line, '\n');
        let lines = prev.map_values(|p: (Seq<char>, Seq<char>)| assignment(p));
        let p = cut(before, '\n');
        assert(p.last() + line =~= line);
        assert(p.drop_last() =~= head.drop_last() + lines);
        assert(whole.drop_last() =~= before + line);
        assert(list.map_values(|p: (Seq<char>, Seq<char>)| assignment(p)) =~= lines.push(line));
        assert(cut(whole, '\n') =~= (head.drop_last() + lines).push(line).push(Seq::empty()));
        assert((head.drop_last() + lines).push(line) =~= head.drop_last() + lines.push(line));
    }
}

/// The rendered file of accepted directives has, after the header, exactly one
/// line per directive: its assignment. Nothing that is set can add a line, a
/// section or a comment.
pub proof fn rendered_lines_are_the_directives(list: Seq<(Seq<char>, Seq<char>)>)
    requires
        forall|i: int|
            0 <= i < list.len() ==> ini_guard::key_accepted((#[trigger] list[i]).0)
                && ini_guard::value_accepted(list[i].1),
    ensures
        scan::lines_of(rendered(list)) == scan::lines_of(INI_HEADER@) + list.map_values(
            |p: (Seq<char>, Seq<char>)| assignment(p),
        ),
        forall|i: int|
            0 <= i < list.len() ==> (#[trigger] assignment(list[i]))[0] != '['
                && assignment(list[i])[0] != ';',
{
    cut_of_rendered(list);
    let none = Seq::<(Seq<char>, Seq<char>)>::empty();
    cut_of_rendered(none);
    assert(rendered(none) =~= INI_HEADER@);
    let head = cut(INI_HEADER@, '\n');
    let lines = list.map_values(|p: (Seq<char>, Seq<char>)| assignment(p));
    let cr = |l: Seq<char>| scan::without_cr(l);
    let all = head.drop_last() + lines;
    assert(cut(rendered(list), '\n').drop_last() =~= all);
    assert(head.last() =~= Seq::empty());
    assert forall|i: int| 0 <= i < lines.len() implies scan::without_cr(#[trigger] lines[i])
        == lines[i] by {
        let (k, v) = list[i];
        assert(ini_guard::key_accepted(list[i].0));
        if v.len() > 0 {
            ini_guard::accepted_value_is_one_line(v, v.len() - 1);
            assert(lines[i].last() == v.last());
        }
    }
    assert(all.map_values(cr) =~= head.drop_last().map_values(cr) + lines);
    assert forall|i: int| 0 <= i < list.len() implies (#[trigger] assignment(list[i]))[0] != '['
        && assignment(list[i])[0] != ';' by {
        assert(ini_guard::key_accepted(list[i].0));
        ini_guard::accepted_key_is_one_name(list[i].0, 0);
        assert(assignment(list[i])[0] == list[i].0[0]);
    }
}

// ---- hashing ----
/// The SHA-256 digest of a byte string.
pub uninterp spec fn sha256(bytes: Seq<u8>) -> Seq<u8>;

/// `sha2::Sha256::digest` returns the SHA-256 digest, 32 bytes. Which bytes
/// they are is the algorithm's matter; they depend on the input alone.
#[verifier::external_body]
fn sha256_digest(bytes: &[u8]) -> (r: Vec<u8>)
    ensures
        r@ == sha256(bytes@),
        r@.len() == 32,
{
    <sha2::Sha256 as sha2::Digest>::digest(bytes).to_vec()
}

pub open spec fn hex_digit(d: u8) -> char {
    if d < 10 {
        ((d + 48) as u8) as char
    } else {
        ((d + 87) as u8) as char
    }
}

/// Two lower-case hexadecimal digits per byte.
pub open spec fn hex(bytes: Seq<u8>) -> Seq<char>
    decreases bytes.len(),
{
    if bytes.len() == 0 {
        Seq::empty()
    } else {
        hex(bytes.drop_last()).push(hex_digit(bytes.last() / 16)).push(
            hex_digit(bytes.last() % 16),
        )
    }
}

fn hex_char(d: u8) -> (r: char)
    requires
        d < 16,
    ensures
        r == hex_digit(d),
{
    if d < 10 {
        (d + 48) as char
    } else {
        (d + 87) as char
    }
}

/// Renders bytes in lower-case hexadecimal.
pub fn hex_string(bytes: &[u8]) -> (r: String)
    ensures
        r@ == hex(bytes@),
{
    let mut out: String = String::new();
    let mut i: usize = 0;
    proof {
        assert(bytes@.take(0) =~= Seq::empty());
    }
    while i < bytes.len()
        invariant
            i <= bytes@.len(),
            out@ == hex(bytes@.take(i as int)),
        decreases bytes@.len() - i,
    {
        let b: u8 = bytes[i];
        out.push(hex_char(b / 16));
        out.push(hex_char(b % 16));
        proof {
            assert(bytes@.take(i + 1).drop_last() =~= bytes@.take(i as int));
        }
        i = i + 1;
    }
    proof {
        assert(bytes@.take(i as int) =~= bytes@);
    }
    out
}

/// The SHA-256 of `bytes`, in lower-case hexadecimal.
pub fn sha256_hex(bytes: &[u8]) -> (r: String)
    ensures
        r@ == hex(sha256(bytes@)),
{
    let digest: Vec<u8> = sha256_digest(bytes);
    hex_string(digest.as_slice())
}

/// The hash of a text as it is written to disk.
pub open spec fn text_sha(s: Seq<char>) -> Seq<char> {
    hex(sha256(vstd::utf8::encode_utf8(s)))
}

/// The SHA-256 of a text's UTF-8 bytes, in lower-case hexadecimal.
pub fn text_sha256(s: &str) -> (r: String)
    ensures
        r@ == text_sha(s@),
{
    sha256_hex(s.as_bytes())
}

// ---- the plan ----
#[derive(Debug, Clone)]
pub struct FileAction {
    pub path: String,
    pub php_version: String,
    pub channel: String,
    pub outcome: WriteOutcome,
}

pub struct ActionView {
    pub path: Seq<char>,
    pub php_version: Seq<char>,
    pub channel: Seq<char>,
    pub outcome: OutcomeView,
}

impl View for FileAction {
    type V = ActionView;

    open spec fn view(&self) -> ActionView {
        ActionView {
            path: self.path@,
            php_version: self.php_version@,
            channel: self.channel@,
            outcome: self.outcome@,
        }
    }
}

pub open spec fn actions_of(v: Seq<FileAction>) -> Seq<ActionView> {
    v.map_values(|a: FileAction| a@)
}

/// A target reconcile could not write for (privileged/best-effort channel):
/// reported, zero filesystem operations.
#[derive(Debug, Clone)]
pub struct SkippedTarget {
    pub id: PhpTargetIdentity,
    pub normal_channel: ChannelClass,
    pub sanitized_channel: ChannelClass,
}

pub struct SkippedView {
    pub id: IdentityView,
    pub normal_channel: ClassView,
    pub sanitized_channel: ClassView,
}

impl View for SkippedTarget {
    type V = SkippedView;

    open spec fn view(&self) -> SkippedView {
        SkippedView {
            id: self.id@,
            normal_channel: self.normal_channel@,
            sanitized_channel: self.sanitized_channel@,
        }
    }
}

pub open spec fn skipped_of(v: Seq<SkippedTarget>) -> Seq<SkippedView> {
    v.map_values(|a: SkippedTarget| a@)
}

#[derive(Debug, Clone)]
pub struct ReconcileReport {
    pub files: Vec<FileAction>,
    pub skipped: Vec<SkippedTarget>,
}

impl Default for ReconcileReport {
    fn default() -> (r: Self)
        ensures
            r.files@.len() == 0,
            r.skipped@.len() == 0,
    {
        ReconcileReport { files: Vec::new(), skipped: Vec::new() }
    }
}

/// What the manifest calls a provider's channel.
pub open spec fn kind_of(p: PhpProvider) -> Seq<char> {
    match p {
        PhpProvider::Hearth => "hearth"@,
        PhpProvider::Herd => "herd-user"@,
        PhpProvider::Homebrew => "homebrew"@,
    }
}

pub fn channel_kind(provider: PhpProvider) -> (r: &'static str)
    ensures
        r@ == kind_of(provider),
{
    match provider {
        PhpProvider::Hearth => "hearth",
        PhpProvider::Herd => "herd-user",
        PhpProvider::Homebrew => "homebrew",
    }
}

/// One channel that receives a file: a version, a directory, and the provider
/// that it was first found for.
#[derive(Debug)]
pub struct ChannelGroup {
    pub version: String,
    pub dir: String,
    pub provider: PhpProvider,
}

pub struct GroupView {
    pub version: Seq<char>,
    pub dir: Seq<char>,
    pub provider: PhpProvider,
}

impl View for ChannelGroup {
    type V = GroupView;

    open spec fn view(&self) -> GroupView {
        GroupView { version: self.version@, dir: self.dir@, provider: self.provider }
    }
}

pub open spec fn groups_of(v: Seq<ChannelGroup>) -> Seq<GroupView> {
    v.map_values(|g: ChannelGroup| g@)
}

/// The same channel: the same version, and one directory.
pub open spec fn same_channel(a: GroupView, b: GroupView) -> bool {
    a.version == b.version && path::key(a.dir) == path::key(b.dir)
}

/// The order of the channels: by version, then by directory.
pub open spec fn channel_lt(a: GroupView, b: GroupView) -> bool {
    ||| text::lt(a.version, b.version)
    ||| (a.version == b.version && path::key_lt(path::key(a.dir), path::key(b.dir)))
}

/// `g` put at its place; a channel that is already there stays as it is.
pub open spec fn placed(list: Seq<GroupView>, g: GroupView) -> Seq<GroupView>
    decreases list.len(),
{
    if list.len() == 0 {
        seq![g]
    } else if same_channel(list[0], g) {
        list
    } else if channel_lt(g, list[0]) {
        seq![g] + list
    } else {
        seq![list[0]] + placed(list.drop_first(), g)
    }
}

/// The channels of the targets that may be written for.
pub open spec fn channels(targets: Seq<TargetView>) -> Seq<GroupView>
    decreases targets.len(),
{
    if targets.len() == 0 {
        Seq::empty()
    } else {
        let t = targets.last();
        let before = channels(targets.drop_last());
        match t.write_channel {
            Some(dir) => placed(
                before,
                GroupView { version: t.id.version, dir, provider: t.id.provider },
            ),
            None => before,
        }
    }
}

/// The targets that may not be written for.
pub open spec fn unwritable(targets: Seq<TargetView>) -> Seq<SkippedView>
    decreases targets.len(),
{
    if targets.len() == 0 {
        Seq::empty()
    } else {
        let t = targets.last();
        let before = unwritable(targets.drop_last());
        match t.write_channel {
            Some(_) => before,
            None => before.push(
                SkippedView {
                    id: t.id,
                    normal_channel: t.normal_channel,
                    sanitized_channel: t.sanitized_channel,
                },
            ),
        }
    }
}

fn place(list: &mut Vec<ChannelGroup>, g: ChannelGroup)
    ensures
        groups_of(final(list)@) == placed(groups_of(old(list)@), g@),
{
    let ghost all = groups_of(list@);
    let mut i: usize = 0;
    proof {
        assert(all.skip(0) =~= all);
        assert(all.take(0) + placed(all.skip(0), g@) =~= placed(all, g@));
    }
    while i < list.len()
        invariant
            i <= list@.len(),
            list@ == old(list)@,
            all == groups_of(list@),
            placed(all, g@) == all.take(i as int) + placed(all.skip(i as int), g@),
        decreases list@.len() - i,
    {
        proof {
            assert(all.skip(i as int)[0] == list@[i as int]@);
            assert(all.skip(i as int).drop_first() =~= all.skip(i + 1));
        }
        let same_version: bool = list[i].version == g.version;
        if same_version && path::same_path(list[i].dir.as_str(), g.dir.as_str()) {
            proof {
                assert(all.take(i as int) + all.skip(i as int) =~= all);
            }
            return ;
        }
        let before: bool = text::less(g.version.as_str(), list[i].version.as_str()) || (same_version
            && path::path_less(g.dir.as_str(), list[i].dir.as_str()));
        if before {
            list.insert(i, g);
            proof {
                assert(groups_of(list@) =~= all.take(i as int) + (seq![g@] + all.skip(i as int)));
            }
            return ;
        }
        proof {
            assert(all.take(i as int) + (seq![all[i as int]] + placed(all.skip(i + 1), g@))
                =~= all.take(i + 1) + placed(all.skip(i + 1), g@));
        }
        i = i + 1;
    }
    list.push(g);
    proof {
        assert(all.skip(i as int) =~= Seq::empty());
        assert(all.take(i as int) =~= all);
        assert(groups_of(list@) =~= all + seq![g@]);
    }
}

/// What a reconciliation is going to do.
#[derive(Debug)]
pub struct ReconcilePlan {
    pub groups: Vec<ChannelGroup>,
    pub skipped: Vec<SkippedTarget>,
}

/// Which channels are written for, and which targets are passed over.
pub fn plan_channels(targets: &Vec<PhpTarget>) -> (r: ReconcilePlan)
    ensures
        groups_of(r.groups@) == channels(target_views(targets@)),
        skipped_of(r.skipped@) == unwritable(target_views(targets@)),
{
    let ghost all = target_views(targets@);
    let mut groups: Vec<ChannelGroup> = Vec::new();
    let mut skipped: Vec<SkippedTarget> = Vec::new();
    let mut i: usize = 0;
    proof {
        assert(all.take(0) =~= Seq::empty());
        assert(groups_of(groups@) =~= Seq::empty());
        assert(skipped_of(skipped@) =~= Seq::empty());
    }
    while i < targets.len()
        invariant
            i <= targets@.len(),
            all == target_views(targets@),
            groups_of(groups@) == channels(all.take(i as int)),
            skipped_of(skipped@) == unwritable(all.take(i as int)),
        decreases targets@.len() - i,
    {
        let t: &PhpTarget = &targets[i];
        proof {
            assert(all.take(i + 1).drop_last() =~= all.take(i as int));
            assert(all.take(i + 1).last() == t@);
        }
        match &t.write_channel {
            Some(dir) => {
                let g = ChannelGroup {
                    version: t.id.version.clone(),
                    dir: dir.clone(),
                    provider: t.id.provider,
                };
                place(&mut groups, g);
            },
            None => {
                let s = SkippedTarget {
                    id: t.id.dup(),
                    normal_channel: t.normal_channel.dup(),
                    sanitized_channel: t.sanitized_channel.dup(),
                };
                let ghost before = skipped@;
                skipped.push(s);
                proof {
                    assert(skipped_of(skipped@) =~= skipped_of(before).push(s@));
                }
            },
        }
        i = i + 1;
    }
    proof {
        assert(all.take(i as int) =~= all);
    }
    ReconcilePlan { groups, skipped }
}

/// The file of a channel.
pub open spec fn channel_file(dir: Seq<char>) -> Seq<char> {
    path::joined(dir, CHANNEL_FILE_NAME@)
}

/// What has to be done to a channel: its file is written with the directives
/// in force, or removed where there are none.
pub open spec fn channel_job(ini: IniStore, g: GroupView) -> JobView {
    let directives = effective(ini, g.version);
    if directives == Map::<Seq<char>, Seq<char>>::empty() {
        JobView::Remove { path: channel_file(g.dir) }
    } else {
        JobView::Apply {
            spec: ArtifactView {
                final_path: channel_file(g.dir),
                channel: kind_of(g.provider),
                php_version: g.version,
                mode: CHANNEL_MODE,
            },
            content: rendered(listing(directives)),
            sha256: text_sha(rendered(listing(directives))),
        }
    }
}

/// What has to be done to the channels, in their order.
pub open spec fn channel_jobs(ini: IniStore, groups: Seq<GroupView>) -> Seq<JobView> {
    groups.map_values(|g: GroupView| channel_job(ini, g))
}

fn job_for(ini: &PhpIniSettings, g: &ChannelGroup) -> (r: Job)
    requires
        ini.wf(),
    ensures
        r@ == channel_job(ini@, g@),
{
    let path: String = path::join(g.dir.as_str(), CHANNEL_FILE_NAME);
    let directives: StrMap<String> = ini.effective_for(g.version.as_str());
    if directives.is_empty() {
        Job::Remove { path }
    } else {
        let content: String = render_ini(&directives);
        let sha256: String = text_sha256(content.as_str());
        Job::Apply {
            spec: OwnedArtifactSpec {
                final_path: path,
                channel: channel_kind(g.provider).to_owned(),
                php_version: g.version.clone(),
                mode: CHANNEL_MODE,
            },
            content,
            sha256,
        }
    }
}

/// A reconciliation under way.
#[derive(Debug)]
pub struct ReconcileRun {
    pub plan: ReconcilePlan,
    pub txn: TxnRun,
}

/// Materialize the canonical store into every writable channel. Per-file
/// outcomes are isolated; privileged/best-effort targets get rows only.
pub fn reconcile(php_ini: &PhpIniSettings, targets: &Vec<PhpTarget>) -> (r: ReconcileRun)
    requires
        php_ini.wf(),
    ensures
        groups_of(r.plan.groups@) == channels(target_views(targets@)),
        skipped_of(r.plan.skipped@) == unwritable(target_views(targets@)),
        r.txn@ == txn::txn_start(
            PurposeView::Reconcile {
                jobs: channel_jobs(
                    php_ini@,
                    channels(target_views(targets@)),
                ),
            },
            FinalizeMode::SaveAlways,
        ),
{
    let plan: ReconcilePlan = plan_channels(targets);
    let mut jobs: Vec<Job> = Vec::new();
    let mut i: usize = 0;
    while i < plan.groups.len()
        invariant
            php_ini.wf(),
            i <= plan.groups@.len(),
            jobs@.len() == i,
            forall|j: int|
                0 <= j < i ==> (#[trigger] jobs@[j])@ == channel_job(php_ini@, plan.groups@[j]@),
        decreases plan.groups@.len() - i,
    {
        jobs.push(job_for(php_ini, &plan.groups[i]));
        i = i + 1;
    }
    proof {
        assert(job_views(jobs@) =~= channel_jobs(php_ini@, groups_of(plan.groups@)));
    }
    let txn: TxnRun = txn::manifest_set_transaction(
        Purpose::Reconcile { jobs },
        FinalizeMode::SaveAlways,
    );
    ReconcileRun { plan, txn }
}

// ---- the report ----
pub struct ReportView {
    pub files: Seq<ActionView>,
    pub skipped: Seq<SkippedView>,
}

impl View for ReconcileReport {
    type V = ReportView;

    open spec fn view(&self) -> ReportView {
        ReportView { files: actions_of(self.files@), skipped: skipped_of(self.skipped@) }
    }
}

/// What is reported of the first `n` channels: the outcome of each, but for a
/// removal that had nothing to do.
pub open spec fn channel_actions(
    groups: Seq<GroupView>,
    jobs: Seq<JobView>,
    outcomes: Seq<OutcomeView>,
    n: int,
) -> Seq<ActionView>
    decreases n,
{
    if n <= 0 {
        Seq::empty()
    } else {
        let before = channel_actions(groups, jobs, outcomes, n - 1);
        if jobs[n - 1] is Remove && outcomes[n - 1] is Unchanged {
            before
        } else {
            before.push(
                ActionView {
                    path: channel_file(groups[n - 1].dir),
                    php_version: groups[n - 1].version,
                    channel: kind_of(groups[n - 1].provider),
                    outcome: outcomes[n - 1],
                },
            )
        }
    }
}

/// A failure of the manifest itself.
pub open spec fn manifest_failure(manifest_path: Seq<char>, error: Seq<char>) -> ActionView {
    ActionView {
        path: manifest_path,
        php_version: Seq::empty(),
        channel: Seq::empty(),
        outcome: OutcomeView::Failed { error },
    }
}

/// The least of three lengths.
pub open spec fn least(a: nat, b: nat, c: nat) -> int {
    let ab = if a <= b {
        a
    } else {
        b
    };
    if ab <= c {
        ab as int
    } else {
        c as int
    }
}

/// What a reconciliation reports when its transaction has ended.
pub open spec fn report_of(
    groups: Seq<GroupView>,
    skipped: Seq<SkippedView>,
    t: TxnView,
    manifest_path: Seq<char>,
) -> ReportView {
    match t.stage {
        TxnStageView::Failed { error } => ReportView {
            files: seq![manifest_failure(manifest_path, txn::txn_said(error))],
            skipped: Seq::empty(),
        },
        _ => {
            let n = least(groups.len(), t.batch.jobs.len(), t.batch.outcomes.len());
            let files = channel_actions(groups, t.batch.jobs, t.batch.outcomes, n);
            ReportView {
                files: match t.prune_error {
                    None => files,
                    Some(e) => files.push(
                        manifest_failure(
                            manifest_path,
                            "stale manifest entries could not be pruned durably: "@ + e,
                        ),
                    ),
                },
                skipped,
            }
        },
    }
}

fn failure_of(manifest_path: &str, error: String) -> (r: FileAction)
    ensures
        r@ == manifest_failure(manifest_path@, error@),
{
    FileAction {
        path: manifest_path.to_owned(),
        php_version: String::new(),
        channel: String::new(),
        outcome: WriteOutcome::Failed { error },
    }
}

impl ReconcileRun {
    /// The report, once the transaction has ended.
    pub fn report(self, manifest_path: &str) -> (r: ReconcileReport)
        ensures
            r@ == report_of(
                groups_of(self.plan.groups@),
                skipped_of(self.plan.skipped@),
                self.txn@,
                manifest_path@,
            ),
    {
        let mut files: Vec<FileAction> = Vec::new();
        if let TxnStage::Failed { error } = &self.txn.stage {
            files.push(failure_of(manifest_path, error.message()));
            let skipped: Vec<SkippedTarget> = Vec::new();
            proof {
                assert(actions_of(files@) =~= seq![
                    manifest_failure(manifest_path@, txn::txn_said(error@)),
                ]);
                assert(skipped_of(skipped@) =~= Seq::empty());
            }
            return ReconcileReport { files, skipped };
        }
        let ghost groups = groups_of(self.plan.groups@);
        let ghost jobs = job_views(self.txn.batch.jobs@);
        let ghost outcomes = crate::php::batch::outcome_views(self.txn.batch.outcomes@);
        let mut i: usize = 0;
        proof {
            assert(actions_of(files@) =~= Seq::empty());
        }
        while i < self.plan.groups.len() && i < self.txn.batch.jobs.len() && i
            < self.txn.batch.outcomes.len()
            invariant
                i <= self.plan.groups@.len(),
                i <= self.txn.batch.jobs@.len(),
                i <= self.txn.batch.outcomes@.len(),
                groups == groups_of(self.plan.groups@),
                jobs == job_views(self.txn.batch.jobs@),
                outcomes == crate::php::batch::outcome_views(self.txn.batch.outcomes@),
                actions_of(files@) == channel_actions(groups, jobs, outcomes, i as int),
            decreases self.plan.groups@.len() - i,
        {
            let g: &ChannelGroup = &self.plan.groups[i];
            proof {
                assert(groups[i as int] == g@);
                assert(jobs[i as int] == self.txn.batch.jobs@[i as int]@);
                assert(outcomes[i as int] == self.txn.batch.outcomes@[i as int]@);
            }
            let quiet: bool = match (&self.txn.batch.jobs[i], &self.txn.batch.outcomes[i]) {
                (Job::Remove { path: _ }, WriteOutcome::Unchanged) => true,
                _ => false,
            };
            if !quiet {
                let a = FileAction {
                    path: path::join(g.dir.as_str(), CHANNEL_FILE_NAME),
                    php_version: g.version.clone(),
                    channel: channel_kind(g.provider).to_owned(),
                    outcome: self.txn.batch.outcomes[i].dup(),
                };
                let ghost before = files@;
                files.push(a);
                proof {
                    assert(actions_of(files@) =~= actions_of(before).push(a@));
                }
            }
            i = i + 1;
        }
        if let Some(e) = &self.txn.prune_error {
            let error: String = text::cat2(
                "stale manifest entries could not be pruned durably: ",
                e.as_str(),
            );
            let a: FileAction = failure_of(manifest_path, error);
            let ghost before = files@;
            files.push(a);
            proof {
                assert(actions_of(files@) =~= actions_of(before).push(a@));
            }
        }
        ReconcileReport { files, skipped: self.plan.skipped }
    }
}

// ---- recovery and unmanaging ----
/// Resolve every pending journal entry deterministically. Idempotent; done
/// before any reconcile and before unmanaging.
pub fn recover_pending() -> (r: TxnRun)
    ensures
        r@ == txn::txn_start(PurposeView::Recover, FinalizeMode::SaveAlways),
{
    txn::manifest_set_transaction(Purpose::Recover, FinalizeMode::SaveAlways)
}

/// What the resolution came to, once its transaction has ended.
pub fn recovery_result(run: TxnRun) -> (r: Result<Vec<RecoveryAction>, String>)
    ensures
        match (r, run@.stage) {
            (Err(e), TxnStageView::Failed { error }) => e@ == txn::txn_said(error),
            (Ok(actions), TxnStageView::Failed { error }) => false,
            (Err(e), _) => false,
            (Ok(actions), _) => crate::php::recovery::action_views(actions@) == run@.recovery,
        },
{
    match &run.stage {
        TxnStage::Failed { error } => Err(error.message()),
        _ => Ok(run.recovery),
    }
}

/// Remove every Hearth-written channel file (journal-resolved, exact-hash
/// deletions only). Hash-mismatched survivors are reported Refused.
pub fn unmanage() -> (r: TxnRun)
    ensures
        r@ == txn::txn_start(
            PurposeView::Unmanage { policy: Policy::StopOnJournalFault },
            FinalizeMode::SaveAlways,
        ),
{
    txn::manifest_set_transaction(
        Purpose::Unmanage { policy: Policy::StopOnJournalFault },
        FinalizeMode::SaveAlways,
    )
}

/// What is reported of the first `n` rows: the outcome of each removal that
/// had something to do.
pub open spec fn removal_actions(
    rows: Seq<crate::php::manifest::EntryView>,
    outcomes: Seq<OutcomeView>,
    n: int,
) -> Seq<ActionView>
    decreases n,
{
    if n <= 0 {
        Seq::empty()
    } else {
        let before = removal_actions(rows, outcomes, n - 1);
        if outcomes[n - 1] is Unchanged {
            before
        } else {
            before.push(
                ActionView {
                    path: rows[n - 1].path,
                    php_version: rows[n - 1].php_version,
                    channel: rows[n - 1].channel,
                    outcome: outcomes[n - 1],
                },
            )
        }
    }
}

/// What unmanaging comes to: the fault that cut it short, or what was done to
/// each file.
pub open spec fn unmanage_verdict(t: TxnView) -> Result<Seq<ActionView>, Seq<char>> {
    match t.stage {
        TxnStageView::Failed { error } => Err(txn::txn_said(error)),
        _ => if cut_short(t) && t.batch.outcomes.last() is Failed {
            Err(t.batch.outcomes.last()->Failed_error)
        } else {
            Ok(
                removal_actions(
                    t.rows_before,
                    t.batch.outcomes,
                    least(
                        t.rows_before.len(),
                        t.batch.outcomes.len(),
                        t.batch.outcomes.len(),
                    ),
                ),
            )
        },
    }
}

/// What unmanaging came to, once its transaction has ended.
pub fn unmanage_result(run: TxnRun) -> (r: Result<Vec<FileAction>, String>)
    ensures
        match r {
            Ok(actions) => unmanage_verdict(run@) == Ok::<Seq<ActionView>, Seq<char>>(
                actions_of(actions@),
            ),
            Err(e) => unmanage_verdict(run@) == Err::<Seq<ActionView>, Seq<char>>(e@),
        },
{
    if let TxnStage::Failed { error } = &run.stage {
        return Err(error.message());
    }
    let n: usize = run.batch.outcomes.len();
    let ghost outcomes = crate::php::batch::outcome_views(run.batch.outcomes@);
    let ghost rows = crate::php::manifest::rows(run.rows_before@);
    if n > 0 {
        proof {
            assert(outcomes.last() == run.batch.outcomes@[n - 1]@);
        }
        if let WriteOutcome::Failed { error } = &run.batch.outcomes[n - 1] {
            if crate::php::batch::is_end(run.batch.policy, &run.batch.outcomes[n - 1]) {
                return Err(error.clone());
            }
        }
    }
    let mut actions: Vec<FileAction> = Vec::new();
    let mut i: usize = 0;
    proof {
        assert(actions_of(actions@) =~= Seq::empty());
    }
    while i < run.rows_before.len() && i < n
        invariant
            i <= run.rows_before@.len(),
            i <= n,
            n == run.batch.outcomes@.len(),
            rows == crate::php::manifest::rows(run.rows_before@),
            outcomes == crate::php::batch::outcome_views(run.batch.outcomes@),
            actions_of(actions@) == removal_actions(rows, outcomes, i as int),
        decreases n - i,
    {
        let e: &ManifestEntry = &run.rows_before[i];
        proof {
            assert(rows[i as int] == e@);
            assert(outcomes[i as int] == run.batch.outcomes@[i as int]@);
        }
        let quiet: bool = match &run.batch.outcomes[i] {
            WriteOutcome::Unchanged => true,
            _ => false,
        };
        if !quiet {
            let a = FileAction {
                path: e.path.clone(),
                php_version: e.php_version.clone(),
                channel: e.channel.clone(),
                outcome: run.batch.outcomes[i].dup(),
            };
            let ghost before = actions@;
            actions.push(a);
            proof {
                assert(actions_of(actions@) =~= actions_of(before).push(a@));
            }
        }
        i = i + 1;
    }
    Ok(actions)
}

// ---- laws ----
/// Every file that a reconcile writes or removes is the channel file of one of
/// the targets that may be written for.
pub proof fn reconciled_files_are_channel_files(ini: IniStore, targets: Seq<TargetView>, i: int)
    requires
        0 <= i < channel_jobs(ini, channels(targets)).len(),
    ensures
        exists|k: int|
            0 <= k < targets.len() && (#[trigger] targets[k]).write_channel is Some && txn::job_path(
                channel_jobs(ini, channels(targets))[i],
            ) == channel_file(targets[k].write_channel->0),
{
    channels_are_of_targets(targets, i);
}

/// The file of a channel lies within the write authority in which its directory
/// lies.
pub proof fn channel_file_stays_in_authority(allowed: Seq<Seq<char>>, dir: Seq<char>)
    requires
        dir.len() > 0,
        below_any(allowed, dir),
    ensures
        below_any(allowed, channel_file(dir)),
{
    reveal_strlit("zz-hearth.ini");
    let i = choose|i: int|
        0 <= i < allowed.len() && path::covers(path::key(#[trigger] allowed[i]), path::key(dir));
    let root = path::key(allowed[i]);
    path::join_stays_below(dir, CHANNEL_FILE_NAME@);
    if root.root || root.parts.len() > 0 {
        path::covers_transitive(root, path::key(dir), path::key(channel_file(dir)));
    }
    assert(path::covers(path::key(allowed[i]), path::key(channel_file(dir))));
}

proof fn channels_are_of_targets(targets: Seq<TargetView>, i: int)
    requires
        0 <= i < channels(targets).len(),
    ensures
        exists|k: int|
            0 <= k < targets.len() && (#[trigger] targets[k]).write_channel == Some(
                channels(targets)[i].dir,
            ),
    decreases targets.len(),
{
    let t = targets.last();
    let before = channels(targets.drop_last());
    if targets.len() > 0 {
        let g = channels(targets)[i];
        if t.write_channel is Some {
            let new = GroupView {
                version: t.id.version,
                dir: t.write_channel->0,
                provider: t.id.provider,
            };
            placed_is_one_of(before, new, i);
            if g == new {
                assert(targets[targets.len() - 1].write_channel == Some(g.dir));
            } else {
                let j = choose|j: int| 0 <= j < before.len() && #[trigger] before[j] == g;
                channels_are_of_targets(targets.drop_last(), j);
                let k = choose|k: int|
                    0 <= k < targets.len() - 1 && (#[trigger] targets.drop_last()[k]).write_channel
                        == Some(before[j].dir);
                assert(targets[k].write_channel == Some(g.dir));
            }
        } else {
            channels_are_of_targets(targets.drop_last(), i);
            let k = choose|k: int|
                0 <= k < targets.len() - 1 && (#[trigger] targets.drop_last()[k]).write_channel
                    == Some(before[i].dir);
            assert(targets[k].write_channel == Some(g.dir));
        }
    }
}

pub open spec fn in_order(list: Seq<GroupView>) -> bool {
    forall|i: int, j: int|
        0 <= i < j < list.len() ==> channel_lt(#[trigger] list[i], #[trigger] list[j])
}

/// The channels are reconciled in order, by version and then by directory, and
/// each of them once.
pub proof fn channels_are_in_order(targets: Seq<TargetView>)
    ensures
        in_order(channels(targets)),
        forall|i: int, j: int|
            0 <= i < j < channels(targets).len() ==> !same_channel(
                #[trigger] channels(targets)[i],
                #[trigger] channels(targets)[j],
            ),
    decreases targets.len(),
{
    let list = channels(targets);
    if targets.len() > 0 {
        channels_are_in_order(targets.drop_last());
        let t = targets.last();
        if t.write_channel is Some {
            placed_keeps_order(
                channels(targets.drop_last()),
                GroupView {
                    version: t.id.version,
                    dir: t.write_channel->0,
                    provider: t.id.provider,
                },
            );
        }
    }
    assert forall|i: int, j: int| 0 <= i < j < list.len() implies !same_channel(
        #[trigger] list[i],
        #[trigger] list[j],
    ) by {
        assert(channel_lt(list[i], list[j]));
        channel_lt_order(list[i], list[i], list[j]);
    }
}

/// The order of the channels is strict, transitive, and total up to the
/// channel.
proof fn channel_lt_order(a: GroupView, b: GroupView, c: GroupView)
    ensures
        !channel_lt(a, a),
        channel_lt(a, b) && channel_lt(b, c) ==> channel_lt(a, c),
        channel_lt(a, c) || channel_lt(c, a) || same_channel(a, c),
        same_channel(a, c) ==> !channel_lt(a, c),
{
    path::key_lt_order(path::key(a.dir), path::key(b.dir), path::key(c.dir));
    path::key_lt_order(path::key(a.dir), path::key(c.dir), path::key(a.dir));
    text::lt_irreflexive(a.version);
    text::lt_total(a.version, c.version);
    if text::lt(a.version, b.version) && text::lt(b.version, c.version) {
        text::lt_transitive(a.version, b.version, c.version);
    }
}

proof fn placed_keeps_order(list: Seq<GroupView>, g: GroupView)
    requires
        in_order(list),
    ensures
        in_order(placed(list, g)),
    decreases list.len(),
{
    let p = placed(list, g);
    if list.len() > 0 && !same_channel(list[0], g) {
        let rest = list.drop_first();
        channel_lt_order(g, list[0], list[0]);
        channel_lt_order(list[0], g, g);
        if channel_lt(g, list[0]) {
            assert forall|i: int, j: int| 0 <= i < j < p.len() implies channel_lt(
                #[trigger] p[i],
                #[trigger] p[j],
            ) by {
                assert(p[j] == list[j - 1]);
                if i > 0 {
                    assert(p[i] == list[i - 1]);
                } else if j > 1 {
                    channel_lt_order(g, list[0], list[j - 1]);
                }
            }
        } else {
            assert(in_order(rest)) by {
                assert forall|i: int, j: int| 0 <= i < j < rest.len() implies channel_lt(
                    #[trigger] rest[i],
                    #[trigger] rest[j],
                ) by {
                    assert(rest[i] == list[i + 1] && rest[j] == list[j + 1]);
                }
            }
            placed_keeps_order(rest, g);
            let q = placed(rest, g);
            assert forall|i: int, j: int| 0 <= i < j < p.len() implies channel_lt(
                #[trigger] p[i],
                #[trigger] p[j],
            ) by {
                assert(p[j] == q[j - 1]);
                if i > 0 {
                    assert(p[i] == q[i - 1]);
                } else {
                    placed_is_one_of(rest, g, j - 1);
                    if q[j - 1] != g {
                        let k = choose|k: int| 0 <= k < rest.len() && #[trigger] rest[k] == q[j - 1];
                        assert(list[k + 1] == q[j - 1]);
                    }
                }
            }
        }
    }
}

proof fn placed_is_one_of(list: Seq<GroupView>, g: GroupView, i: int)
    requires
        0 <= i < placed(list, g).len(),
    ensures
        placed(list, g)[i] == g || exists|j: int|
            0 <= j < list.len() && #[trigger] list[j] == placed(list, g)[i],
    decreases list.len(),
{
    let p = placed(list, g);
    if list.len() > 0 && !same_channel(list[0], g) {
        if channel_lt(g, list[0]) {
            if i > 0 {
                assert(p[i] == list[i - 1]);
            }
        } else if i == 0 {
            assert(p[0] == list[0]);
        } else {
            let rest = list.drop_first();
            placed_is_one_of(rest, g, i - 1);
            assert(p[i] == placed(rest, g)[i - 1]);
            if p[i] != g {
                let j = choose|j: int| 0 <= j < rest.len() && #[trigger] rest[j] == p[i];
                assert(list[j + 1] == p[i]);
            }
        }
    } else if list.len() > 0 {
        assert(list[i] == p[i]);
    }
}

} // verus!
