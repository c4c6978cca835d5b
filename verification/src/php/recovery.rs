//! Resolution of the pending journal: what an interrupted update comes to,
//! judged by the file that it left behind.

use crate::php::artifact::{self, applied_row, refused_row};
use crate::php::manifest::{
    self, EntryState, EntryView, LastOutcome, Manifest, ManifestEntry, ManifestView,
};
use crate::text;
use vstd::prelude::*;

verus! {

#[derive(Debug, Clone)]
pub enum RecoveryOutcome {
    /// The desired state was already on disk — manifest finalized.
    Finalized,
    /// The pre-write state is still on disk — entry stays journaled; the next
    /// reconcile completes the write.
    Retry,
    /// The file matches neither hash — collision; never touched.
    Refused { reason: String },
}

pub enum RecoveryView {
    Finalized,
    Retry,
    Refused { reason: Seq<char> },
}

impl View for RecoveryOutcome {
    type V = RecoveryView;

    open spec fn view(&self) -> RecoveryView {
        match self {
            RecoveryOutcome::Finalized => RecoveryView::Finalized,
            RecoveryOutcome::Retry => RecoveryView::Retry,
            RecoveryOutcome::Refused { reason } => RecoveryView::Refused { reason: reason@ },
        }
    }
}

#[derive(Debug, Clone)]
pub struct RecoveryAction {
    pub path: String,
    pub outcome: RecoveryOutcome,
}

pub open spec fn action_views(v: Seq<RecoveryAction>) -> Seq<(Seq<char>, RecoveryView)> {
    v.map_values(|a: RecoveryAction| (a.path@, a.outcome@))
}

/// What was found of the file of one row: its hash, `None` where there is no
/// file; whether it is there and cannot be read; and the wall clock.
#[derive(Debug)]
pub struct Seen {
    pub sha256: Option<String>,
    pub unreadable: bool,
    pub unix_ms: Option<u64>,
}

pub struct SeenView {
    pub sha256: Option<Seq<char>>,
    pub unreadable: bool,
    pub unix_ms: Option<u64>,
}

impl View for Seen {
    type V = SeenView;

    open spec fn view(&self) -> SeenView {
        SeenView {
            sha256: text::opt_text(self.sha256),
            unreadable: self.unreadable,
            unix_ms: self.unix_ms,
        }
    }
}

pub open spec fn seen_views(v: Seq<Seen>) -> Seq<SeenView> {
    v.map_values(|s: Seen| s@)
}

pub open spec fn interrupted_reason(p: Seq<char>) -> Seq<char> {
    p + " changed outside Hearth during an interrupted update — "@
        + artifact::REFUSED_REMEDIATION@
}

/// What a row is resolved to; `None` drops it.
pub open spec fn resolved_row(e: EntryView, s: SeenView) -> Option<EntryView> {
    if e.state != EntryState::Pending {
        Some(e)
    } else if s.unreadable {
        Some(refused_row(e))
    } else if e.desired_sha256 is Some && e.desired_sha256 == s.sha256 {
        Some(applied_row(e, e.desired_sha256->0, s.unix_ms))
    } else if e.desired_sha256 is None && s.sha256 is None {
        None
    } else if s.sha256 == e.expected_old_sha256 {
        Some(e)
    } else {
        Some(refused_row(e))
    }
}

/// What is reported of a row; nothing for one that is not pending.
pub open spec fn resolution(e: EntryView, s: SeenView) -> Option<RecoveryView> {
    if e.state != EntryState::Pending {
        None
    } else if s.unreadable {
        Some(RecoveryView::Refused { reason: interrupted_reason(e.path) })
    } else if e.desired_sha256 is Some && e.desired_sha256 == s.sha256 {
        Some(RecoveryView::Finalized)
    } else if e.desired_sha256 is None && s.sha256 is None {
        Some(RecoveryView::Finalized)
    } else if s.sha256 == e.expected_old_sha256 {
        Some(RecoveryView::Retry)
    } else {
        Some(RecoveryView::Refused { reason: interrupted_reason(e.path) })
    }
}

/// The rows after recovery, in their order.
pub open spec fn resolved_rows(files: Seq<EntryView>, seen: Seq<SeenView>) -> Seq<EntryView>
    decreases files.len(),
{
    if files.len() == 0 || seen.len() != files.len() {
        files
    } else {
        let before = resolved_rows(files.drop_last(), seen.drop_last());
        match resolved_row(files.last(), seen.last()) {
            Some(e) => before.push(e),
            None => before,
        }
    }
}

/// What is reported of the rows, in their order.
pub open spec fn resolutions(files: Seq<EntryView>, seen: Seq<SeenView>) -> Seq<
    (Seq<char>, RecoveryView),
>
    decreases files.len(),
{
    if files.len() == 0 || seen.len() != files.len() {
        Seq::empty()
    } else {
        let before = resolutions(files.drop_last(), seen.drop_last());
        match resolution(files.last(), seen.last()) {
            Some(o) => before.push((files.last().path, o)),
            None => before,
        }
    }
}

/// Whether recovery changed the manifest: something was finalized or refused.
pub open spec fn settles(actions: Seq<(Seq<char>, RecoveryView)>) -> bool {
    exists|i: int| 0 <= i < actions.len() && !((#[trigger] actions[i]).1 is Retry)
}

fn refuse(e: &ManifestEntry) -> (r: (Option<ManifestEntry>, Option<RecoveryOutcome>))
    ensures
        r.0 is Some,
        r.0->0@ == refused_row(e@),
        r.1 is Some,
        r.1->0@ == (RecoveryView::Refused { reason: interrupted_reason(e@.path) }),
{
    let mut x: ManifestEntry = e.dup();
    x.state = EntryState::Applied;
    x.expected_old_sha256 = None;
    x.desired_sha256 = None;
    x.last_outcome = LastOutcome::Refused;
    let reason: String = text::cat3(
        e.path.as_str(),
        " changed outside Hearth during an interrupted update — ",
        artifact::REFUSED_REMEDIATION,
    );
    (Some(x), Some(RecoveryOutcome::Refused { reason }))
}

fn resolve(e: &ManifestEntry, s: &Seen) -> (r: (Option<ManifestEntry>, Option<RecoveryOutcome>))
    ensures
        match r.0 {
            Some(x) => resolved_row(e@, s@) == Some(x@),
            None => resolved_row(e@, s@) is None,
        },
        match r.1 {
            Some(x) => resolution(e@, s@) == Some(x@),
            None => resolution(e@, s@) is None,
        },
{
    if e.state != EntryState::Pending {
        return (Some(e.dup()), None);
    }
    if s.unreadable {
        return refuse(e);
    }
    if let Some(desired) = &e.desired_sha256 {
        if let Some(found) = &s.sha256 {
            if *desired == *found {
                let mut x: ManifestEntry = e.dup();
                x.sha256 = desired.clone();
                x.state = EntryState::Applied;
                x.expected_old_sha256 = None;
                x.desired_sha256 = None;
                x.last_outcome = LastOutcome::Written;
                x.applied_at_unix_ms = s.unix_ms;
                return (Some(x), Some(RecoveryOutcome::Finalized));
            }
        }
    }
    if e.desired_sha256.is_none() && s.sha256.is_none() {
        return (None, Some(RecoveryOutcome::Finalized));
    }
    if text::same_opt(&s.sha256, &e.expected_old_sha256) {
        return (Some(e.dup()), Some(RecoveryOutcome::Retry));
    }
    refuse(e)
}

/// What recovery reports, and whether it changed the manifest.
#[derive(Debug)]
pub struct Recovery {
    pub actions: Vec<RecoveryAction>,
    pub changed: bool,
}

/// Resolve every pending journal entry deterministically, given what was found
/// of each row's file.
pub fn recover_pending_manifest(manifest: &mut Manifest, seen: &Vec<Seen>) -> (r: Recovery)
    requires
        seen@.len() == old(manifest).files@.len(),
    ensures
        final(manifest)@ == (ManifestView {
            version: old(manifest)@.version,
            files: resolved_rows(old(manifest)@.files, seen_views(seen@)),
        }),
        action_views(r.actions@) == resolutions(old(manifest)@.files, seen_views(seen@)),
        r.changed == settles(action_views(r.actions@)),
{
    let ghost files = manifest@.files;
    let ghost sv = seen_views(seen@);
    let mut kept: Vec<ManifestEntry> = Vec::new();
    let mut actions: Vec<RecoveryAction> = Vec::new();
    let mut changed: bool = false;
    let mut i: usize = 0;
    proof {
        assert(files.take(0) =~= Seq::empty());
        assert(manifest::rows(kept@) =~= Seq::empty());
        assert(action_views(actions@) =~= Seq::empty());
    }
    while i < manifest.files.len()
        invariant
            i <= manifest.files@.len(),
            manifest@ == old(manifest)@,
            files == manifest@.files,
            sv == seen_views(seen@),
            seen@.len() == manifest.files@.len(),
            manifest::rows(kept@) == resolved_rows(files.take(i as int), sv.take(i as int)),
            action_views(actions@) == resolutions(files.take(i as int), sv.take(i as int)),
            changed == settles(action_views(actions@)),
        decreases manifest.files@.len() - i,
    {
        let (row, outcome) = resolve(&manifest.files[i], &seen[i]);
        proof {
            let f = files.take(i + 1);
            let t = sv.take(i + 1);
            assert(f.drop_last() =~= files.take(i as int));
            assert(t.drop_last() =~= sv.take(i as int));
            assert(f.last() == manifest.files@[i as int]@);
            assert(t.last() == seen@[i as int]@);
        }
        let ghost kept0 = kept@;
        let ghost actions0 = actions@;
        match row {
            Some(e) => {
                kept.push(e);
                proof {
                    assert(manifest::rows(kept@) =~= manifest::rows(kept0).push(e@));
                }
            },
            None => {},
        }
        match outcome {
            Some(o) => {
                let settled: bool = match &o {
                    RecoveryOutcome::Retry => false,
                    _ => true,
                };
                let action = RecoveryAction { path: manifest.files[i].path.clone(), outcome: o };
                actions.push(action);
                proof {
                    let a0 = action_views(actions0);
                    let a1 = action_views(actions@);
                    assert(a1 =~= a0.push((action.path@, o@)));
                    if settles(a0) {
                        let k = choose|k: int| 0 <= k < a0.len() && !((#[trigger] a0[k]).1 is Retry);
                        assert(a1[k] == a0[k]);
                    }
                    if settled {
                        assert(!(a1[a1.len() - 1].1 is Retry));
                    }
                    if settles(a1) && !settled {
                        let k = choose|k: int| 0 <= k < a1.len() && !((#[trigger] a1[k]).1 is Retry);
                        assert(k < a0.len());
                        assert(a0[k] == a1[k]);
                    }
                }
                changed = changed || settled;
            },
            None => {},
        }
        i = i + 1;
    }
    proof {
        assert(files.take(i as int) =~= files);
        assert(sv.take(i as int) =~= sv);
    }
    manifest.files = kept;
    Recovery { actions, changed }
}

// ---- laws ----
/// What was found of the rows that stay.
pub open spec fn still_seen(files: Seq<EntryView>, seen: Seq<SeenView>) -> Seq<SeenView>
    decreases files.len(),
{
    if files.len() == 0 || seen.len() != files.len() {
        Seq::empty()
    } else {
        let before = still_seen(files.drop_last(), seen.drop_last());
        match resolved_row(files.last(), seen.last()) {
            Some(_) => before.push(seen.last()),
            None => before,
        }
    }
}

/// Recovery is idempotent: a second one on the same files leaves the manifest
/// as it is and reports nothing but rows to retry.
pub proof fn recovery_is_idempotent(files: Seq<EntryView>, seen: Seq<SeenView>)
    requires
        seen.len() == files.len(),
    ensures
        ({
            let again = resolved_rows(files, seen);
            let s = still_seen(files, seen);
            &&& s.len() == again.len()
            &&& resolved_rows(again, s) == again
            &&& !settles(resolutions(again, s))
        }),
    decreases files.len(),
{
    let again = resolved_rows(files, seen);
    let s = still_seen(files, seen);
    if files.len() == 0 {
        assert(again =~= Seq::empty());
    } else {
        let f0 = files.drop_last();
        let s0 = seen.drop_last();
        recovery_is_idempotent(f0, s0);
        let before = resolved_rows(f0, s0);
        let sb = still_seen(f0, s0);
        match resolved_row(files.last(), seen.last()) {
            None => {},
            Some(e) => {
                assert(again.drop_last() =~= before);
                assert(s.drop_last() =~= sb);
                assert(resolved_row(e, seen.last()) == Some(e));
                assert(resolved_rows(again, s) =~= again);
                let a0 = resolutions(before, sb);
                let a1 = resolutions(again, s);
                assert(resolution(e, seen.last()) is None || resolution(e, seen.last()) == Some(
                    RecoveryView::Retry,
                ));
                if settles(a1) {
                    let k = choose|k: int| 0 <= k < a1.len() && !((#[trigger] a1[k]).1 is Retry);
                    assert(k < a0.len());
                    assert(a0[k] == a1[k]);
                }
            },
        }
    }
}

/// A journaled write that was interrupted is finalized if the new content is
/// there, stays journaled if the old state is there, and is refused and
/// settled, its file untouched, in any other case.
pub proof fn interrupted_write_is_resolved(
    a: artifact::ArtifactView,
    desired: Seq<char>,
    actual: Option<Seq<char>>,
    s: SeenView,
)
    ensures
        ({
            let e = artifact::pending_row(a, desired, actual);
            &&& !s.unreadable && s.sha256 == Some(desired) ==> resolved_row(e, s) == Some(
                applied_row(e, desired, s.unix_ms),
            ) && resolution(e, s) == Some(RecoveryView::Finalized)
            &&& !s.unreadable && s.sha256 == actual && s.sha256 != Some(desired) ==> resolved_row(e, s) == Some(e)
                && resolution(e, s) == Some(RecoveryView::Retry)
            &&& s.unreadable || (s.sha256 != actual && s.sha256 != Some(desired)) ==> resolved_row(e, s) == Some(
                refused_row(e),
            ) && resolution(e, s) is Some && resolution(e, s)->0 is Refused
        }),
{
}

/// A journaled deletion that was interrupted drops its row if the file is
/// gone, stays journaled if the file is untouched, and is refused and settled
/// in any other case.
pub proof fn interrupted_delete_is_resolved(e: EntryView, actual: Seq<char>, s: SeenView)
    ensures
        ({
            let d = artifact::deleting_row(e, actual);
            &&& !s.unreadable && s.sha256 is None ==> resolved_row(d, s) is None && resolution(d, s) == Some(
                RecoveryView::Finalized,
            )
            &&& !s.unreadable && s.sha256 == Some(actual) ==> resolved_row(d, s) == Some(d) && resolution(d, s)
                == Some(RecoveryView::Retry)
            &&& s.unreadable || (s.sha256 is Some && s.sha256 != Some(actual)) ==> resolved_row(d, s) == Some(
                refused_row(d),
            ) && resolution(d, s) is Some && resolution(d, s)->0 is Refused
        }),
{
}

} // verus!
