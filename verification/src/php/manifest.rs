//! The ownership manifest: one row per file that Hearth has written, with the
//! hash of the content it last applied there. Pending rows additionally
//! journal the transition that is under way.

use crate::path;
use crate::text;
use vstd::prelude::*;

verus! {

pub const MANIFEST_VERSION: u64 = 1;

#[derive(Debug, Clone, Copy, PartialEq, Eq, Structural)]
pub enum EntryState {
    Applied,
    Pending,
}

#[derive(Debug, Clone, Copy, PartialEq, Eq, Structural)]
pub enum LastOutcome {
    Written,
    Unchanged,
    Deleted,
    Refused,
    Failed,
}

/// One manifest row. `sha256` is the hash of the last applied content;
/// `pending` rows additionally journal the transition hashes.
#[derive(Debug, Clone, PartialEq, Eq)]
pub struct ManifestEntry {
    pub path: String,
    pub php_version: String,
    /// `herd-user` | `homebrew` | `hearth`
    pub channel: String,
    pub sha256: String,
    pub state: EntryState,
    /// Present on pending rows: hash the file must currently have
    /// (absent = the file must not exist yet).
    pub expected_old_sha256: Option<String>,
    /// Present on pending rows: hash of the content being applied
    /// (absent = deletion intended).
    pub desired_sha256: Option<String>,
    pub last_outcome: LastOutcome,
    /// Unix milliseconds when this entry last reached `Applied` via a real
    /// write.
    pub applied_at_unix_ms: Option<u64>,
}

/// What a row holds.
pub struct EntryView {
    pub path: Seq<char>,
    pub php_version: Seq<char>,
    pub channel: Seq<char>,
    pub sha256: Seq<char>,
    pub state: EntryState,
    pub expected_old_sha256: Option<Seq<char>>,
    pub desired_sha256: Option<Seq<char>>,
    pub last_outcome: LastOutcome,
    pub applied_at_unix_ms: Option<u64>,
}

impl View for ManifestEntry {
    type V = EntryView;

    open spec fn view(&self) -> EntryView {
        EntryView {
            path: self.path@,
            php_version: self.php_version@,
            channel: self.channel@,
            sha256: self.sha256@,
            state: self.state,
            expected_old_sha256: text::opt_text(self.expected_old_sha256),
            desired_sha256: text::opt_text(self.desired_sha256),
            last_outcome: self.last_outcome,
            applied_at_unix_ms: self.applied_at_unix_ms,
        }
    }
}

/// Authoritative ownership record for every file Hearth has written.
#[derive(Debug, Clone)]
pub struct Manifest {
    pub version: u64,
    pub files: Vec<ManifestEntry>,
}

pub open spec fn rows(files: Seq<ManifestEntry>) -> Seq<EntryView> {
    files.map_values(|e: ManifestEntry| e@)
}

/// What a manifest holds.
#[verifier::ext_equal]
pub struct ManifestView {
    pub version: u64,
    pub files: Seq<EntryView>,
}

impl View for Manifest {
    type V = ManifestView;

    open spec fn view(&self) -> ManifestView {
        ManifestView { version: self.version, files: rows(self.files@) }
    }
}

/// Whether row `i` is the first one for the file at `p`.
pub open spec fn is_slot(files: Seq<EntryView>, p: Seq<char>, i: int) -> bool {
    &&& 0 <= i < files.len()
    &&& path::key(files[i].path) == path::key(p)
    &&& forall|j: int| 0 <= j < i ==> path::key((#[trigger] files[j]).path) != path::key(p)
}

/// The first row for the file at `p`, whatever the spelling of `p`.
pub open spec fn slot(files: Seq<EntryView>, p: Seq<char>) -> Option<int> {
    if exists|i: int| is_slot(files, p, i) {
        Some(choose|i: int| is_slot(files, p, i))
    } else {
        None
    }
}

pub proof fn slot_is(files: Seq<EntryView>, p: Seq<char>, i: int)
    requires
        is_slot(files, p, i),
    ensures
        slot(files, p) == Some(i),
{
    let k = choose|k: int| is_slot(files, p, k);
    if k < i {
        assert(path::key(files[k].path) != path::key(p));
    }
    if i < k {
        assert(path::key(files[i].path) != path::key(p));
    }
}

pub proof fn slot_none(files: Seq<EntryView>, p: Seq<char>)
    requires
        forall|j: int|
            0 <= j < files.len() ==> path::key((#[trigger] files[j]).path) != path::key(p),
    ensures
        slot(files, p) is None,
{
    if exists|i: int| is_slot(files, p, i) {
        let i = choose|i: int| is_slot(files, p, i);
        assert(path::key(files[i].path) != path::key(p));
    }
}

/// A row owns a file whose hash is the applied one or one of the journaled
/// transition hashes.
pub open spec fn owns(e: EntryView, actual: Seq<char>) -> bool {
    ||| e.sha256 == actual
    ||| e.expected_old_sha256 == Some(actual)
    ||| e.desired_sha256 == Some(actual)
}

/// Whether the manifest owns the bytes that are at `p`, by their hash.
pub open spec fn tracks(m: ManifestView, p: Seq<char>, actual: Seq<char>) -> bool {
    match slot(m.files, p) {
        Some(i) => owns(m.files[i], actual),
        None => false,
    }
}

/// `m` with row `i` replaced.
pub open spec fn with_row(m: ManifestView, i: int, e: EntryView) -> ManifestView {
    ManifestView { version: m.version, files: m.files.update(i, e) }
}

impl ManifestEntry {
    /// An owned copy.
    pub fn dup(&self) -> (r: Self)
        ensures
            r@ == self@,
    {
        ManifestEntry {
            path: self.path.clone(),
            php_version: self.php_version.clone(),
            channel: self.channel.clone(),
            sha256: self.sha256.clone(),
            state: self.state,
            expected_old_sha256: text::dup_opt(&self.expected_old_sha256),
            desired_sha256: text::dup_opt(&self.desired_sha256),
            last_outcome: self.last_outcome,
            applied_at_unix_ms: self.applied_at_unix_ms,
        }
    }
}

/// An owned copy of a list of rows.
pub(crate) fn dup_rows(v: &Vec<ManifestEntry>) -> (r: Vec<ManifestEntry>)
    ensures
        rows(r@) == rows(v@),
{
    let mut out: Vec<ManifestEntry> = Vec::new();
    let mut i: usize = 0;
    while i < v.len()
        invariant
            i <= v@.len(),
            out@.len() == i,
            forall|j: int| 0 <= j < i ==> (#[trigger] out@[j])@ == v@[j]@,
        decreases v@.len() - i,
    {
        out.push(v[i].dup());
        i = i + 1;
    }
    assert(rows(out@) =~= rows(v@));
    out
}

/// Is the file owned by this manifest entry — i.e. does the on-disk
/// hash exactly match the applied hash or a journaled transition hash?
pub fn entry_owns(entry: &ManifestEntry, actual: &str) -> (r: bool)
    ensures
        r == owns(entry@, actual@),
{
    if text::same(entry.sha256.as_str(), actual) {
        return true;
    }
    if let Some(old) = &entry.expected_old_sha256 {
        if text::same(old.as_str(), actual) {
            return true;
        }
    }
    if let Some(desired) = &entry.desired_sha256 {
        if text::same(desired.as_str(), actual) {
            return true;
        }
    }
    false
}

impl Manifest {
    /// A manifest of the current version without rows.
    pub fn empty() -> (r: Self)
        ensures
            r@ == (ManifestView { version: MANIFEST_VERSION, files: Seq::empty() }),
    {
        let r = Manifest { version: MANIFEST_VERSION, files: Vec::new() };
        proof {
            assert(rows(r.files@) =~= Seq::empty());
        }
        r
    }

    /// The position of the first row for the file at `p`.
    pub fn entry_index(&self, p: &str) -> (r: Option<usize>)
        ensures
            match r {
                Some(i) => i < self.files@.len() && slot(self@.files, p@) == Some(i as int),
                None => slot(self@.files, p@) is None,
            },
    {
        let mut i: usize = 0;
        while i < self.files.len()
            invariant
                i <= self.files@.len(),
                forall|j: int|
                    0 <= j < i ==> path::key((#[trigger] self@.files[j]).path) != path::key(p@),
            decreases self.files@.len() - i,
        {
            if path::same_path(self.files[i].path.as_str(), p) {
                proof {
                    assert(self@.files[i as int].path == self.files@[i as int].path@);
                    slot_is(self@.files, p@, i as int);
                }
                return Some(i);
            }
            proof {
                assert(self@.files[i as int].path == self.files@[i as int].path@);
            }
            i = i + 1;
        }
        proof {
            slot_none(self@.files, p@);
        }
        None
    }

    /// Replaces row `i`.
    pub(crate) fn set_row(&mut self, i: usize, e: ManifestEntry)
        requires
            i < old(self).files@.len(),
        ensures
            final(self)@ == with_row(old(self)@, i as int, e@),
            final(self).files@ == old(self).files@.update(i as int, e),
    {
        self.files[i] = e;
        proof {
            assert(rows(self.files@) =~= rows(old(self).files@).update(i as int, e@));
        }
    }

    /// Appends a row.
    pub(crate) fn push_row(&mut self, e: ManifestEntry)
        ensures
            final(self)@ == (ManifestView {
                version: old(self)@.version,
                files: old(self)@.files.push(e@),
            }),
    {
        self.files.push(e);
        proof {
            assert(rows(self.files@) =~= rows(old(self).files@).push(e@));
        }
    }

    /// Takes row `i` out.
    pub(crate) fn take_row(&mut self, i: usize) -> (r: ManifestEntry)
        requires
            i < old(self).files@.len(),
        ensures
            r@ == old(self)@.files[i as int],
            final(self)@ == (ManifestView {
                version: old(self)@.version,
                files: old(self)@.files.remove(i as int),
            }),
    {
        let e: ManifestEntry = self.files.remove(i);
        proof {
            assert(rows(self.files@) =~= rows(old(self).files@).remove(i as int));
        }
        e
    }

    /// Puts a row back at `i`.
    pub(crate) fn put_row(&mut self, i: usize, e: ManifestEntry)
        requires
            i <= old(self).files@.len(),
        ensures
            final(self)@ == (ManifestView {
                version: old(self)@.version,
                files: old(self)@.files.insert(i as int, e@),
            }),
    {
        self.files.insert(i, e);
        proof {
            assert(rows(self.files@) =~= rows(old(self).files@).insert(i as int, e@));
        }
    }
}

/// Typed per-file outcome. One file's failure never aborts the others.
#[derive(Debug, Clone, PartialEq, Eq)]
pub enum WriteOutcome {
    Written,
    Unchanged,
    Deleted,
    Refused { reason: String },
    Failed { error: String },
}

/// What an outcome holds.
pub enum OutcomeView {
    Written,
    Unchanged,
    Deleted,
    Refused { reason: Seq<char> },
    Failed { error: Seq<char> },
}

impl View for WriteOutcome {
    type V = OutcomeView;

    open spec fn view(&self) -> OutcomeView {
        match self {
            WriteOutcome::Written => OutcomeView::Written,
            WriteOutcome::Unchanged => OutcomeView::Unchanged,
            WriteOutcome::Deleted => OutcomeView::Deleted,
            WriteOutcome::Refused { reason } => OutcomeView::Refused { reason: reason@ },
            WriteOutcome::Failed { error } => OutcomeView::Failed { error: error@ },
        }
    }
}

impl WriteOutcome {
    /// An owned copy.
    pub fn dup(&self) -> (r: Self)
        ensures
            r@ == self@,
    {
        match self {
            WriteOutcome::Written => WriteOutcome::Written,
            WriteOutcome::Unchanged => WriteOutcome::Unchanged,
            WriteOutcome::Deleted => WriteOutcome::Deleted,
            WriteOutcome::Refused { reason } => WriteOutcome::Refused { reason: reason.clone() },
            WriteOutcome::Failed { error } => WriteOutcome::Failed { error: error.clone() },
        }
    }
}

} // verus!
