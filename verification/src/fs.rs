//! What is known of the file system at one moment. Decisions about paths are
//! functions of such a snapshot; taking it is left to the caller.

use crate::path;
use vstd::prelude::*;

verus! {

/// What the file system says of one file.
#[derive(Debug, Clone, Copy, PartialEq, Eq, Structural)]
pub struct FileMeta {
    pub is_symlink: bool,
    pub is_dir: bool,
    pub is_file: bool,
    pub uid: u32,
    pub mode: u32,
    pub dev: u64,
    pub ino: u64,
    pub nlink: u64,
    pub len: u64,
}

/// Why the file system could not be asked.
#[derive(Debug, Clone)]
pub struct IoFault {
    pub not_found: bool,
    pub text: String,
}

/// What is known of one path.
#[derive(Debug)]
pub struct PathFacts {
    /// Something is there, symbolic links followed.
    pub exists: bool,
    /// The file itself, symbolic links not followed.
    pub link: Result<FileMeta, IoFault>,
    /// The path without symbolic links.
    pub canonical: Result<String, String>,
    /// The file, symbolic links followed.
    pub target: Result<FileMeta, String>,
    /// The SHA-256 of the content, in hexadecimal.
    pub hash: Result<String, String>,
}

/// What the facts on a path hold.
pub struct FactsView {
    pub exists: bool,
    pub link: Result<FileMeta, (bool, Seq<char>)>,
    pub canonical: Result<Seq<char>, Seq<char>>,
    pub target: Result<FileMeta, Seq<char>>,
    pub hash: Result<Seq<char>, Seq<char>>,
}

pub open spec fn text_result(r: Result<String, String>) -> Result<Seq<char>, Seq<char>> {
    match r {
        Ok(s) => Ok(s@),
        Err(e) => Err(e@),
    }
}

impl View for PathFacts {
    type V = FactsView;

    open spec fn view(&self) -> FactsView {
        FactsView {
            exists: self.exists,
            link: match self.link {
                Ok(m) => Ok(m),
                Err(e) => Err((e.not_found, e.text@)),
            },
            canonical: text_result(self.canonical),
            target: match self.target {
                Ok(m) => Ok(m),
                Err(e) => Err(e@),
            },
            hash: text_result(self.hash),
        }
    }
}

pub const MISSING: &'static str = "No such file or directory (os error 2)";

/// The facts on a path at which there is nothing.
pub open spec fn nothing() -> FactsView {
    FactsView {
        exists: false,
        link: Err((true, MISSING@)),
        canonical: Err(MISSING@),
        target: Err(MISSING@),
        hash: Err(MISSING@),
    }
}

fn nothing_there() -> (r: PathFacts)
    ensures
        r@ == nothing(),
{
    PathFacts {
        exists: false,
        link: Err(IoFault { not_found: true, text: MISSING.to_owned() }),
        canonical: Err(MISSING.to_owned()),
        target: Err(MISSING.to_owned()),
        hash: Err(MISSING.to_owned()),
    }
}

/// A snapshot: the paths that were looked at, with what was found. A path
/// that was not looked at counts as one at which there is nothing.
#[derive(Debug)]
pub struct Snapshot {
    paths: Vec<String>,
    facts: Vec<PathFacts>,
    absent: PathFacts,
    euid: u32,
}

/// What a snapshot holds.
pub struct Disk {
    pub seen: Seq<(Seq<char>, FactsView)>,
    pub euid: u32,
}

/// The facts on `p`: the latest that were recorded of it, under any spelling.
pub open spec fn facts(d: Disk, p: Seq<char>) -> FactsView {
    latest(d.seen, p)
}

pub open spec fn latest(seen: Seq<(Seq<char>, FactsView)>, p: Seq<char>) -> FactsView
    decreases seen.len(),
{
    if seen.len() == 0 {
        nothing()
    } else if path::key(seen.last().0) == path::key(p) {
        seen.last().1
    } else {
        latest(seen.drop_last(), p)
    }
}

/// Two spellings of one path have the same facts.
pub proof fn facts_by_key(seen: Seq<(Seq<char>, FactsView)>, a: Seq<char>, b: Seq<char>)
    requires
        path::key(a) == path::key(b),
    ensures
        latest(seen, a) == latest(seen, b),
    decreases seen.len(),
{
    if seen.len() > 0 {
        facts_by_key(seen.drop_last(), a, b);
    }
}

/// What is recorded of a path. A canonical path is absolute; what is not, is no
/// canonical path.
pub open spec fn recorded(f: FactsView) -> FactsView {
    match f.canonical {
        Ok(c) if !path::rooted(c) => FactsView { canonical: Err(RELATIVE@), ..f },
        _ => f,
    }
}

pub const RELATIVE: &'static str = "canonical path is not absolute";

/// The canonical paths of a snapshot are absolute.
pub open spec fn sane(d: Disk) -> bool {
    forall|p: Seq<char>| #[trigger]
        facts(d, p).canonical is Ok ==> path::rooted(facts(d, p).canonical->Ok_0)
}

impl View for Snapshot {
    type V = Disk;

    closed spec fn view(&self) -> Disk {
        Disk {
            seen: Seq::new(self.paths@.len(), |i: int| (self.paths@[i]@, self.facts@[i]@)),
            euid: self.euid,
        }
    }
}

impl Snapshot {
    pub closed spec fn wf(&self) -> bool {
        &&& self.paths@.len() == self.facts@.len()
        &&& self.absent@ == nothing()
        &&& forall|i: int|
            0 <= i < self.facts@.len() ==> recorded((#[trigger] self.facts@[i])@)
                == self.facts@[i]@
    }

    /// The canonical paths of a snapshot are absolute.
    pub proof fn is_sane(&self)
        requires
            self.wf(),
        ensures
            sane(self@),
    {
        let seen = self@.seen;
        assert forall|i: int| 0 <= i < seen.len() implies recorded((#[trigger] seen[i]).1)
            == seen[i].1 by {
            assert(seen[i].1 == self.facts@[i]@);
        }
        assert forall|p: Seq<char>| #[trigger]
            facts(self@, p).canonical is Ok implies path::rooted(
            facts(self@, p).canonical->Ok_0,
        ) by {
            latest_is_recorded(seen, p);
        }
    }

    /// A snapshot for a user, in which nothing was looked at yet.
    pub fn new(euid: u32) -> (r: Self)
        ensures
            r.wf(),
            r@ == (Disk { seen: Seq::empty(), euid }),
    {
        let r = Snapshot { paths: Vec::new(), facts: Vec::new(), absent: nothing_there(), euid };
        proof {
            assert(r@.seen =~= Seq::empty());
        }
        r
    }

    /// Records what was found at a path.
    pub fn record(&mut self, p: String, found: PathFacts)
        requires
            old(self).wf(),
        ensures
            final(self).wf(),
            final(self)@ == (Disk {
                seen: old(self)@.seen.push((p@, recorded(found@))),
                euid: old(self)@.euid,
            }),
    {
        let canonical: Result<String, String> = match found.canonical {
            Ok(c) => {
                if path::is_absolute(c.as_str()) {
                    Ok(c)
                } else {
                    Err(RELATIVE.to_owned())
                }
            },
            Err(e) => Err(e),
        };
        let kept = PathFacts { canonical, ..found };
        proof {
            assert(kept@ == recorded(found@));
        }
        self.paths.push(p);
        self.facts.push(kept);
        proof {
            assert(self@.seen =~= old(self)@.seen.push((p@, kept@)));
        }
    }

    /// The user on whose behalf the snapshot was taken.
    pub fn user(&self) -> (r: u32)
        ensures
            r == self@.euid,
    {
        self.euid
    }

    /// What is known of `p`.
    pub fn at(&self, p: &str) -> (r: &PathFacts)
        requires
            self.wf(),
        ensures
            r@ == facts(self@, p@),
    {
        let mut n: usize = self.paths.len();
        let ghost seen = self@.seen;
        proof {
            assert(seen.take(n as int) =~= seen);
        }
        while n > 0
            invariant
                self.wf(),
                n <= self.paths@.len(),
                seen == self@.seen,
                latest(seen, p@) == latest(seen.take(n as int), p@),
            decreases n,
        {
            proof {
                assert(seen.take(n as int).drop_last() =~= seen.take(n - 1));
                assert(seen.take(n as int).last() == (
                    self.paths@[n - 1]@,
                    self.facts@[n - 1]@,
                ));
            }
            if path::same_path(self.paths[n - 1].as_str(), p) {
                return &self.facts[n - 1];
            }
            n = n - 1;
        }
        proof {
            assert(seen.take(0) =~= Seq::empty());
        }
        &self.absent
    }
}

proof fn latest_is_recorded(seen: Seq<(Seq<char>, FactsView)>, p: Seq<char>)
    requires
        forall|i: int|
            0 <= i < seen.len() ==> recorded((#[trigger] seen[i]).1) == seen[i].1,
    ensures
        recorded(latest(seen, p)) == latest(seen, p),
    decreases seen.len(),
{
    if seen.len() > 0 {
        assert(seen[seen.len() - 1] == seen.last());
        assert forall|i: int| 0 <= i < seen.drop_last().len() implies recorded(
            (#[trigger] seen.drop_last()[i]).1,
        ) == seen.drop_last()[i].1 by {
            assert(seen[i] == seen.drop_last()[i]);
        }
        latest_is_recorded(seen.drop_last(), p);
    }
}

} // verus!
