//! Collision check before a set of files is written: each file that is there
//! has to be a regular file that the manifest owns by its hash.

use crate::fs::{self, Disk, PathFacts, Snapshot};
use crate::php::manifest::{self, Manifest, ManifestView};
use crate::text;
use vstd::prelude::*;

verus! {

/// What is wrong with writing the file at `p`.
pub open spec fn path_collision(m: ManifestView, p: Seq<char>, d: Disk) -> Option<Seq<char>> {
    let f = fs::facts(d, p);
    match f.link {
        Err((not_found, e)) => if not_found {
            None
        } else {
            Some("could not inspect "@ + p + ": "@ + e)
        },
        Ok(meta) => if meta.is_symlink || !meta.is_file {
            Some(
                p
                    + " exists but is not a regular Hearth-owned artifact — remove or rename it, then run `hearth php config --sync`"@,
            )
        } else {
            match (f.hash, manifest::slot(m.files, p)) {
                (Err(e), _) => Some("could not read "@ + p + ": "@ + e),
                (Ok(_), None) => Some(
                    p
                        + " exists but is not tracked by the Hearth FPM manifest — remove or rename the file, then run `hearth php config --sync`"@,
                ),
                (Ok(hash), Some(i)) => if !manifest::owns(m.files[i], hash) {
                    Some(
                        p
                            + " was modified outside Hearth — remove or rename the file, then run `hearth php config --sync`"@,
                    )
                } else {
                    None
                },
            }
        },
    }
}

/// The first collision among the paths.
pub open spec fn collision(m: ManifestView, paths: Seq<Seq<char>>, d: Disk) -> Option<Seq<char>>
    decreases paths.len(),
{
    if paths.len() == 0 {
        None
    } else {
        match path_collision(m, paths[0], d) {
            Some(reason) => Some(reason),
            None => collision(m, paths.drop_first(), d),
        }
    }
}

fn check_path(m: &Manifest, p: &str, disk: &Snapshot) -> (r: Option<String>)
    requires
        disk.wf(),
    ensures
        text::opt_text(r) == path_collision(m@, p@, disk@),
{
    let f: &PathFacts = disk.at(p);
    match &f.link {
        Err(e) => {
            if e.not_found {
                return None;
            }
            return Some(text::cat4("could not inspect ", p, ": ", e.text.as_str()));
        },
        Ok(meta) => {
            if meta.is_symlink || !meta.is_file {
                return Some(
                    text::cat2(
                        p,
                        " exists but is not a regular Hearth-owned artifact — remove or rename it, then run `hearth php config --sync`",
                    ),
                );
            }
        },
    }
    match (&f.hash, m.entry_index(p)) {
        (Err(e), _) => Some(text::cat4("could not read ", p, ": ", e.as_str())),
        (Ok(_), None) => Some(
            text::cat2(
                p,
                " exists but is not tracked by the Hearth FPM manifest — remove or rename the file, then run `hearth php config --sync`",
            ),
        ),
        (Ok(hash), Some(i)) => {
            if !manifest::entry_owns(&m.files[i], hash.as_str()) {
                Some(
                    text::cat2(
                        p,
                        " was modified outside Hearth — remove or rename the file, then run `hearth php config --sync`",
                    ),
                )
            } else {
                None
            }
        },
    }
}

/// The first file among `paths` that is there and that the manifest does not
/// own, as the reason not to write any of them.
pub fn set_collision_preflight(m: &Manifest, paths: &Vec<String>, disk: &Snapshot) -> (r: Option<
    String,
>)
    requires
        disk.wf(),
    ensures
        text::opt_text(r) == collision(m@, text::texts(paths@), disk@),
{
    let ghost all = text::texts(paths@);
    let mut i: usize = 0;
    proof {
        assert(all.skip(0) =~= all);
    }
    while i < paths.len()
        invariant
            disk.wf(),
            i <= paths@.len(),
            all == text::texts(paths@),
            collision(m@, all, disk@) == collision(m@, all.skip(i as int), disk@),
        decreases paths@.len() - i,
    {
        proof {
            assert(all.skip(i as int)[0] == paths@[i as int]@);
            assert(all.skip(i as int).drop_first() =~= all.skip(i + 1));
        }
        if let Some(reason) = check_path(m, paths[i].as_str(), disk) {
            return Some(reason);
        }
        i = i + 1;
    }
    None
}

/// Without a collision, every path is free or holds a regular file that the
/// manifest owns by its hash.
pub proof fn no_collision_means_owned(m: ManifestView, paths: Seq<Seq<char>>, d: Disk, i: int)
    requires
        collision(m, paths, d) is None,
        0 <= i < paths.len(),
    ensures
        ({
            let f = fs::facts(d, paths[i]);
            ||| (f.link is Err && f.link->Err_0.0)
            ||| (f.link is Ok && f.link->Ok_0.is_file && !f.link->Ok_0.is_symlink && f.hash is Ok
                && manifest::tracks(m, paths[i], f.hash->Ok_0))
        }),
    decreases paths.len(),
{
    if i > 0 {
        no_collision_means_owned(m, paths.drop_first(), d, i - 1);
    }
}

} // verus!
