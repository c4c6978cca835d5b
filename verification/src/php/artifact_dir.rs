//! The directory of an artifact: its identity when it was verified, and the
//! check that it is still the same one after the write.

use crate::php::artifact::DirIdentity;
use crate::php::channel_dir::{self, ChannelRejection, VerifiedDir};
use vstd::prelude::*;

verus! {

/// What kind of directory the artifact stands in.
#[derive(Debug, Clone, Copy, PartialEq, Eq, Structural)]
pub enum ArtifactDir {
    /// A scan directory of a provider.
    UserChannel,
    /// Hearth's own FPM directory.
    HearthFpm,
}

/// The identity of a verified directory, or what its rejection says.
pub open spec fn identity_of(v: Result<VerifiedDir, ChannelRejection>) -> Result<
    DirIdentity,
    Seq<char>,
> {
    match channel_dir::verdict(v) {
        Ok(d) => Ok(DirIdentity { dev: d.dev, ino: d.ino }),
        Err(reason) => Err(reason),
    }
}

/// The identity that a write relies on.
pub fn verify(verified: Result<VerifiedDir, ChannelRejection>) -> (r: Result<DirIdentity, String>)
    ensures
        match r {
            Ok(id) => identity_of(verified) == Ok::<DirIdentity, Seq<char>>(id),
            Err(e) => identity_of(verified) == Err::<DirIdentity, Seq<char>>(e@),
        },
{
    match verified {
        Ok(d) => Ok(DirIdentity { dev: d.dev, ino: d.ino }),
        Err(e) => Err(e.message()),
    }
}

/// What is said of a directory that was replaced.
pub open spec fn replaced(kind: ArtifactDir) -> Seq<char> {
    match kind {
        ArtifactDir::UserChannel => "channel directory was replaced during the write"@,
        ArtifactDir::HearthFpm => "FPM directory was replaced during the write"@,
    }
}

/// Whether the directory still is the one that was verified, given what is
/// found at its path now.
pub fn recheck(
    kind: ArtifactDir,
    identity: &DirIdentity,
    found: Result<DirIdentity, String>,
) -> (r: Result<(), String>)
    ensures
        match (found, r) {
            (Err(e), Err(said)) => said@ == e@,
            (Ok(id), Ok(_)) => id == *identity,
            (Ok(id), Err(said)) => id != *identity && said@ == replaced(kind),
            (Err(_), Ok(_)) => false,
        },
{
    match found {
        Err(e) => Err(e),
        Ok(id) => if id.dev == identity.dev && id.ino == identity.ino {
            Ok(())
        } else {
            match kind {
                ArtifactDir::UserChannel => Err(
                    "channel directory was replaced during the write".to_owned(),
                ),
                ArtifactDir::HearthFpm => Err(
                    "FPM directory was replaced during the write".to_owned(),
                ),
            }
        },
    }
}

} // verus!
