//! PHP configuration: channel discovery, materialization and observation.

pub mod artifact;
pub mod artifact_dir;
pub mod assembly;
pub mod batch;
pub mod channel_dir;
pub mod conduct;
pub mod engine;
pub mod engine_guarantees;
pub mod fpm;
pub mod fpm_conduct;
pub mod fpm_guarantees;
pub mod guarantees;
pub mod ini_guard;
pub mod journal;
pub mod lock;
pub mod manifest;
pub mod migration;
pub mod mutation;
pub mod preflight;
pub mod reconcile;
pub mod recovery;
pub mod resolver;
pub mod roots;
pub mod row_guarantees;
pub mod rows;
pub mod store_guarantees;
pub mod target_guarantees;
pub mod targets;
pub mod txn;

use crate::path;
use crate::text;
use vstd::prelude::*;

verus! {

/// Where Hearth's own channel for a version is.
pub open spec fn hearth_channel(config_dir: Seq<char>, version: Seq<char>) -> Seq<char> {
    path::joined(path::joined(path::joined(config_dir, "php"@), version), "conf.d"@)
}

pub const SCAN_DIR_VAR: &'static str = "PHP_INI_SCAN_DIR";

/// The environment pair under which PHP scans Hearth's channel after its
/// compiled-in ones.
pub fn scan_dir_env(config_dir: &str, version: &str) -> (r: (String, String))
    ensures
        r.0@ == SCAN_DIR_VAR@,
        r.1@ == ":"@ + hearth_channel(config_dir@, version@),
{
    let php: String = path::join(config_dir, "php");
    let own: String = path::join(php.as_str(), version);
    let dir: String = path::join(own.as_str(), "conf.d");
    (SCAN_DIR_VAR.to_owned(), text::cat2(":", dir.as_str()))
}

} // verus!
