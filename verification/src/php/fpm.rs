//! The generated php-fpm configuration and its probe script: rendering,
//! ownership state, and the transactions that write and remove them.

use crate::fs::{self, Disk, PathFacts, Snapshot};
use crate::path;
use crate::php::artifact::{ArtifactView, OwnedArtifactSpec};
use crate::php::batch::{job_views, Job, JobView, Policy};
use crate::php::channel_dir::{self, channel_verdict};
use crate::php::manifest::{
    self, EntryState, EntryView, Manifest, ManifestEntry, ManifestView, OutcomeView, WriteOutcome,
    MANIFEST_VERSION,
};
use crate::php::reconcile::{text_sha, text_sha256};
use crate::php::txn::{
    self, FinalizeMode, Purpose, PurposeView, TxnRun, TxnStage, TxnStageView, TxnView,
};
use crate::text;
use crate::utf8;
use vstd::prelude::*;
use vstd::utf8::{decode_utf8, encode_utf8, valid_utf8};

verus! {

/// The size of a Unix socket address's path, the final NUL included.
pub const SUN_PATH_BYTES: usize = 104;

pub const FPM_CONF_HEADER_V1: &'static str = "; managed by hearth — do not edit. `hearth php config --sync` regenerates this file.\n; hearth-owned: fpm-conf v1\n\n";

pub const PROBE_SCRIPT_V1: &'static str = r#"<?php
// managed by hearth — do not edit. `hearth php config --sync` regenerates this file.
header('Content-Type: text/plain');
$k = $_SERVER['HEARTH_PROBE_KEY'] ?? '';
$n = $_SERVER['HEARTH_PROBE_NONCE'] ?? '';
$v = ($k !== '') ? ini_get($k) : false;
echo json_encode([
    'hearth_probe' => 1,
    'nonce' => $n,
    'key' => $k,
    'pid' => getmypid(),
    'available' => $v !== false,
    'value' => $v === false ? null : (string) $v,
]);
"#;

pub const PRIVATE_MODE: u32 = 0o600;

pub const CONF_TAIL: &'static str = "\nlisten.mode = 0600\npm = ondemand\npm.max_children = 10\npm.process_idle_timeout = 10s\npm.max_requests = 500\ncatch_workers_output = yes\nclear_env = yes\nsecurity.limit_extensions = .php\n";

// ---- paths ----
pub open spec fn socket_of(config_dir: Seq<char>) -> Seq<char> {
    path::joined(config_dir, "run/php-fpm.sock"@)
}

pub open spec fn conf_of(config_dir: Seq<char>) -> Seq<char> {
    path::joined(config_dir, "fpm/php-fpm.conf"@)
}

pub open spec fn probe_of(config_dir: Seq<char>) -> Seq<char> {
    path::joined(config_dir, "fpm/hearth-probe.php"@)
}

pub open spec fn manifest_of(config_dir: Seq<char>) -> Seq<char> {
    path::joined(config_dir, "fpm/manifest.toml"@)
}

pub fn socket_path(config_dir: &str) -> (r: String)
    ensures
        r@ == socket_of(config_dir@),
{
    path::join(config_dir, "run/php-fpm.sock")
}

pub fn conf_path(config_dir: &str) -> (r: String)
    ensures
        r@ == conf_of(config_dir@),
{
    path::join(config_dir, "fpm/php-fpm.conf")
}

pub fn probe_script_path(config_dir: &str) -> (r: String)
    ensures
        r@ == probe_of(config_dir@),
{
    path::join(config_dir, "fpm/hearth-probe.php")
}

pub fn fpm_manifest_path(config_dir: &str) -> (r: String)
    ensures
        r@ == manifest_of(config_dir@),
{
    path::join(config_dir, "fpm/manifest.toml")
}

/// The directories that the supervised FPM needs, each closed to others.
pub fn private_dirs(config_dir: &str) -> (r: Vec<String>)
    ensures
        text::texts(r@) == seq![
            path::joined(config_dir@, "fpm"@),
            path::joined(config_dir@, "run"@),
            path::joined(config_dir@, "log"@),
        ],
{
    let mut out: Vec<String> = Vec::new();
    out.push(path::join(config_dir, "fpm"));
    out.push(path::join(config_dir, "run"));
    out.push(path::join(config_dir, "log"));
    proof {
        assert(text::texts(out@) =~= seq![
            path::joined(config_dir@, "fpm"@),
            path::joined(config_dir@, "run"@),
            path::joined(config_dir@, "log"@),
        ]);
    }
    out
}

// ---- rendering ----
/// A byte that would break a line of the configuration, or end the path.
pub open spec fn breaking(b: u8) -> bool {
    b == 13 || b == 10 || b == 0
}

pub open spec fn has_breaking(bytes: Seq<u8>) -> bool {
    exists|i: int| 0 <= i < bytes.len() && breaking(#[trigger] bytes[i])
}

/// The path as text, or why it cannot be rendered.
pub open spec fn renderable(label: Seq<char>, bytes: Seq<u8>) -> Result<Seq<char>, Seq<char>> {
    if has_breaking(bytes) {
        Err(
            label + " path '"@ + utf8::lossy_text(bytes)
                + "' must not contain CR, LF, or NUL"@,
        )
    } else if !valid_utf8(bytes) {
        Err(label + " path is not valid UTF-8: "@ + utf8::lossy_text(bytes))
    } else {
        Ok(decode_utf8(bytes))
    }
}

/// The path as text that can stand on a line of the configuration.
pub fn rendered_path(label: &str, bytes: &[u8]) -> (r: Result<String, String>)
    ensures
        fs::text_result(r) == renderable(label@, bytes@),
        r matches Ok(s) ==> encode_utf8(s@) == bytes@,
{
    let mut i: usize = 0;
    while i < bytes.len()
        invariant
            i <= bytes@.len(),
            forall|j: int| 0 <= j < i ==> !breaking(#[trigger] bytes@[j]),
        decreases bytes@.len() - i,
    {
        let b: u8 = bytes[i];
        if b == 13 || b == 10 || b == 0 {
            proof {
                assert(breaking(bytes@[i as int]));
            }
            let shown: String = utf8::decode_lossy(bytes);
            return Err(
                text::cat4(label, " path '", shown.as_str(), "' must not contain CR, LF, or NUL"),
            );
        }
        i = i + 1;
    }
    match utf8::decode(bytes) {
        Some(s) => Ok(s),
        None => {
            let shown: String = utf8::decode_lossy(bytes);
            Err(text::cat3(label, " path is not valid UTF-8: ", shown.as_str()))
        },
    }
}

/// The header of a template version.
pub open spec fn conf_header(version: u32) -> Seq<char> {
    if version == 1 {
        FPM_CONF_HEADER_V1@
    } else {
        "; managed by hearth — do not edit. `hearth php config --sync` regenerates this file.\n; hearth-owned: fpm-conf v"@
            + text::decimal(version as nat) + "\n\n"@
    }
}

/// The configuration for a config dir.
pub open spec fn conf_text(version: u32, config_dir: Seq<char>) -> Seq<char> {
    conf_header(version) + "[global]\nerror_log = "@ + path::joined(
        config_dir,
        "log/php-fpm.log"@,
    ) + "\ndaemonize = no\n\n[hearth]\nlisten = "@ + socket_of(config_dir) + CONF_TAIL@
}

/// The rendered configuration, or why there is none: a config dir that cannot
/// be rendered, or one too deep for a socket address.
pub open spec fn conf_verdict(version: u32, config_dir: Seq<u8>) -> Result<Seq<char>, Seq<char>> {
    match renderable("config directory"@, config_dir) {
        Err(e) => Err(e),
        Ok(dir) => {
            let n = encode_utf8(socket_of(dir)).len();
            if n + 1 > SUN_PATH_BYTES {
                Err(
                    "config dir too deep for a unix listener socket ("@ + text::decimal(n)
                        + " bytes; limit 103 + NUL): "@ + dir,
                )
            } else {
                Ok(conf_text(version, dir))
            }
        },
    }
}

/// Renders the configuration of a template version for a config dir, given by
/// the bytes of its path.
pub fn render_fpm_conf_v(version: u32, config_dir: &[u8]) -> (r: Result<String, String>)
    ensures
        fs::text_result(r) == conf_verdict(version, config_dir@),
{
    let dir: String = rendered_path("config directory", config_dir)?;
    let listener: String = socket_path(dir.as_str());
    let n: usize = listener.as_str().as_bytes().len();
    if n >= SUN_PATH_BYTES {
        let count: String = text::decimal_string(n as u64);
        return Err(
            text::cat4(
                "config dir too deep for a unix listener socket (",
                count.as_str(),
                " bytes; limit 103 + NUL): ",
                dir.as_str(),
            ),
        );
    }
    let log: String = path::join(dir.as_str(), "log/php-fpm.log");
    let header: String = if version == 1 {
        FPM_CONF_HEADER_V1.to_owned()
    } else {
        let v: String = text::decimal_string(version as u64);
        text::cat3(
            "; managed by hearth — do not edit. `hearth php config --sync` regenerates this file.\n; hearth-owned: fpm-conf v",
            v.as_str(),
            "\n\n",
        )
    };
    let mut out: String = header;
    out.append("[global]\nerror_log = ");
    out.append(log.as_str());
    out.append("\ndaemonize = no\n\n[hearth]\nlisten = ");
    out.append(listener.as_str());
    out.append(CONF_TAIL);
    Ok(out)
}

/// Renders the current configuration for a config dir.
pub fn render_fpm_conf(config_dir: &str) -> (r: Result<String, String>)
    ensures
        fs::text_result(r) == conf_verdict(1, encode_utf8(config_dir@)),
{
    render_fpm_conf_v(1, config_dir.as_bytes())
}

// ---- the manifest of the artifacts ----
/// What is wrong with the rows of an FPM manifest: only the configuration and
/// the probe script may be tracked, each once, under its own channel.
pub open spec fn rows_fault(
    files: Seq<EntryView>,
    conf: Seq<char>,
    probe: Seq<char>,
    saw_conf: bool,
    saw_probe: bool,
) -> Option<Seq<char>>
    decreases files.len(),
{
    if files.len() == 0 {
        None
    } else {
        let e = files[0];
        let is_conf = path::key(e.path) == path::key(conf);
        let is_probe = path::key(e.path) == path::key(probe);
        if e.php_version != "-"@ {
            Some(
                "forged FPM manifest entry "@ + e.path + " has PHP version '"@ + e.php_version
                    + "' instead of '-'"@,
            )
        } else if is_conf && !is_probe && e.channel == "fpm-conf"@ && !saw_conf {
            rows_fault(files.drop_first(), conf, probe, true, saw_probe)
        } else if !is_conf && is_probe && e.channel == "fpm-probe"@ && !saw_probe {
            rows_fault(files.drop_first(), conf, probe, saw_conf, true)
        } else if is_conf && !is_probe && saw_conf {
            Some("FPM manifest contains a duplicate config entry"@)
        } else if !is_conf && is_probe && saw_probe {
            Some("FPM manifest contains a duplicate probe entry"@)
        } else {
            Some(
                "forged FPM manifest entry ("@ + e.path + ", "@ + e.channel
                    + ") is outside the allowed artifact set"@,
            )
        }
    }
}

fn check_rows(m: &Manifest, conf: &str, probe: &str) -> (r: Option<String>)
    ensures
        text::opt_text(r) == rows_fault(m@.files, conf@, probe@, false, false),
{
    let ghost files = m@.files;
    let mut saw_conf: bool = false;
    let mut saw_probe: bool = false;
    let mut i: usize = 0;
    proof {
        assert(files.skip(0) =~= files);
    }
    while i < m.files.len()
        invariant
            i <= m.files@.len(),
            files == m@.files,
            rows_fault(files, conf@, probe@, false, false) == rows_fault(
                files.skip(i as int),
                conf@,
                probe@,
                saw_conf,
                saw_probe,
            ),
        decreases m.files@.len() - i,
    {
        let e: &ManifestEntry = &m.files[i];
        proof {
            assert(files.skip(i as int)[0] == e@);
            assert(files.skip(i as int).drop_first() =~= files.skip(i + 1));
        }
        if !text::same(e.php_version.as_str(), "-") {
            return Some(
                text::cat5(
                    "forged FPM manifest entry ",
                    e.path.as_str(),
                    " has PHP version '",
                    e.php_version.as_str(),
                    "' instead of '-'",
                ),
            );
        }
        let is_conf: bool = path::same_path(e.path.as_str(), conf);
        let is_probe: bool = path::same_path(e.path.as_str(), probe);
        if is_conf && !is_probe && text::same(e.channel.as_str(), "fpm-conf") && !saw_conf {
            saw_conf = true;
        } else if !is_conf && is_probe && text::same(e.channel.as_str(), "fpm-probe")
            && !saw_probe {
            saw_probe = true;
        } else if is_conf && !is_probe && saw_conf {
            return Some("FPM manifest contains a duplicate config entry".to_owned());
        } else if !is_conf && is_probe && saw_probe {
            return Some("FPM manifest contains a duplicate probe entry".to_owned());
        } else {
            return Some(
                text::cat5(
                    "forged FPM manifest entry (",
                    e.path.as_str(),
                    ", ",
                    e.channel.as_str(),
                    ") is outside the allowed artifact set",
                ),
            );
        }
        i = i + 1;
    }
    None
}

/// What stands in the way of reading the manifest file: `Some(None)` where
/// there is none, `Some(Some(_))` where it is not trusted.
pub open spec fn manifest_access(config_dir: Seq<char>, d: Disk) -> Option<Option<Seq<char>>> {
    let dir = path::joined(config_dir, "fpm"@);
    let file = manifest_of(config_dir);
    match fs::facts(d, dir).link {
        Err((not_found, e)) => if not_found {
            Some(None)
        } else {
            Some(Some("could not inspect FPM manifest directory "@ + dir + ": "@ + e))
        },
        Ok(m) => if m.is_symlink {
            Some(Some("FPM manifest directory "@ + dir + " is a symlink — refusing"@))
        } else if !m.is_dir {
            Some(Some("FPM manifest directory "@ + dir + " is not a directory"@))
        } else {
            match (channel_verdict(dir, seq![config_dir], d), fs::facts(d, file).link) {
                (Err(e), _) => Some(Some("FPM manifest directory is not trusted: "@ + e)),
                (Ok(_), Err((not_found, e))) => if not_found {
                    Some(None)
                } else {
                    Some(Some("could not inspect FPM manifest "@ + file + ": "@ + e))
                },
                (Ok(_), Ok(f)) => if f.is_symlink {
                    Some(Some("FPM manifest "@ + file + " is a symlink — refusing"@))
                } else if !f.is_file {
                    Some(Some("FPM manifest "@ + file + " is not a regular file"@))
                } else {
                    None
                },
            }
        },
    }
}

/// The trusted manifest of the FPM artifacts, if there is one, or why it is
/// not trusted. `loaded` is what was read from its file.
pub open spec fn strict_manifest(
    config_dir: Seq<char>,
    d: Disk,
    loaded: Result<ManifestView, Seq<char>>,
) -> Result<Option<ManifestView>, Seq<char>> {
    match manifest_access(config_dir, d) {
        Some(None) => Ok(None),
        Some(Some(e)) => Err(e),
        None => match loaded {
            Err(e) => Err(
                "FPM manifest "@ + manifest_of(config_dir) + " is unreadable or malformed: "@ + e,
            ),
            Ok(m) => if m.version != MANIFEST_VERSION {
                Err(
                    "unsupported FPM manifest version "@ + text::decimal(m.version as nat)
                        + " (expected "@ + text::decimal(MANIFEST_VERSION as nat) + ")"@,
                )
            } else if m.files.len() > 2 {
                Err("FPM manifest contains more than the two allowed artifacts"@)
            } else {
                match rows_fault(
                    m.files,
                    conf_of(config_dir),
                    probe_of(config_dir),
                    false,
                    false,
                ) {
                    Some(e) => Err(e),
                    None => Ok(Some(m)),
                }
            },
        },
    }
}

pub open spec fn loaded_view(r: Result<Manifest, String>) -> Result<ManifestView, Seq<char>> {
    match r {
        Ok(m) => Ok(m@),
        Err(e) => Err(e@),
    }
}

pub open spec fn strict_view(r: Result<Option<Manifest>, String>) -> Result<
    Option<ManifestView>,
    Seq<char>,
> {
    match r {
        Ok(Some(m)) => Ok(Some(m@)),
        Ok(None) => Ok(None),
        Err(e) => Err(e@),
    }
}

fn check_access(config_dir: &str, disk: &Snapshot) -> (r: Option<Option<String>>)
    requires
        disk.wf(),
    ensures
        match r {
            None => manifest_access(config_dir@, disk@) is None,
            Some(s) => manifest_access(config_dir@, disk@) == Some(text::opt_text(s)),
        },
{
    let dir: String = path::join(config_dir, "fpm");
    match &disk.at(dir.as_str()).link {
        Err(e) => {
            if e.not_found {
                return Some(None);
            }
            return Some(
                Some(
                    text::cat4(
                        "could not inspect FPM manifest directory ",
                        dir.as_str(),
                        ": ",
                        e.text.as_str(),
                    ),
                ),
            );
        },
        Ok(m) => {
            if m.is_symlink {
                return Some(
                    Some(
                        text::cat3(
                            "FPM manifest directory ",
                            dir.as_str(),
                            " is a symlink — refusing",
                        ),
                    ),
                );
            }
            if !m.is_dir {
                return Some(
                    Some(
                        text::cat3(
                            "FPM manifest directory ",
                            dir.as_str(),
                            " is not a directory",
                        ),
                    ),
                );
            }
        },
    }
    let mut roots: Vec<String> = Vec::new();
    roots.push(config_dir.to_owned());
    proof {
        assert(text::texts(roots@) =~= seq![config_dir@]);
    }
    match channel_dir::verify_user_channel(dir.as_str(), &roots, disk) {
        Err(e) => {
            return Some(
                Some(text::cat2("FPM manifest directory is not trusted: ", e.reason.as_str())),
            );
        },
        Ok(_) => {},
    }
    let file: String = fpm_manifest_path(config_dir);
    match &disk.at(file.as_str()).link {
        Err(e) => {
            if e.not_found {
                Some(None)
            } else {
                Some(
                    Some(
                        text::cat4(
                            "could not inspect FPM manifest ",
                            file.as_str(),
                            ": ",
                            e.text.as_str(),
                        ),
                    ),
                )
            }
        },
        Ok(f) => {
            if f.is_symlink {
                Some(
                    Some(text::cat3("FPM manifest ", file.as_str(), " is a symlink — refusing")),
                )
            } else if !f.is_file {
                Some(Some(text::cat3("FPM manifest ", file.as_str(), " is not a regular file")))
            } else {
                None
            }
        },
    }
}

/// Judges the manifest of the FPM artifacts, given the snapshot and what was
/// read from the manifest file.
pub fn load_fpm_manifest_strict(
    config_dir: &str,
    disk: &Snapshot,
    loaded: Result<Manifest, String>,
) -> (r: Result<Option<Manifest>, String>)
    requires
        disk.wf(),
    ensures
        strict_view(r) == strict_manifest(config_dir@, disk@, loaded_view(loaded)),
{
    match check_access(config_dir, disk) {
        Some(None) => {
            return Ok(None);
        },
        Some(Some(e)) => {
            return Err(e);
        },
        None => {},
    }
    match loaded {
        Err(e) => {
            let file: String = fpm_manifest_path(config_dir);
            Err(
                text::cat4(
                    "FPM manifest ",
                    file.as_str(),
                    " is unreadable or malformed: ",
                    e.as_str(),
                ),
            )
        },
        Ok(m) => {
            if m.version != MANIFEST_VERSION {
                let got: String = text::decimal_string(m.version);
                let want: String = text::decimal_string(MANIFEST_VERSION);
                return Err(
                    text::cat5(
                        "unsupported FPM manifest version ",
                        got.as_str(),
                        " (expected ",
                        want.as_str(),
                        ")",
                    ),
                );
            }
            if m.files.len() > 2 {
                return Err(
                    "FPM manifest contains more than the two allowed artifacts".to_owned(),
                );
            }
            let conf: String = conf_path(config_dir);
            let probe: String = probe_script_path(config_dir);
            match check_rows(&m, conf.as_str(), probe.as_str()) {
                Some(e) => Err(e),
                None => Ok(Some(m)),
            }
        },
    }
}

/// A trusted manifest tracks nothing but the configuration and the probe
/// script, each at most once and under its own channel.
pub proof fn trusted_rows_are_the_artifacts(
    files: Seq<EntryView>,
    conf: Seq<char>,
    probe: Seq<char>,
    saw_conf: bool,
    saw_probe: bool,
    i: int,
    j: int,
)
    requires
        rows_fault(files, conf, probe, saw_conf, saw_probe) is None,
        0 <= i < j < files.len() || (i == j && 0 <= i < files.len()),
    ensures
        files[i].php_version == "-"@,
        (path::key(files[i].path) == path::key(conf) && files[i].channel == "fpm-conf"@
            && !saw_conf) || (path::key(files[i].path) == path::key(probe) && files[i].channel
            == "fpm-probe"@ && !saw_probe),
        i < j ==> path::key(files[i].path) != path::key(files[j].path),
    decreases files.len(),
{
    let e = files[0];
    let is_conf = path::key(e.path) == path::key(conf);
    let rest = files.drop_first();
    let (c, p) = if is_conf {
        (true, saw_probe)
    } else {
        (saw_conf, true)
    };
    if i > 0 {
        trusted_rows_are_the_artifacts(rest, conf, probe, c, p, i - 1, j - 1);
    } else if j > 0 {
        trusted_rows_are_the_artifacts(rest, conf, probe, c, p, j - 1, j - 1);
    }
}

// ---- state ----
#[derive(Debug, Clone, PartialEq, Eq)]
pub enum FpmConfState {
    HearthOwned { conf: String, conf_sha256: String, probe_sha256: String, listen: String },
    UserManaged { conf: String },
    Blocked { reason: String },
}

pub enum StateView {
    HearthOwned {
        conf: Seq<char>,
        conf_sha256: Seq<char>,
        probe_sha256: Seq<char>,
        listen: Seq<char>,
    },
    UserManaged { conf: Seq<char> },
    Blocked { reason: Seq<char> },
}

impl View for FpmConfState {
    type V = StateView;

    open spec fn view(&self) -> StateView {
        match self {
            FpmConfState::HearthOwned { conf, conf_sha256, probe_sha256, listen } =>
                StateView::HearthOwned {
                    conf: conf@,
                    conf_sha256: conf_sha256@,
                    probe_sha256: probe_sha256@,
                    listen: listen@,
                },
            FpmConfState::UserManaged { conf } => StateView::UserManaged { conf: conf@ },
            FpmConfState::Blocked { reason } => StateView::Blocked { reason: reason@ },
        }
    }
}

/// What is wrong with an artifact on disk: it has to be a regular file with
/// exactly the recorded hash.
pub open spec fn artifact_fault(e: EntryView, label: Seq<char>, d: Disk) -> Option<Seq<char>> {
    let f = fs::facts(d, e.path);
    match (f.link, f.hash) {
        (Err((_, why)), _) => Some("could not inspect "@ + e.path + ": "@ + why),
        (Ok(m), hash) => if m.is_symlink {
            Some(e.path + " is a symlink — refusing"@)
        } else if !m.is_file {
            Some(e.path + " is not a regular file"@)
        } else {
            match hash {
                Err(why) => Some("could not read "@ + e.path + ": "@ + why),
                Ok(h) => if h == e.sha256 {
                    None
                } else {
                    Some(
                        label + " "@ + e.path
                            + " was modified outside Hearth — remove or rename the file, then run `hearth php config --sync`"@,
                    )
                },
            }
        },
    }
}

pub const NO_FPM_CONF: &'static str = "missing fpm config — run `hearth php config --sync`";

pub const PARTIAL_ARTIFACTS: &'static str = "FPM manifest does not own the complete config + probe artifact set — run `hearth php config --sync`";

pub const INTERRUPTED_FPM: &'static str = "FPM manifest has an interrupted pending transaction — run `hearth php config --sync`";

/// Who owns the FPM configuration, given the trusted manifest.
pub open spec fn ownership_state(
    config_dir: Seq<char>,
    m: Option<ManifestView>,
    d: Disk,
) -> StateView {
    let conf = conf_of(config_dir);
    let probe = probe_of(config_dir);
    match m {
        None => if fs::facts(d, conf).exists {
            StateView::UserManaged { conf }
        } else if fs::facts(d, probe).exists {
            StateView::Blocked {
                reason: probe
                    + " exists without an authoritative FPM manifest — remove or rename it, then run `hearth php config --sync`"@,
            }
        } else {
            StateView::Blocked { reason: NO_FPM_CONF@ }
        },
        Some(m) => if m.files.len() == 0 && fs::facts(d, conf).exists {
            StateView::UserManaged { conf }
        } else {
            match (manifest::slot(m.files, conf), manifest::slot(m.files, probe)) {
                (Some(i), Some(j)) => tracked_state(config_dir, m.files[i], m.files[j], d),
                _ => StateView::Blocked { reason: PARTIAL_ARTIFACTS@ },
            }
        },
    }
}

/// Who owns the FPM configuration where both artifacts have a row.
pub open spec fn tracked_state(
    config_dir: Seq<char>,
    conf_row: EntryView,
    probe_row: EntryView,
    d: Disk,
) -> StateView {
    if conf_row.state != EntryState::Applied || probe_row.state != EntryState::Applied {
        StateView::Blocked { reason: INTERRUPTED_FPM@ }
    } else {
        match (
            artifact_fault(conf_row, "FPM config"@, d),
            artifact_fault(probe_row, "FPM probe"@, d),
        ) {
            (Some(reason), _) => StateView::Blocked { reason },
            (None, Some(reason)) => StateView::Blocked { reason },
            (None, None) => StateView::HearthOwned {
                conf: conf_of(config_dir),
                conf_sha256: conf_row.sha256,
                probe_sha256: probe_row.sha256,
                listen: socket_of(config_dir),
            },
        }
    }
}

fn check_artifact(e: &ManifestEntry, label: &str, disk: &Snapshot) -> (r: Option<String>)
    requires
        disk.wf(),
    ensures
        text::opt_text(r) == artifact_fault(e@, label@, disk@),
{
    let p: &str = e.path.as_str();
    let f: &PathFacts = disk.at(p);
    match &f.link {
        Err(why) => {
            return Some(text::cat4("could not inspect ", p, ": ", why.text.as_str()));
        },
        Ok(m) => {
            if m.is_symlink {
                return Some(text::cat2(p, " is a symlink — refusing"));
            }
            if !m.is_file {
                return Some(text::cat2(p, " is not a regular file"));
            }
        },
    }
    match &f.hash {
        Err(why) => Some(text::cat4("could not read ", p, ": ", why.as_str())),
        Ok(h) => {
            if *h == e.sha256 {
                None
            } else {
                Some(
                    text::cat4(
                        label,
                        " ",
                        p,
                        " was modified outside Hearth — remove or rename the file, then run `hearth php config --sync`",
                    ),
                )
            }
        },
    }
}

/// Who owns the FPM configuration, given the trusted manifest.
pub fn state_from_manifest(config_dir: &str, m: Option<&Manifest>, disk: &Snapshot) -> (r:
    FpmConfState)
    requires
        disk.wf(),
    ensures
        r@ == ownership_state(
            config_dir@,
            match m {
                Some(m) => Some(m@),
                None => None,
            },
            disk@,
        ),
{
    let conf: String = conf_path(config_dir);
    let probe: String = probe_script_path(config_dir);
    match m {
        None => {
            if disk.at(conf.as_str()).exists {
                return FpmConfState::UserManaged { conf };
            }
            if disk.at(probe.as_str()).exists {
                return FpmConfState::Blocked {
                    reason: text::cat2(
                        probe.as_str(),
                        " exists without an authoritative FPM manifest — remove or rename it, then run `hearth php config --sync`",
                    ),
                };
            }
            FpmConfState::Blocked { reason: NO_FPM_CONF.to_owned() }
        },
        Some(m) => {
            if m.files.len() == 0 && disk.at(conf.as_str()).exists {
                return FpmConfState::UserManaged { conf };
            }
            match (m.entry_index(conf.as_str()), m.entry_index(probe.as_str())) {
                (Some(i), Some(j)) => {
                    let c: &ManifestEntry = &m.files[i];
                    let p: &ManifestEntry = &m.files[j];
                    if c.state != EntryState::Applied || p.state != EntryState::Applied {
                        return FpmConfState::Blocked { reason: INTERRUPTED_FPM.to_owned() };
                    }
                    if let Some(reason) = check_artifact(c, "FPM config", disk) {
                        return FpmConfState::Blocked { reason };
                    }
                    if let Some(reason) = check_artifact(p, "FPM probe", disk) {
                        return FpmConfState::Blocked { reason };
                    }
                    FpmConfState::HearthOwned {
                        conf,
                        conf_sha256: c.sha256.clone(),
                        probe_sha256: p.sha256.clone(),
                        listen: socket_path(config_dir),
                    }
                },
                _ => FpmConfState::Blocked { reason: PARTIAL_ARTIFACTS.to_owned() },
            }
        },
    }
}

/// The state of the FPM configuration.
pub open spec fn conf_state_of(
    config_dir: Seq<char>,
    d: Disk,
    loaded: Result<ManifestView, Seq<char>>,
) -> StateView {
    match strict_manifest(config_dir, d, loaded) {
        Ok(m) => ownership_state(config_dir, m, d),
        Err(reason) => StateView::Blocked { reason },
    }
}

/// The state of the FPM configuration, given the snapshot and what was read
/// from the manifest file.
pub fn conf_state(config_dir: &str, disk: &Snapshot, loaded: Result<Manifest, String>) -> (r:
    FpmConfState)
    requires
        disk.wf(),
    ensures
        r@ == conf_state_of(config_dir@, disk@, loaded_view(loaded)),
{
    match load_fpm_manifest_strict(config_dir, disk, loaded) {
        Ok(Some(m)) => state_from_manifest(config_dir, Some(&m), disk),
        Ok(None) => state_from_manifest(config_dir, None, disk),
        Err(reason) => FpmConfState::Blocked { reason },
    }
}

/// Hearth owns the configuration only where both artifacts are regular files
/// with exactly the recorded hashes, under settled rows of a trusted manifest.
pub proof fn owned_means_exact_hashes(
    config_dir: Seq<char>,
    d: Disk,
    loaded: Result<ManifestView, Seq<char>>,
)
    requires
        conf_state_of(config_dir, d, loaded) is HearthOwned,
    ensures
        loaded is Ok,
        ({
            let m = loaded->Ok_0;
            let conf = manifest::slot(m.files, conf_of(config_dir));
            let probe = manifest::slot(m.files, probe_of(config_dir));
            &&& strict_manifest(config_dir, d, loaded) == Ok::<Option<ManifestView>, Seq<char>>(
                Some(m),
            )
            &&& conf is Some && probe is Some
            &&& m.files[conf->0].state == EntryState::Applied
            &&& m.files[probe->0].state == EntryState::Applied
            &&& fs::facts(d, m.files[conf->0].path).hash == Ok::<Seq<char>, Seq<char>>(
                m.files[conf->0].sha256,
            )
            &&& fs::facts(d, m.files[probe->0].path).hash == Ok::<Seq<char>, Seq<char>>(
                m.files[probe->0].sha256,
            )
        }),
{
}

// ---- materialization ----
#[derive(Debug, Clone, PartialEq, Eq)]
pub struct MaterializeReport {
    pub conf: WriteOutcome,
    pub probe: WriteOutcome,
    pub state: FpmConfState,
}

pub struct MaterializeView {
    pub conf: OutcomeView,
    pub probe: OutcomeView,
    pub state: StateView,
}

impl View for MaterializeReport {
    type V = MaterializeView;

    open spec fn view(&self) -> MaterializeView {
        MaterializeView { conf: self.conf@, probe: self.probe@, state: self.state@ }
    }
}

/// Nothing was written, for one reason.
pub open spec fn blocked(reason: Seq<char>) -> MaterializeView {
    MaterializeView {
        conf: OutcomeView::Failed { error: reason },
        probe: OutcomeView::Failed { error: reason },
        state: StateView::Blocked { reason },
    }
}

/// The report that nothing was written, for one reason.
pub fn blocked_report(reason: String) -> (r: MaterializeReport)
    ensures
        r@ == blocked(reason@),
{
    MaterializeReport {
        conf: WriteOutcome::Failed { error: reason.clone() },
        probe: WriteOutcome::Failed { error: reason.clone() },
        state: FpmConfState::Blocked { reason },
    }
}

/// What closing a directory to others waits for.
#[derive(Debug)]
pub enum PrivateStage {
    /// The directory, created and verified.
    Creating,
    /// The change of its mode to 0700.
    Securing,
    /// The directory, verified again.
    Rechecking,
    Done { result: Result<(), String> },
}

pub enum PrivateView {
    Creating,
    Securing,
    Rechecking,
    Done { result: Result<(), Seq<char>> },
}

impl View for PrivateStage {
    type V = PrivateView;

    open spec fn view(&self) -> PrivateView {
        match self {
            PrivateStage::Creating => PrivateView::Creating,
            PrivateStage::Securing => PrivateView::Securing,
            PrivateStage::Rechecking => PrivateView::Rechecking,
            PrivateStage::Done { result } => PrivateView::Done { result: txn::done_view(*result) },
        }
    }
}

/// One step of closing a directory to others: it is verified before and after
/// its mode is changed, and the first failure ends it.
pub open spec fn private_next(
    stage: PrivateView,
    dir: Seq<char>,
    done: Result<(), Seq<char>>,
) -> PrivateView {
    match (stage, done) {
        (PrivateView::Creating, Ok(_)) => PrivateView::Securing,
        (PrivateView::Securing, Ok(_)) => PrivateView::Rechecking,
        (PrivateView::Securing, Err(e)) => PrivateView::Done {
            result: Err("could not secure "@ + dir + ": "@ + e),
        },
        (PrivateView::Done { result }, _) => stage,
        (_, r) => PrivateView::Done { result: r },
    }
}

impl PrivateStage {
    /// Takes what came of the stage and moves on.
    pub fn step(self, dir: &str, done: Result<(), String>) -> (r: Self)
        ensures
            r@ == private_next(self@, dir@, txn::done_view(done)),
    {
        match (self, done) {
            (PrivateStage::Creating, Ok(_)) => PrivateStage::Securing,
            (PrivateStage::Securing, Ok(_)) => PrivateStage::Rechecking,
            (PrivateStage::Securing, Err(e)) => PrivateStage::Done {
                result: Err(text::cat4("could not secure ", dir, ": ", e.as_str())),
            },
            (PrivateStage::Done { result }, _) => PrivateStage::Done { result },
            (_, done) => PrivateStage::Done { result: done },
        }
    }
}

/// The two artifacts: the configuration first, then the probe script.
pub open spec fn artifact_jobs(config_dir: Seq<char>, rendered: Seq<char>) -> Seq<JobView> {
    seq![
        JobView::Apply {
            spec: ArtifactView {
                final_path: conf_of(config_dir),
                channel: "fpm-conf"@,
                php_version: "-"@,
                mode: PRIVATE_MODE,
            },
            content: rendered,
            sha256: text_sha(rendered),
        },
        JobView::Apply {
            spec: ArtifactView {
                final_path: probe_of(config_dir),
                channel: "fpm-probe"@,
                php_version: "-"@,
                mode: PRIVATE_MODE,
            },
            content: PROBE_SCRIPT_V1@,
            sha256: text_sha(PROBE_SCRIPT_V1@),
        },
    ]
}

/// How a materialization starts: with a transaction for the two artifacts, or
/// with a report where the configuration cannot be rendered.
pub open spec fn materialize_start(config_dir: Seq<char>, version: u32) -> Result<
    TxnView,
    MaterializeView,
> {
    match conf_verdict(version, encode_utf8(config_dir)) {
        Err(reason) => Err(blocked(reason)),
        Ok(rendered) => Ok(
            txn::txn_start(
                PurposeView::Materialize { jobs: artifact_jobs(config_dir, rendered) },
                FinalizeMode::DeleteWhenEmpty,
            ),
        ),
    }
}

fn artifact(p: String, channel: &str, content: String) -> (r: Job)
    ensures
        r@ == (JobView::Apply {
            spec: ArtifactView {
                final_path: p@,
                channel: channel@,
                php_version: "-"@,
                mode: PRIVATE_MODE,
            },
            content: content@,
            sha256: text_sha(content@),
        }),
{
    let sha256: String = text_sha256(content.as_str());
    Job::Apply {
        spec: OwnedArtifactSpec {
            final_path: p,
            channel: channel.to_owned(),
            php_version: "-".to_owned(),
            mode: PRIVATE_MODE,
        },
        content,
        sha256,
    }
}

/// Starts to write the artifacts of a template version.
pub fn materialize_with_options(config_dir: &str, template_version: u32) -> (r: Result<
    TxnRun,
    MaterializeReport,
>)
    ensures
        match r {
            Ok(run) => materialize_start(config_dir@, template_version) == Ok::<
                TxnView,
                MaterializeView,
            >(run@),
            Err(report) => materialize_start(config_dir@, template_version) == Err::<
                TxnView,
                MaterializeView,
            >(report@),
        },
{
    let rendered: String = match render_fpm_conf_v(template_version, config_dir.as_bytes()) {
        Ok(s) => s,
        Err(reason) => {
            return Err(blocked_report(reason));
        },
    };
    let mut jobs: Vec<Job> = Vec::new();
    jobs.push(artifact(conf_path(config_dir), "fpm-conf", rendered));
    jobs.push(artifact(probe_script_path(config_dir), "fpm-probe", PROBE_SCRIPT_V1.to_owned()));
    proof {
        assert(job_views(jobs@) =~= artifact_jobs(config_dir@, rendered@));
    }
    Ok(
        txn::manifest_set_transaction(
            Purpose::Materialize { jobs },
            FinalizeMode::DeleteWhenEmpty,
        ),
    )
}

/// Starts to write the current artifacts.
pub fn materialize(config_dir: &str) -> (r: Result<TxnRun, MaterializeReport>)
    ensures
        match r {
            Ok(run) => materialize_start(config_dir@, 1) == Ok::<TxnView, MaterializeView>(run@),
            Err(report) => materialize_start(config_dir@, 1) == Err::<TxnView, MaterializeView>(
                report@,
            ),
        },
{
    materialize_with_options(config_dir, 1)
}

/// What a materialization comes to, with the state that it leaves.
pub open spec fn materialized(t: TxnView, state: StateView) -> MaterializeView {
    match t.stage {
        TxnStageView::Failed { error } => blocked(txn::txn_said(error)),
        _ => match t.refusal {
            Some(reason) => MaterializeView {
                conf: OutcomeView::Refused { reason },
                probe: OutcomeView::Refused { reason },
                state,
            },
            None => MaterializeView {
                conf: t.batch.outcomes[0],
                probe: if t.batch.outcomes.len() > 1 {
                    t.batch.outcomes[1]
                } else {
                    t.batch.outcomes[0]
                },
                state,
            },
        },
    }
}

/// What a materialization came to, once its transaction has ended. A
/// configuration that was refused or failed stands for the probe script too,
/// which was then not tried.
pub fn materialize_report(run: &TxnRun, state: FpmConfState) -> (r: MaterializeReport)
    requires
        run@.stage is Failed || run@.refusal is Some || run@.batch.outcomes.len() > 0,
    ensures
        r@ == materialized(run@, state@),
{
    if let TxnStage::Failed { error } = &run.stage {
        return blocked_report(error.message());
    }
    if let Some(reason) = &run.refusal {
        return MaterializeReport {
            conf: WriteOutcome::Refused { reason: reason.clone() },
            probe: WriteOutcome::Refused { reason: reason.clone() },
            state,
        };
    }
    let ghost outcomes = run@.batch.outcomes;
    proof {
        assert(outcomes.len() == run.batch.outcomes@.len());
        assert(outcomes[0] == run.batch.outcomes@[0]@);
    }
    let conf: WriteOutcome = run.batch.outcomes[0].dup();
    let probe: WriteOutcome = if run.batch.outcomes.len() > 1 {
        run.batch.outcomes[1].dup()
    } else {
        run.batch.outcomes[0].dup()
    };
    MaterializeReport { conf, probe, state }
}

/// Starts to resolve the journal of the artifacts; nothing where their
/// directory does not exist.
pub fn recover_pending_fpm(config_dir: &str, disk: &Snapshot) -> (r: Option<TxnRun>)
    requires
        disk.wf(),
    ensures
        match r {
            Some(run) => fs::facts(disk@, path::joined(config_dir@, "fpm"@)).exists && run@
                == txn::txn_start(PurposeView::Recover, FinalizeMode::DeleteWhenEmpty),
            None => !fs::facts(disk@, path::joined(config_dir@, "fpm"@)).exists,
        },
{
    let dir: String = path::join(config_dir, "fpm");
    if !disk.at(dir.as_str()).exists {
        return None;
    }
    Some(txn::manifest_set_transaction(Purpose::Recover, FinalizeMode::DeleteWhenEmpty))
}

/// Starts to remove the artifacts; nothing where their directory does not
/// exist.
pub fn unmanage_fpm(config_dir: &str, disk: &Snapshot) -> (r: Option<TxnRun>)
    requires
        disk.wf(),
    ensures
        match r {
            Some(run) => fs::facts(disk@, path::joined(config_dir@, "fpm"@)).exists && run@
                == txn::txn_start(
                PurposeView::Unmanage { policy: Policy::All },
                FinalizeMode::DeleteWhenEmpty,
            ),
            None => !fs::facts(disk@, path::joined(config_dir@, "fpm"@)).exists,
        },
{
    let dir: String = path::join(config_dir, "fpm");
    if !disk.at(dir.as_str()).exists {
        return None;
    }
    Some(
        txn::manifest_set_transaction(
            Purpose::Unmanage { policy: Policy::All },
            FinalizeMode::DeleteWhenEmpty,
        ),
    )
}

} // verus!
