//! Which site-management command line is used, with which arguments, and what
//! its output says.

use crate::fs::{self, Disk, Snapshot};
use crate::path;
use crate::scan::{self, Class};
use crate::text::{self, opt_str};
use crate::utf8::{self, lossy_text};
use vstd::prelude::*;

verus! {

pub const HERD_CLI_FROM_CONFIG_DIR: &'static str = "Herd/bin/herd";

pub const HERD_CLI_FROM_HOME_DIR: &'static str = "Library/Application Support/Herd/bin/herd";

#[derive(Debug, Clone, Copy, PartialEq, Eq, Structural)]
pub enum BackendPolicy {
    HerdAware,
    ValetOnly,
}

#[derive(Debug, Clone, Copy, PartialEq, Eq, Structural)]
pub enum SiteBackendKind {
    Valet,
    Herd,
}

pub open spec fn backend_name(k: SiteBackendKind) -> Seq<char> {
    match k {
        SiteBackendKind::Valet => "Valet"@,
        SiteBackendKind::Herd => "Herd"@,
    }
}

impl SiteBackendKind {
    pub fn display_name(self) -> (r: &'static str)
        ensures
            r@ == backend_name(self),
    {
        match self {
            SiteBackendKind::Valet => "Valet",
            SiteBackendKind::Herd => "Herd",
        }
    }
}

#[derive(Debug, Clone, PartialEq, Eq)]
pub struct SiteCliBackend {
    pub kind: SiteBackendKind,
    pub executable: String,
}

pub struct BackendView {
    pub kind: SiteBackendKind,
    pub executable: Seq<char>,
}

impl View for SiteCliBackend {
    type V = BackendView;

    open spec fn view(&self) -> BackendView {
        BackendView { kind: self.kind, executable: self.executable@ }
    }
}

pub open spec fn valet_backend() -> BackendView {
    BackendView { kind: SiteBackendKind::Valet, executable: "valet"@ }
}

/// Where the Herd CLI is looked for: below the config directory, then below
/// the home directory unless that is the same place.
pub open spec fn herd_places(config_dir: Option<Seq<char>>, home: Option<Seq<char>>) -> Seq<
    Seq<char>,
> {
    let first = match config_dir {
        Some(c) => seq![path::joined(c, HERD_CLI_FROM_CONFIG_DIR@)],
        None => Seq::empty(),
    };
    match home {
        Some(h) => {
            let p = path::joined(h, HERD_CLI_FROM_HOME_DIR@);
            if first.len() > 0 && path::key(first[0]) == path::key(p) {
                first
            } else {
                first.push(p)
            }
        },
        None => first,
    }
}

pub open spec fn is_file(p: Seq<char>, d: Disk) -> bool {
    let t = fs::facts(d, p).target;
    t is Ok && t->Ok_0.is_file
}

/// The first place, from `i` on, at which there is a file.
pub open spec fn first_file(places: Seq<Seq<char>>, d: Disk, i: int) -> Option<Seq<char>>
    decreases places.len() - i,
{
    if i < 0 || i >= places.len() {
        None
    } else if is_file(places[i], d) {
        Some(places[i])
    } else {
        first_file(places, d, i + 1)
    }
}

/// The backend: Valet, unless the policy looks at Herd and Herd is running.
pub open spec fn backend_verdict(
    policy: BackendPolicy,
    herd_running: bool,
    config_dir: Option<Seq<char>>,
    home: Option<Seq<char>>,
    d: Disk,
) -> Result<BackendView, Seq<char>> {
    let places = herd_places(config_dir, home);
    if policy == BackendPolicy::ValetOnly || !herd_running {
        Ok(valet_backend())
    } else {
        match first_file(places, d, 0) {
            Some(executable) => Ok(BackendView { kind: SiteBackendKind::Herd, executable }),
            None => if places.len() == 0 {
                Err(
                    "Herd is running, but the Herd CLI location could not be resolved from the user's config or home directory"@,
                )
            } else {
                Err(
                    "Herd is running, but the Herd CLI was not found. Searched: "@ + scan::glued(
                        places,
                        ", "@,
                    ),
                )
            },
        }
    }
}

pub open spec fn backend_view(r: Result<SiteCliBackend, String>) -> Result<BackendView, Seq<char>> {
    match r {
        Ok(b) => Ok(b@),
        Err(e) => Err(e@),
    }
}

fn is_file_at(p: &str, disk: &Snapshot) -> (r: bool)
    requires
        disk.wf(),
    ensures
        r == is_file(p@, disk@),
{
    match &disk.at(p).target {
        Ok(m) => m.is_file,
        Err(_) => false,
    }
}

impl SiteCliBackend {
    pub fn valet() -> (r: Self)
        ensures
            r@ == valet_backend(),
    {
        SiteCliBackend { kind: SiteBackendKind::Valet, executable: "valet".to_owned() }
    }

    /// Choose the backend of a policy.
    pub fn select(
        policy: BackendPolicy,
        herd_running: bool,
        config_dir: Option<&str>,
        home_dir: Option<&str>,
        disk: &Snapshot,
    ) -> (r: Result<Self, String>)
        requires
            disk.wf(),
        ensures
            backend_view(r) == backend_verdict(
                policy,
                herd_running,
                opt_str(config_dir),
                opt_str(home_dir),
                disk@,
            ),
    {
        if policy == BackendPolicy::ValetOnly || !herd_running {
            return Ok(SiteCliBackend::valet());
        }
        let ghost places = herd_places(opt_str(config_dir), opt_str(home_dir));
        let mut candidates: Vec<String> = Vec::new();
        match config_dir {
            Some(c) => {
                candidates.push(path::join(c, HERD_CLI_FROM_CONFIG_DIR));
            },
            None => {},
        }
        match home_dir {
            Some(h) => {
                let p: String = path::join(h, HERD_CLI_FROM_HOME_DIR);
                if candidates.len() == 0 || !path::same_path(candidates[0].as_str(), p.as_str()) {
                    candidates.push(p);
                }
            },
            None => {},
        }
        proof {
            assert(text::texts(candidates@) =~= places);
        }
        let mut i: usize = 0;
        while i < candidates.len()
            invariant
                i <= candidates.len(),
                disk.wf(),
                text::texts(candidates@) == places,
                first_file(places, disk@, 0) == first_file(places, disk@, i as int),
                places == herd_places(opt_str(config_dir), opt_str(home_dir)),
                policy != BackendPolicy::ValetOnly,
                herd_running,
            decreases candidates.len() - i,
        {
            assert(places[i as int] == candidates@[i as int]@);
            if is_file_at(candidates[i].as_str(), disk) {
                return Ok(
                    SiteCliBackend {
                        kind: SiteBackendKind::Herd,
                        executable: candidates[i].clone(),
                    },
                );
            }
            i = i + 1;
        }
        if candidates.len() == 0 {
            return Err(
                "Herd is running, but the Herd CLI location could not be resolved from the user's config or home directory".to_owned(),
            );
        }
        let searched: String = scan::glue(&candidates, ", ");
        Err(
            text::cat2(
                "Herd is running, but the Herd CLI was not found. Searched: ",
                searched.as_str(),
            ),
        )
    }
}

// ---- commands ----
/// A site command to run.
#[derive(Debug)]
pub struct SiteCommand {
    pub backend: SiteCliBackend,
    pub operation: &'static str,
    /// What follows the operation.
    pub args: Vec<String>,
    /// Where to run it, if not in the current directory.
    pub current_dir: Option<String>,
}

pub struct CommandView {
    pub backend: BackendView,
    pub operation: Seq<char>,
    pub args: Seq<Seq<char>>,
    pub current_dir: Option<Seq<char>>,
}

impl View for SiteCommand {
    type V = CommandView;

    open spec fn view(&self) -> CommandView {
        CommandView {
            backend: self.backend@,
            operation: self.operation@,
            args: text::texts(self.args@),
            current_dir: text::opt_text(self.current_dir),
        }
    }
}

/// What running a command came to.
#[derive(Debug)]
pub struct CommandOutput {
    pub success: bool,
    pub stdout: Vec<u8>,
    pub stderr: Vec<u8>,
}

/// Whether a line of stderr is more than a deprecation warning.
pub open spec fn telling(line: Seq<char>) -> bool {
    !"Deprecated:"@.is_prefix_of(line)
}

/// The lines of stderr that are more than deprecation warnings, trimmed as a
/// whole.
pub open spec fn filtered(stderr: Seq<char>) -> Seq<char> {
    scan::trimmed(
        scan::glued(scan::lines_of(stderr).filter(|l: Seq<char>| telling(l)), "\n"@),
        Class::Space,
    )
}

/// Filter PHP deprecation warnings from stderr.
///
/// Valet's PHP code triggers deprecation warnings on PHP 8.4+ (implicit
/// nullable parameters). These are harmless noise — strip them so users only
/// see real errors.
pub fn filter_lines(stderr: &str) -> (r: String)
    ensures
        r@ == filtered(stderr@),
{
    let lines: Vec<String> = scan::lines(stderr);
    let mut kept: Vec<String> = Vec::new();
    let ghost all = scan::lines_of(stderr@);
    let ghost good = |l: Seq<char>| telling(l);
    let mut i: usize = 0;
    proof {
        reveal(Seq::filter);
        assert(all.take(0) =~= Seq::empty());
        assert(text::texts(kept@) =~= all.take(0).filter(good));
    }
    while i < lines.len()
        invariant
            i <= lines.len(),
            text::texts(lines@) == all,
            good == (|l: Seq<char>| telling(l)),
            text::texts(kept@) == all.take(i as int).filter(good),
        decreases lines.len() - i,
    {
        let ghost before = kept@;
        let ghost t = all.take(i + 1);
        assert(all[i as int] == lines@[i as int]@);
        if !text::starts_with(lines[i].as_str(), "Deprecated:") {
            let line: String = lines[i].clone();
            kept.push(line);
            proof {
                assert(text::texts(kept@) =~= text::texts(before).push(all[i as int]));
            }
        }
        proof {
            reveal(Seq::filter);
            assert(t.drop_last() =~= all.take(i as int));
            assert(t.last() == all[i as int]);
        }
        i = i + 1;
    }
    proof {
        assert(all.take(i as int) =~= all);
    }
    let joined: String = scan::glue(&kept, "\n");
    scan::trim(joined.as_str(), Class::Space)
}

/// What a command has to say, or its failure.
pub open spec fn verdict(c: CommandView, success: bool, stdout: Seq<char>, stderr: Seq<char>) -> Result<
    Seq<char>,
    Seq<char>,
> {
    if success {
        Ok(scan::trimmed(stdout, Class::Space))
    } else {
        Err(
            backend_name(c.backend.kind) + " "@ + c.operation + " failed: "@ + filtered(stderr),
        )
    }
}

impl SiteCommand {
    /// What the command has to say, given its output as text.
    pub fn report(&self, success: bool, stdout: &str, stderr: &str) -> (r: Result<String, String>)
        ensures
            fs::text_result(r) == verdict(self@, success, stdout@, stderr@),
    {
        if success {
            return Ok(scan::trim(stdout, Class::Space));
        }
        let why: String = filter_lines(stderr);
        Err(
            text::cat5(
                self.backend.kind.display_name(),
                " ",
                self.operation,
                " failed: ",
                why.as_str(),
            ),
        )
    }

    /// What running the command came to: its trimmed output, that it failed
    /// and why, or that it could not be run.
    pub fn finish(&self, ran: Result<CommandOutput, String>) -> (r: Result<String, String>)
        ensures
            fs::text_result(r) == match ran {
                Err(_) => Err(
                    "Failed to run "@ + backend_name(self@.backend.kind) + " "@ + self@.operation,
                ),
                Ok(out) => verdict(
                    self@,
                    out.success,
                    lossy_text(out.stdout@),
                    lossy_text(out.stderr@),
                ),
            },
    {
        match ran {
            Err(_) => Err(
                text::cat4(
                    "Failed to run ",
                    self.backend.kind.display_name(),
                    " ",
                    self.operation,
                ),
            ),
            Ok(out) => {
                let stdout: String = utf8::decode_lossy(out.stdout.as_slice());
                let stderr: String = utf8::decode_lossy(out.stderr.as_slice());
                self.report(out.success, stdout.as_str(), stderr.as_str())
            },
        }
    }
}

/// Compatibility wrapper for the site-management CLI.
///
/// Valet remains the default backend. When Herd is running, Hearth delegates
/// the site commands that Herd owns to Herd's CLI instead, because a
/// Herd-managed Valet installation hides those commands.
///
/// Isolate deliberately remains Valet-only: Herd's CLI does not expose a
/// compatible isolate command.
pub struct ValetCli {
    pub herd_running: bool,
    pub config_dir: Option<String>,
    pub home_dir: Option<String>,
}

pub open spec fn opt_args(name: Option<Seq<char>>) -> Seq<Seq<char>> {
    match name {
        Some(n) => seq![n],
        None => Seq::empty(),
    }
}

pub open spec fn command_view(r: Result<SiteCommand, String>) -> Result<CommandView, Seq<char>> {
    match r {
        Ok(c) => Ok(c@),
        Err(e) => Err(e@),
    }
}

impl ValetCli {
    /// The backend that this host has for a policy.
    pub open spec fn backend(&self, policy: BackendPolicy, d: Disk) -> Result<
        BackendView,
        Seq<char>,
    > {
        backend_verdict(
            policy,
            self.herd_running,
            text::opt_text(self.config_dir),
            text::opt_text(self.home_dir),
            d,
        )
    }

    /// The command for an operation on this host, if it has a backend.
    pub open spec fn command(
        &self,
        policy: BackendPolicy,
        operation: Seq<char>,
        args: Seq<Seq<char>>,
        current_dir: Option<Seq<char>>,
        d: Disk,
    ) -> Result<CommandView, Seq<char>> {
        match self.backend(policy, d) {
            Ok(backend) => Ok(CommandView { backend, operation, args, current_dir }),
            Err(e) => Err(e),
        }
    }

    fn selected_backend(&self, policy: BackendPolicy, disk: &Snapshot) -> (r: Result<
        SiteCliBackend,
        String,
    >)
        requires
            disk.wf(),
        ensures
            backend_view(r) == self.backend(policy, disk@),
    {
        let config_dir: Option<&str> = match &self.config_dir {
            Some(c) => Some(c.as_str()),
            None => None,
        };
        let home_dir: Option<&str> = match &self.home_dir {
            Some(h) => Some(h.as_str()),
            None => None,
        };
        SiteCliBackend::select(policy, self.herd_running, config_dir, home_dir, disk)
    }

    fn prepare(
        &self,
        policy: BackendPolicy,
        operation: &'static str,
        args: Vec<String>,
        current_dir: Option<String>,
        disk: &Snapshot,
    ) -> (r: Result<SiteCommand, String>)
        requires
            disk.wf(),
        ensures
            command_view(r) == self.command(
                policy,
                operation@,
                text::texts(args@),
                text::opt_text(current_dir),
                disk@,
            ),
    {
        match self.selected_backend(policy, disk) {
            Ok(backend) => Ok(SiteCommand { backend, operation, args, current_dir }),
            Err(e) => Err(e),
        }
    }

    /// Link the current directory as a site.
    pub fn link(&self, name: Option<&str>, disk: &Snapshot) -> (r: Result<SiteCommand, String>)
        requires
            disk.wf(),
        ensures
            command_view(r) == self.command(
                BackendPolicy::HerdAware,
                "link"@,
                opt_args(opt_str(name)),
                None,
                disk@,
            ),
    {
        self.prepare(BackendPolicy::HerdAware, "link", name_args(name), None, disk)
    }

    /// Link a directory as a site, running the command in the given directory.
    ///
    /// Unlike link(), this does not depend on the process's current directory.
    /// Safe for concurrent use from the MCP server.
    pub fn link_in(&self, working_dir: &str, name: Option<&str>, disk: &Snapshot) -> (r: Result<
        SiteCommand,
        String,
    >)
        requires
            disk.wf(),
        ensures
            command_view(r) == self.command(
                BackendPolicy::HerdAware,
                "link"@,
                opt_args(opt_str(name)),
                Some(working_dir@),
                disk@,
            ),
    {
        self.prepare(
            BackendPolicy::HerdAware,
            "link",
            name_args(name),
            Some(working_dir.to_owned()),
            disk,
        )
    }

    /// Unlink a site.
    pub fn unlink(&self, name: &str, disk: &Snapshot) -> (r: Result<SiteCommand, String>)
        requires
            disk.wf(),
        ensures
            command_view(r) == self.command(
                BackendPolicy::HerdAware,
                "unlink"@,
                seq![name@],
                None,
                disk@,
            ),
    {
        self.prepare(BackendPolicy::HerdAware, "unlink", name_args(Some(name)), None, disk)
    }

    /// Park a directory (all subdirectories become sites).
    pub fn park(&self, dir: &str, disk: &Snapshot) -> (r: Result<SiteCommand, String>)
        requires
            disk.wf(),
        ensures
            command_view(r) == self.command(
                BackendPolicy::HerdAware,
                "park"@,
                Seq::empty(),
                Some(dir@),
                disk@,
            ),
    {
        self.prepare(
            BackendPolicy::HerdAware,
            "park",
            name_args(None),
            Some(dir.to_owned()),
            disk,
        )
    }

    /// Secure a site with SSL.
    pub fn secure(&self, name: &str, disk: &Snapshot) -> (r: Result<SiteCommand, String>)
        requires
            disk.wf(),
        ensures
            command_view(r) == self.command(
                BackendPolicy::HerdAware,
                "secure"@,
                seq![name@],
                None,
                disk@,
            ),
    {
        self.prepare(BackendPolicy::HerdAware, "secure", name_args(Some(name)), None, disk)
    }

    /// Unsecure a site.
    pub fn unsecure(&self, name: &str, disk: &Snapshot) -> (r: Result<SiteCommand, String>)
        requires
            disk.wf(),
        ensures
            command_view(r) == self.command(
                BackendPolicy::HerdAware,
                "unsecure"@,
                seq![name@],
                None,
                disk@,
            ),
    {
        self.prepare(BackendPolicy::HerdAware, "unsecure", name_args(Some(name)), None, disk)
    }

    /// Isolate a site to a specific PHP version.
    ///
    /// This remains Valet-only because Herd does not expose a compatible
    /// isolate command. Keeping it on Valet preserves the existing argv
    /// contract instead of guessing at unsupported Herd behavior.
    pub fn isolate(&self, name: &str, php_version: &str, disk: &Snapshot) -> (r: Result<
        SiteCommand,
        String,
    >)
        requires
            disk.wf(),
        ensures
            command_view(r) == Ok::<CommandView, Seq<char>>(
                CommandView {
                    backend: valet_backend(),
                    operation: "isolate"@,
                    args: seq![name@, "--site="@ + name@, "php@"@ + php_version@],
                    current_dir: None,
                },
            ),
    {
        let mut args: Vec<String> = Vec::new();
        args.push(name.to_owned());
        args.push(text::cat2("--site=", name));
        args.push(text::cat2("php@", php_version));
        proof {
            assert(text::texts(args@) =~= seq![
                name@,
                "--site="@ + name@,
                "php@"@ + php_version@,
            ]);
        }
        self.prepare(BackendPolicy::ValetOnly, "isolate", args, None, disk)
    }
}

fn name_args(name: Option<&str>) -> (r: Vec<String>)
    ensures
        text::texts(r@) == opt_args(opt_str(name)),
{
    let mut args: Vec<String> = Vec::new();
    match name {
        Some(n) => {
            args.push(n.to_owned());
        },
        None => {},
    }
    proof {
        assert(text::texts(args@) =~= opt_args(opt_str(name)));
    }
    args
}

/// A host whose Herd is not running has Valet for every policy, and so has any
/// host for a policy that is Valet-only; Herd's CLI is used only while Herd
/// runs, and only where there is such a file.
pub proof fn herd_is_used_only_while_it_runs(cli: ValetCli, policy: BackendPolicy, d: Disk)
    ensures
        !cli.herd_running || policy == BackendPolicy::ValetOnly ==> cli.backend(policy, d) == Ok::<
            BackendView,
            Seq<char>,
        >(valet_backend()),
        match cli.backend(policy, d) {
            Ok(b) => b.kind == SiteBackendKind::Herd ==> cli.herd_running && policy
                == BackendPolicy::HerdAware && is_file(b.executable, d),
            Err(_) => cli.herd_running && policy == BackendPolicy::HerdAware,
        },
{
    first_file_is_a_file(
        herd_places(text::opt_text(cli.config_dir), text::opt_text(cli.home_dir)),
        d,
        0,
    );
}

proof fn first_file_is_a_file(places: Seq<Seq<char>>, d: Disk, i: int)
    requires
        0 <= i,
    ensures
        match first_file(places, d, i) {
            Some(p) => is_file(p, d),
            None => true,
        },
    decreases places.len() - i,
{
    if i < places.len() {
        first_file_is_a_file(places, d, i + 1);
    }
}

// ---- installation ----
/// What installing Valet waits for.
#[derive(Debug)]
pub enum InstallStage {
    /// Whether `valet --version` succeeds.
    Check,
    /// `composer global require laravel/valet`
    Require,
    /// `valet install`, which sets up Nginx, dnsmasq, etc.
    SetUp,
    Done { result: Result<(), String> },
}

pub enum InstallView {
    Check,
    Require,
    SetUp,
    Done { result: Result<(), Seq<char>> },
}

impl View for InstallStage {
    type V = InstallView;

    open spec fn view(&self) -> InstallView {
        match self {
            InstallStage::Check => InstallView::Check,
            InstallStage::Require => InstallView::Require,
            InstallStage::SetUp => InstallView::SetUp,
            InstallStage::Done { result } => InstallView::Done {
                result: match result {
                    Ok(_) => Ok(()),
                    Err(e) => Err(e@),
                },
            },
        }
    }
}

/// What a command of the installation came to: whether it could be run,
/// whether it succeeded, and its stderr.
pub open spec fn install_next(
    stage: InstallView,
    ran: bool,
    success: bool,
    stderr: Seq<char>,
) -> InstallView {
    match stage {
        InstallView::Check => if ran && success {
            InstallView::Done { result: Ok(()) }
        } else {
            InstallView::Require
        },
        InstallView::Require => if !ran {
            InstallView::Done {
                result: Err("Failed to run composer. Is Composer installed?"@),
            }
        } else if !success {
            InstallView::Done { result: Err("Valet installation failed: "@ + filtered(stderr)) }
        } else {
            InstallView::SetUp
        },
        InstallView::SetUp => if ran {
            InstallView::Done { result: Ok(()) }
        } else {
            InstallView::Done { result: Err("Failed to run valet install"@) }
        },
        InstallView::Done { result } => stage,
    }
}

impl InstallStage {
    /// One step of the installation, given what the command came to, with its
    /// stderr as text.
    pub fn step(self, ran: bool, success: bool, stderr: &str) -> (r: Self)
        ensures
            r@ == install_next(self@, ran, success, stderr@),
    {
        match self {
            InstallStage::Check => if ran && success {
                InstallStage::Done { result: Ok(()) }
            } else {
                InstallStage::Require
            },
            InstallStage::Require => if !ran {
                InstallStage::Done {
                    result: Err("Failed to run composer. Is Composer installed?".to_owned()),
                }
            } else if !success {
                let why: String = filter_lines(stderr);
                InstallStage::Done {
                    result: Err(text::cat2("Valet installation failed: ", why.as_str())),
                }
            } else {
                InstallStage::SetUp
            },
            InstallStage::SetUp => if ran {
                InstallStage::Done { result: Ok(()) }
            } else {
                InstallStage::Done { result: Err("Failed to run valet install".to_owned()) }
            },
            InstallStage::Done { result } => InstallStage::Done { result },
        }
    }

    /// The same, given the output as bytes.
    pub fn finish(self, ran: Result<CommandOutput, String>) -> (r: Self)
        ensures
            r@ == match ran {
                Err(_) => install_next(self@, false, false, Seq::empty()),
                Ok(out) => install_next(self@, true, out.success, lossy_text(out.stderr@)),
            },
    {
        match ran {
            Err(_) => {
                proof {
                    reveal_strlit("");
                    assert(""@ =~= Seq::empty());
                }
                self.step(false, false, "")
            },
            Ok(out) => {
                let stderr: String = utf8::decode_lossy(out.stderr.as_slice());
                self.step(true, out.success, stderr.as_str())
            },
        }
    }
}

impl ValetCli {
    /// Install Valet via Composer if not already installed.
    pub fn install() -> (r: InstallStage)
        ensures
            r@ is Check,
    {
        InstallStage::Check
    }

    /// Whether Valet is installed and available, by what `valet --version`
    /// came to.
    pub fn is_installed(ran: &Result<CommandOutput, String>) -> (r: bool)
        ensures
            r == match ran {
                Ok(out) => out.success,
                Err(_) => false,
            },
    {
        match ran {
            Ok(out) => out.success,
            Err(_) => false,
        }
    }
}

} // verus!
