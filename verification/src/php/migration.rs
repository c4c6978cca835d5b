//! Guarded import of legacy per-version INI files into the canonical store.
//! Every key and value passes the guard, and a value that is already
//! overridden is never replaced.

use crate::config::{IniStore, PhpIniSettings};
use crate::fs;
use crate::path;
use crate::php::ini_guard::{self, fault_said, key_fault, value_fault};
use crate::strmap::StrMap;
use crate::text;
use vstd::prelude::*;

verus! {

#[derive(Debug, Clone)]
pub struct SkippedDirective {
    pub version: String,
    pub key: String,
    pub reason: String,
}

pub struct SkippedDirectiveView {
    pub version: Seq<char>,
    pub key: Seq<char>,
    pub reason: Seq<char>,
}

impl View for SkippedDirective {
    type V = SkippedDirectiveView;

    open spec fn view(&self) -> SkippedDirectiveView {
        SkippedDirectiveView { version: self.version@, key: self.key@, reason: self.reason@ }
    }
}

#[derive(Debug, Clone)]
pub struct MigrationReport {
    pub imported: Vec<(String, String)>,
    pub skipped: Vec<SkippedDirective>,
    pub migrated_files: Vec<String>,
}

impl Default for MigrationReport {
    fn default() -> (r: Self)
        ensures
            r.imported@.len() == 0,
            r.skipped@.len() == 0,
            r.migrated_files@.len() == 0,
    {
        MigrationReport { imported: Vec::new(), skipped: Vec::new(), migrated_files: Vec::new() }
    }
}

pub open spec fn skipped_views(v: Seq<SkippedDirective>) -> Seq<SkippedDirectiveView> {
    v.map_values(|s: SkippedDirective| s@)
}

/// The store and what was reported so far.
#[verifier::ext_equal]
pub struct Import {
    pub store: IniStore,
    pub imported: Seq<(Seq<char>, Seq<char>)>,
    pub skipped: Seq<SkippedDirectiveView>,
}

/// The overrides of a version.
pub open spec fn overrides_of(store: IniStore, version: Seq<char>) -> Map<Seq<char>, Seq<char>> {
    if store.overrides.dom().contains(version) {
        store.overrides[version]
    } else {
        Map::empty()
    }
}

/// `store` with one override set.
pub open spec fn with_override(
    store: IniStore,
    version: Seq<char>,
    key: Seq<char>,
    value: Seq<char>,
) -> IniStore {
    IniStore {
        global: store.global,
        overrides: store.overrides.insert(
            version,
            overrides_of(store, version).insert(key, value),
        ),
    }
}

pub open spec fn skip(s: Import, version: Seq<char>, key: Seq<char>, reason: Seq<char>) -> Import {
    Import {
        skipped: s.skipped.push(SkippedDirectiveView { version, key, reason }),
        ..s
    }
}

/// One directive: skipped where the guard objects, imported where the version
/// has no override for it yet.
pub open spec fn import_one(
    s: Import,
    version: Seq<char>,
    key: Seq<char>,
    value: Seq<char>,
) -> Import {
    match (key_fault(key), value_fault(value)) {
        (Some(f), _) => skip(s, version, key, fault_said(f)),
        (None, Some(f)) => skip(s, version, key, fault_said(f)),
        (None, None) => if overrides_of(s.store, version).dom().contains(key) {
            s
        } else {
            Import {
                store: with_override(s.store, version, key, value),
                imported: s.imported.push((version, key)),
                skipped: s.skipped,
            }
        },
    }
}

/// The directives of one file, in their order.
pub open spec fn import_all(
    s: Import,
    version: Seq<char>,
    list: Seq<(Seq<char>, Seq<char>)>,
) -> Import
    decreases list.len(),
{
    if list.len() == 0 {
        s
    } else {
        import_one(
            import_all(s, version, list.drop_last()),
            version,
            list.last().0,
            list.last().1,
        )
    }
}

// ---- parsing ----
/// What the INI parser reads from a text: the sections in their order, each
/// with its keys and values in their order.
pub uninterp spec fn ini_sections(input: Seq<char>) -> Result<
    Seq<(Seq<char>, Seq<(Seq<char>, Option<Seq<char>>)>)>,
    Seq<char>,
>;

pub type Section = (String, Vec<(String, Option<String>)>);

pub open spec fn section_view(s: Section) -> (Seq<char>, Seq<(Seq<char>, Option<Seq<char>>)>) {
    (s.0@, s.1@.map_values(|p: (String, Option<String>)| (p.0@, text::opt_text(p.1))))
}

pub open spec fn parsed_view(r: Result<Vec<Section>, String>) -> Result<
    Seq<(Seq<char>, Seq<(Seq<char>, Option<Seq<char>>)>)>,
    Seq<char>,
> {
    match r {
        Ok(v) => Ok(v@.map_values(|s: Section| section_view(s))),
        Err(e) => Err(e@),
    }
}

/// `configparser::ini::Ini::read`, on a parser with its defaults: what it
/// returns is a function of the text. With the crate's `indexmap` feature,
/// which this library turns on, its maps are walked in insertion order.
#[verifier::external_body]
fn read_ini(input: &str) -> (r: Result<Vec<Section>, String>)
    ensures
        parsed_view(r) == ini_sections(input@),
{
    let map = configparser::ini::Ini::new().read(input.to_owned())?;
    Ok(map.into_iter().map(|(name, keys)| (name, keys.into_iter().collect())).collect())
}

/// The directives of one section; a key without a value has an empty one.
pub open spec fn section_directives(keys: Seq<(Seq<char>, Option<Seq<char>>)>) -> Seq<
    (Seq<char>, Seq<char>),
> {
    keys.map_values(
        |p: (Seq<char>, Option<Seq<char>>)|
            (
                p.0,
                match p.1 {
                    Some(v) => v,
                    None => Seq::empty(),
                },
            ),
    )
}

/// The directives of all sections, in their order.
pub open spec fn all_directives(
    sections: Seq<(Seq<char>, Seq<(Seq<char>, Option<Seq<char>>)>)>,
) -> Seq<(Seq<char>, Seq<char>)>
    decreases sections.len(),
{
    if sections.len() == 0 {
        Seq::empty()
    } else {
        all_directives(sections.drop_last()) + section_directives(sections.last().1)
    }
}

/// The directives of all sections, in their order.
pub fn flatten(sections: Vec<Section>) -> (r: Vec<(String, String)>)
    ensures
        text::text_pairs(r@) == all_directives(sections@.map_values(|s: Section| section_view(s))),
{
    let ghost all = sections@.map_values(|s: Section| section_view(s));
    let mut out: Vec<(String, String)> = Vec::new();
    let mut i: usize = 0;
    proof {
        assert(all.take(0) =~= Seq::empty());
        assert(text::text_pairs(out@) =~= Seq::empty());
    }
    while i < sections.len()
        invariant
            i <= sections@.len(),
            all == sections@.map_values(|s: Section| section_view(s)),
            text::text_pairs(out@) == all_directives(all.take(i as int)),
        decreases sections@.len() - i,
    {
        let keys: &Vec<(String, Option<String>)> = &sections[i].1;
        let ghost base = text::text_pairs(out@);
        let ghost here = section_directives(all[i as int].1);
        let mut j: usize = 0;
        proof {
            assert(base + here.take(0) =~= base);
        }
        while j < keys.len()
            invariant
                j <= keys@.len(),
                i < sections@.len(),
                *keys == sections@[i as int].1,
                all == sections@.map_values(|s: Section| section_view(s)),
                here == section_directives(all[i as int].1),
                text::text_pairs(out@) == base + here.take(j as int),
            decreases keys@.len() - j,
        {
            let value: String = match &keys[j].1 {
                Some(v) => v.clone(),
                None => String::new(),
            };
            let key: String = keys[j].0.clone();
            let ghost before = out@;
            proof {
                assert(all[i as int].1[j as int] == (keys@[j as int].0@, text::opt_text(keys@[j as int].1)));
                assert(here[j as int] == (key@, value@));
            }
            out.push((key, value));
            proof {
                assert(text::text_pairs(out@) =~= text::text_pairs(before).push((key@, value@)));
                assert(base + here.take(j + 1) =~= (base + here.take(j as int)).push(
                    here[j as int],
                ));
            }
            j = j + 1;
        }
        proof {
            assert(all[i as int].1.len() == keys@.len());
            assert(here.take(j as int) =~= here);
            assert(all.take(i + 1).drop_last() =~= all.take(i as int));
        }
        i = i + 1;
    }
    proof {
        assert(all.take(i as int) =~= all);
    }
    out
}

// ---- import ----
/// The report of a migration together with the store.
pub open spec fn import_view(ini: PhpIniSettings, report: MigrationReport) -> Import {
    Import {
        store: ini@,
        imported: text::text_pairs(report.imported@),
        skipped: skipped_views(report.skipped@),
    }
}

fn push_skip(report: &mut MigrationReport, version: &str, key: &str, reason: String)
    ensures
        skipped_views(final(report).skipped@) == skipped_views(old(report).skipped@).push(
            SkippedDirectiveView { version: version@, key: key@, reason: reason@ },
        ),
        final(report).imported == old(report).imported,
        final(report).migrated_files == old(report).migrated_files,
{
    let s = SkippedDirective { version: version.to_owned(), key: key.to_owned(), reason };
    report.skipped.push(s);
    proof {
        assert(skipped_views(report.skipped@) =~= skipped_views(old(report).skipped@).push(s@));
    }
}

/// Sets one override.
pub fn set_override(ini: &mut PhpIniSettings, version: &str, key: String, value: String)
    requires
        old(ini).wf(),
    ensures
        final(ini).wf(),
        final(ini)@ == with_override(old(ini)@, version@, key@, value@),
{
    let mut own: StrMap<String> = match ini.overrides.get(version) {
        Some(m) => m.dup(),
        None => StrMap::new(),
    };
    own.insert(key, value);
    ini.overrides.insert(version.to_owned(), own);
}

fn has_override(ini: &PhpIniSettings, version: &str, key: &str) -> (r: bool)
    requires
        ini.wf(),
    ensures
        r == overrides_of(ini@, version@).dom().contains(key@),
{
    match ini.overrides.get(version) {
        Some(m) => m.contains_key(key),
        None => false,
    }
}

fn import_directive(
    ini: &mut PhpIniSettings,
    report: &mut MigrationReport,
    version: &str,
    key: &str,
    value: &str,
)
    requires
        old(ini).wf(),
    ensures
        final(ini).wf(),
        import_view(*final(ini), *final(report)) == import_one(
            import_view(*old(ini), *old(report)),
            version@,
            key@,
            value@,
        ),
        final(report).migrated_files == old(report).migrated_files,
{
    match ini_guard::validate_key(key) {
        Err(e) => {
            push_skip(report, version, key, e.message());
            return ;
        },
        Ok(_) => {},
    }
    match ini_guard::validate_value(value) {
        Err(e) => {
            push_skip(report, version, key, e.message());
            return ;
        },
        Ok(_) => {},
    }
    if !has_override(ini, version, key) {
        set_override(ini, version, key.to_owned(), value.to_owned());
        let pair = (version.to_owned(), key.to_owned());
        report.imported.push(pair);
        proof {
            assert(text::text_pairs(report.imported@) =~= text::text_pairs(
                old(report).imported@,
            ).push((version@, key@)));
        }
    }
}

/// Imports the directives of one file into the overrides of a version.
pub fn import_directives(
    ini: &mut PhpIniSettings,
    report: &mut MigrationReport,
    version: &str,
    list: &Vec<(String, String)>,
)
    requires
        old(ini).wf(),
    ensures
        final(ini).wf(),
        import_view(*final(ini), *final(report)) == import_all(
            import_view(*old(ini), *old(report)),
            version@,
            text::text_pairs(list@),
        ),
        final(report).migrated_files == old(report).migrated_files,
{
    let ghost all = text::text_pairs(list@);
    let ghost start = import_view(*ini, *report);
    let mut i: usize = 0;
    proof {
        assert(all.take(0) =~= Seq::empty());
    }
    while i < list.len()
        invariant
            i <= list@.len(),
            ini.wf(),
            all == text::text_pairs(list@),
            import_view(*ini, *report) == import_all(start, version@, all.take(i as int)),
            report.migrated_files == old(report).migrated_files,
        decreases list@.len() - i,
    {
        proof {
            assert(all.take(i + 1).drop_last() =~= all.take(i as int));
            assert(all.take(i + 1).last() == (list@[i as int].0@, list@[i as int].1@));
        }
        import_directive(ini, report, version, list[i].0.as_str(), list[i].1.as_str());
        i = i + 1;
    }
    proof {
        assert(all.take(i as int) =~= all);
    }
}

/// A legacy file: the version that it is for, where it is, and its text.
#[derive(Debug)]
pub struct LegacyFile {
    pub version: String,
    pub path: String,
    pub input: Result<String, String>,
}

/// What a file that cannot be read is reported as.
pub open spec fn unreadable_reason(p: Seq<char>, why: Seq<char>) -> Seq<char> {
    "unparseable legacy INI "@ + p + ": couldn't read "@ + p + ": "@ + why
}

/// What one legacy file comes to, given what was read from it.
pub open spec fn import_file(
    s: Import,
    version: Seq<char>,
    p: Seq<char>,
    parsed: Result<Seq<(Seq<char>, Seq<(Seq<char>, Option<Seq<char>>)>)>, Seq<char>>,
) -> Import {
    match parsed {
        Err(why) => skip(s, version, Seq::empty(), unreadable_reason(p, why)),
        Ok(sections) => import_all(s, version, all_directives(sections)),
    }
}

/// Imports one legacy file, given what was read from it; says whether it may
/// be retired.
pub fn import_parsed(
    ini: &mut PhpIniSettings,
    report: &mut MigrationReport,
    version: &str,
    p: &str,
    parsed: Result<Vec<Section>, String>,
) -> (r: bool)
    requires
        old(ini).wf(),
    ensures
        final(ini).wf(),
        import_view(*final(ini), *final(report)) == import_file(
            import_view(*old(ini), *old(report)),
            version@,
            p@,
            parsed_view(parsed),
        ),
        r == (parsed is Ok),
        final(report).migrated_files == old(report).migrated_files,
{
    match parsed {
        Err(why) => {
            let head: String = text::cat3("unparseable legacy INI ", p, ": couldn't read ");
            push_skip(report, version, "", text::cat4(head.as_str(), p, ": ", why.as_str()));
            proof {
                reveal_strlit("");
                assert(""@ =~= Seq::<char>::empty());
                assert("unparseable legacy INI "@ + p@ + ": couldn't read "@ + p@ + ": "@ + why@
                    =~= unreadable_reason(p@, why@));
            }
            false
        },
        Ok(sections) => {
            let list: Vec<(String, String)> = flatten(sections);
            import_directives(ini, report, version, &list);
            true
        },
    }
}

/// What is read from a legacy file.
pub open spec fn file_parsed(input: Result<Seq<char>, Seq<char>>) -> Result<
    Seq<(Seq<char>, Seq<(Seq<char>, Option<Seq<char>>)>)>,
    Seq<char>,
> {
    match input {
        Ok(t) => ini_sections(t),
        Err(e) => Err(e),
    }
}

/// A legacy file, by what it holds.
pub struct LegacyView {
    pub version: Seq<char>,
    pub path: Seq<char>,
    pub input: Result<Seq<char>, Seq<char>>,
}

impl View for LegacyFile {
    type V = LegacyView;

    open spec fn view(&self) -> LegacyView {
        LegacyView {
            version: self.version@,
            path: self.path@,
            input: fs::text_result(self.input),
        }
    }
}

pub open spec fn legacy_views(v: Seq<LegacyFile>) -> Seq<LegacyView> {
    v.map_values(|f: LegacyFile| f@)
}

/// What all legacy files come to, in their order.
pub open spec fn import_files(s: Import, files: Seq<LegacyView>) -> Import
    decreases files.len(),
{
    if files.len() == 0 {
        s
    } else {
        let f = files.last();
        import_file(
            import_files(s, files.drop_last()),
            f.version,
            f.path,
            file_parsed(f.input),
        )
    }
}

/// The files that may be retired: those that could be parsed.
pub open spec fn retired(files: Seq<LegacyView>) -> Seq<Seq<char>>
    decreases files.len(),
{
    if files.len() == 0 {
        Seq::empty()
    } else {
        let before = retired(files.drop_last());
        if file_parsed(files.last().input) is Ok {
            before.push(files.last().path)
        } else {
            before
        }
    }
}

/// What a migration asks for: which files to retire once the store is saved,
/// and whether the store has to be saved at all.
#[derive(Debug)]
pub struct MigrationPlan {
    pub report: MigrationReport,
    pub to_retire: Vec<String>,
    pub must_save: bool,
}

/// Imports legacy files into the overrides of their version, every key/value
/// gated through the guard. Nothing but the store changes.
pub fn stage_imports(ini: &mut PhpIniSettings, files: &Vec<LegacyFile>) -> (r: MigrationPlan)
    requires
        old(ini).wf(),
    ensures
        final(ini).wf(),
        import_view(*final(ini), r.report) == import_files(
            Import { store: old(ini)@, imported: Seq::empty(), skipped: Seq::empty() },
            legacy_views(files@),
        ),
        r.report.migrated_files@.len() == 0,
        text::texts(r.to_retire@) == retired(legacy_views(files@)),
        r.must_save == (r.to_retire@.len() > 0 && final(ini)@ != old(ini)@),
{
    let snapshot: PhpIniSettings = ini.dup();
    let mut report: MigrationReport = MigrationReport::default();
    let mut to_retire: Vec<String> = Vec::new();
    let ghost all = legacy_views(files@);
    let ghost start = Import {
        store: old(ini)@,
        imported: Seq::<(Seq<char>, Seq<char>)>::empty(),
        skipped: Seq::<SkippedDirectiveView>::empty(),
    };
    let mut i: usize = 0;
    proof {
        assert(all.take(0) =~= Seq::empty());
        assert(text::text_pairs(report.imported@) =~= Seq::empty());
        assert(skipped_views(report.skipped@) =~= Seq::empty());
        assert(text::texts(to_retire@) =~= Seq::empty());
    }
    while i < files.len()
        invariant
            i <= files@.len(),
            ini.wf(),
            all == legacy_views(files@),
            import_view(*ini, report) == import_files(start, all.take(i as int)),
            text::texts(to_retire@) == retired(all.take(i as int)),
            report.migrated_files@.len() == 0,
        decreases files@.len() - i,
    {
        let f: &LegacyFile = &files[i];
        proof {
            assert(all.take(i + 1).drop_last() =~= all.take(i as int));
            assert(all.take(i + 1).last() == f@);
        }
        let parsed: Result<Vec<Section>, String> = match &f.input {
            Ok(t) => read_ini(t.as_str()),
            Err(e) => Err(e.clone()),
        };
        if import_parsed(ini, &mut report, f.version.as_str(), f.path.as_str(), parsed) {
            let ghost before = to_retire@;
            to_retire.push(f.path.clone());
            proof {
                assert(text::texts(to_retire@) =~= text::texts(before).push(f.path@));
            }
        }
        i = i + 1;
    }
    proof {
        assert(all.take(i as int) =~= all);
    }
    let must_save: bool = to_retire.len() > 0 && !ini.same(&snapshot);
    MigrationPlan { report, to_retire, must_save }
}

/// The name under which a legacy file is retired, at the `attempt`-th try.
pub open spec fn backup_name(attempt: nat) -> Seq<char> {
    if attempt == 0 {
        "php.ini.migrated.bak"@
    } else {
        "php.ini.migrated.bak."@ + text::decimal(attempt)
    }
}

/// Where a legacy file is retired to, at the `attempt`-th try: beside itself,
/// under a name of its own.
pub fn backup_path(legacy: &str, attempt: u32) -> (r: String)
    ensures
        r@ == path::joined(path::dir_of(legacy@), backup_name(attempt as nat)),
{
    let dir: String = path::directory(legacy);
    let name: String = if attempt == 0 {
        "php.ini.migrated.bak".to_owned()
    } else {
        let n: String = text::decimal_string(attempt as u64);
        text::cat2("php.ini.migrated.bak.", n.as_str())
    };
    path::join(dir.as_str(), name.as_str())
}

// ---- the run ----
/// What a migration waits for.
pub enum MigrationStage {
    /// The save of the store; the store before the imports is kept.
    Saving { prior: PhpIniSettings },
    /// Whether the backup name of this try is taken, for the file at this
    /// place.
    Retiring { at: usize, attempt: u32 },
    /// The rename of the file to the free backup name, made durable.
    Renaming { at: usize, attempt: u32 },
    Done { result: Result<(), String> },
}

pub enum MigrationStageView {
    Saving { prior: IniStore },
    Retiring { at: int, attempt: nat },
    Renaming { at: int, attempt: nat },
    Done { result: Result<(), Seq<char>> },
}

impl View for MigrationStage {
    type V = MigrationStageView;

    open spec fn view(&self) -> MigrationStageView {
        match self {
            MigrationStage::Saving { prior } => MigrationStageView::Saving { prior: prior@ },
            MigrationStage::Retiring { at, attempt } => MigrationStageView::Retiring {
                at: *at as int,
                attempt: *attempt as nat,
            },
            MigrationStage::Renaming { at, attempt } => MigrationStageView::Renaming {
                at: *at as int,
                attempt: *attempt as nat,
            },
            MigrationStage::Done { result } => MigrationStageView::Done {
                result: match result {
                    Ok(_) => Ok(()),
                    Err(e) => Err(e@),
                },
            },
        }
    }
}

/// What a migration was told.
#[derive(Debug)]
pub enum MigrationReply {
    /// Whether a save or a rename went through.
    Did(Result<(), String>),
    /// Whether the backup name is taken.
    Taken(bool),
}

pub enum MigrationReplyView {
    Did(Result<(), Seq<char>>),
    Taken(bool),
}

impl View for MigrationReply {
    type V = MigrationReplyView;

    open spec fn view(&self) -> MigrationReplyView {
        match self {
            MigrationReply::Did(r) => MigrationReplyView::Did(
                match r {
                    Ok(_) => Ok(()),
                    Err(e) => Err(e@),
                },
            ),
            MigrationReply::Taken(b) => MigrationReplyView::Taken(*b),
        }
    }
}

/// A migration under way: the store with the imports, what is reported, and the
/// files to retire.
pub struct MigrationRun {
    pub store: PhpIniSettings,
    pub report: MigrationReport,
    pub to_retire: Vec<String>,
    pub stage: MigrationStage,
}

#[verifier::ext_equal]
pub struct MigrationView {
    /// The store and what was imported and skipped.
    pub staged: Import,
    /// The files that were retired.
    pub migrated: Seq<Seq<char>>,
    pub to_retire: Seq<Seq<char>>,
    pub stage: MigrationStageView,
}

impl View for MigrationRun {
    type V = MigrationView;

    open spec fn view(&self) -> MigrationView {
        MigrationView {
            staged: import_view(self.store, self.report),
            migrated: text::texts(self.report.migrated_files@),
            to_retire: text::texts(self.to_retire@),
            stage: self.stage@,
        }
    }
}

impl MigrationRun {
    pub open spec fn wf(&self) -> bool {
        &&& self.store.wf()
        &&& match self.stage {
            MigrationStage::Saving { prior } => prior.wf(),
            _ => true,
        }
    }
}

/// Where a legacy file is retired to, at a try.
pub open spec fn backup_of(legacy: Seq<char>, attempt: nat) -> Seq<char> {
    path::joined(path::dir_of(legacy), backup_name(attempt))
}

/// On to the file at a place; the end, where there is none.
pub open spec fn retiring(v: MigrationView, at: int) -> MigrationView {
    MigrationView {
        stage: if at < v.to_retire.len() {
            MigrationStageView::Retiring { at, attempt: 0 }
        } else {
            MigrationStageView::Done { result: Ok(()) }
        },
        ..v
    }
}

/// How a migration starts: everything is imported in memory, and a store that
/// changed is saved before any file is retired.
pub open spec fn migration_begin(store: IniStore, files: Seq<LegacyView>) -> MigrationView {
    let staged = import_files(
        Import { store, imported: Seq::empty(), skipped: Seq::empty() },
        files,
    );
    let v = MigrationView {
        staged,
        migrated: Seq::empty(),
        to_retire: retired(files),
        stage: MigrationStageView::Saving { prior: store },
    };
    if v.to_retire.len() > 0 && staged.store != store {
        v
    } else {
        retiring(v, 0)
    }
}

/// One step of a migration. A reply that the stage does not wait for changes
/// nothing.
pub open spec fn migration_next(v: MigrationView, reply: MigrationReplyView) -> MigrationView {
    match (v.stage, reply) {
        (MigrationStageView::Saving { prior }, MigrationReplyView::Did(Ok(_))) => retiring(v, 0),
        (MigrationStageView::Saving { prior }, MigrationReplyView::Did(Err(e))) => MigrationView {
            staged: Import { store: prior, ..v.staged },
            stage: MigrationStageView::Done { result: Err(e) },
            ..v
        },
        (MigrationStageView::Retiring { at, attempt }, MigrationReplyView::Taken(taken)) =>
            MigrationView {
                stage: if taken {
                    MigrationStageView::Retiring { at, attempt: attempt + 1 }
                } else {
                    MigrationStageView::Renaming { at, attempt }
                },
                ..v
            },
        (MigrationStageView::Renaming { at, attempt }, MigrationReplyView::Did(Ok(_))) => if 0 <= at
            < v.to_retire.len() {
            retiring(MigrationView { migrated: v.migrated.push(v.to_retire[at]), ..v }, at + 1)
        } else {
            v
        },
        (MigrationStageView::Renaming { at, attempt }, MigrationReplyView::Did(Err(e))) =>
            MigrationView { stage: MigrationStageView::Done { result: Err(e) }, ..v },
        _ => v,
    }
}

/// Import legacy `php/{v}/php.ini` files into the overrides of their version,
/// every key/value gated through the guard. Nothing on disk is touched before
/// the canonical store was saved: the legacy file is the only automatic import
/// source, so it must survive any persistence failure. The rename to
/// `php.ini.migrated.bak[.N]` is the idempotency marker; a second run finds no
/// `php.ini` and is a no-op.
pub fn migrate_legacy_inis(store: PhpIniSettings, files: &Vec<LegacyFile>) -> (r: MigrationRun)
    requires
        store.wf(),
    ensures
        r.wf(),
        r@ == migration_begin(store@, legacy_views(files@)),
{
    let prior: PhpIniSettings = store.dup();
    let mut staged: PhpIniSettings = store;
    let plan: MigrationPlan = stage_imports(&mut staged, files);
    let MigrationPlan { report, to_retire, must_save } = plan;
    proof {
        assert(text::texts(to_retire@).len() == to_retire@.len());
    }
    let stage = if must_save {
        MigrationStage::Saving { prior }
    } else if to_retire.len() > 0 {
        MigrationStage::Retiring { at: 0, attempt: 0 }
    } else {
        MigrationStage::Done { result: Ok(()) }
    };
    let r = MigrationRun { store: staged, report, to_retire, stage };
    proof {
        assert(text::texts(r.report.migrated_files@) =~= Seq::empty());
        assert(r@ =~= migration_begin(prior@, legacy_views(files@)));
    }
    r
}

impl MigrationRun {
    pub fn is_done(&self) -> (r: bool)
        ensures
            r == (self@.stage is Done),
    {
        match &self.stage {
            MigrationStage::Done { result: _ } => true,
            _ => false,
        }
    }

    /// The file that is being retired and the name that is tried for it.
    pub fn retirement(&self) -> (r: Option<(String, String)>)
        ensures
            match self@.stage {
                MigrationStageView::Retiring { at, attempt } => retirement_is(r, self@, at, attempt),
                MigrationStageView::Renaming { at, attempt } => retirement_is(r, self@, at, attempt),
                _ => r is None,
            },
    {
        let (at, attempt): (usize, u32) = match &self.stage {
            MigrationStage::Retiring { at, attempt } => (*at, *attempt),
            MigrationStage::Renaming { at, attempt } => (*at, *attempt),
            _ => {
                return None;
            },
        };
        if at < self.to_retire.len() {
            proof {
                assert(self@.to_retire[at as int] == self.to_retire@[at as int]@);
            }
            let legacy: &String = &self.to_retire[at];
            Some((legacy.clone(), backup_path(legacy.as_str(), attempt)))
        } else {
            None
        }
    }

    fn retire_from(&mut self, at: usize)
        requires
            old(self).wf(),
        ensures
            final(self).wf(),
            final(self)@ == retiring(old(self)@, at as int),
    {
        if at < self.to_retire.len() {
            self.stage = MigrationStage::Retiring { at, attempt: 0 };
        } else {
            self.stage = MigrationStage::Done { result: Ok(()) };
        }
        proof {
            assert(self@ =~= retiring(old(self)@, at as int));
        }
    }

    /// Takes the reply that the stage waits for and moves on.
    pub fn step(&mut self, reply: MigrationReply)
        requires
            old(self).wf(),
            old(self)@.stage matches MigrationStageView::Retiring { at, attempt } ==> attempt
                < u32::MAX,
        ensures
            final(self).wf(),
            final(self)@ == migration_next(old(self)@, reply@),
    {
        let ghost v = self@;
        let mut stage = MigrationStage::Done { result: Ok(()) };
        std::mem::swap(&mut self.stage, &mut stage);
        match (stage, reply) {
            (MigrationStage::Saving { prior }, MigrationReply::Did(done)) => match done {
                Ok(_) => {
                    self.retire_from(0);
                },
                Err(e) => {
                    self.store = prior;
                    self.stage = MigrationStage::Done { result: Err(e) };
                },
            },
            (MigrationStage::Retiring { at, attempt }, MigrationReply::Taken(taken)) => {
                self.stage = if taken {
                    MigrationStage::Retiring { at, attempt: attempt + 1 }
                } else {
                    MigrationStage::Renaming { at, attempt }
                };
            },
            (MigrationStage::Renaming { at, attempt }, MigrationReply::Did(done)) => match done {
                Ok(_) => {
                    if at < self.to_retire.len() {
                        let legacy: String = self.to_retire[at].clone();
                        let ghost before = self.report.migrated_files@;
                        self.report.migrated_files.push(legacy);
                        proof {
                            assert(v.to_retire[at as int] == self.to_retire@[at as int]@);
                            assert(text::texts(self.report.migrated_files@) =~= text::texts(
                                before,
                            ).push(legacy@));
                        }
                        self.retire_from(at + 1);
                    } else {
                        self.stage = MigrationStage::Renaming { at, attempt };
                    }
                },
                Err(e) => {
                    self.stage = MigrationStage::Done { result: Err(e) };
                },
            },
            (other, _) => {
                self.stage = other;
            },
        }
        proof {
            assert(self@ =~= migration_next(v, reply@));
        }
    }

    /// The store, and how the migration ended. A store that could not be saved
    /// is the one from before.
    pub fn into_result(self) -> (r: (PhpIniSettings, Result<MigrationReport, String>))
        requires
            self.wf(),
            self@.stage is Done,
        ensures
            r.0.wf(),
            r.0@ == self@.staged.store,
            match (self@.stage, r.1) {
                (MigrationStageView::Done { result: Ok(_) }, Ok(report)) => text::texts(
                    report.migrated_files@,
                ) == self@.migrated && text::text_pairs(report.imported@) == self@.staged.imported
                    && skipped_views(report.skipped@) == self@.staged.skipped,
                (MigrationStageView::Done { result: Err(a) }, Err(b)) => a == b@,
                _ => false,
            },
    {
        let result: Result<MigrationReport, String> = match self.stage {
            MigrationStage::Done { result: Err(e) } => Err(e),
            _ => Ok(self.report),
        };
        (self.store, result)
    }
}

/// What is said of the retirement under way.
pub open spec fn retirement_is(
    r: Option<(String, String)>,
    v: MigrationView,
    at: int,
    attempt: nat,
) -> bool {
    match r {
        Some(p) => 0 <= at < v.to_retire.len() && p.0@ == v.to_retire[at] && p.1@ == backup_of(
            v.to_retire[at],
            attempt,
        ),
        None => !(0 <= at < v.to_retire.len()),
    }
}

// ---- laws ----
/// A migration after some replies, with the store as it was last saved.
pub struct MigrationModel {
    pub run: MigrationView,
    pub durable: IniStore,
}

pub open spec fn migration_after(
    store: IniStore,
    files: Seq<LegacyView>,
    replies: Seq<MigrationReplyView>,
) -> MigrationModel
    decreases replies.len(),
{
    if replies.len() == 0 {
        MigrationModel { run: migration_begin(store, files), durable: store }
    } else {
        let s = migration_after(store, files, replies.drop_last());
        let reply = replies.last();
        MigrationModel {
            run: migration_next(s.run, reply),
            durable: if s.run.stage is Saving && reply is Did && reply->Did_0 is Ok {
                s.run.staged.store
            } else {
                s.durable
            },
        }
    }
}

/// What a migration can have come to.
spec fn migration_inv(store: IniStore, files: Seq<LegacyView>, s: MigrationModel) -> bool {
    let first = migration_begin(store, files);
    &&& s.run.to_retire == retired(files)
    &&& match s.run.stage {
        MigrationStageView::Saving { prior } => prior == store && s.durable == store
            && s.run.staged == first.staged && retired(files).len() > 0 && s.run.migrated
            == Seq::<Seq<char>>::empty(),
        MigrationStageView::Retiring { at, attempt } => s.durable == first.staged.store
            && s.run.staged == first.staged && 0 <= at < retired(files).len() && s.run.migrated
            == retired(files).take(at),
        MigrationStageView::Renaming { at, attempt } => s.durable == first.staged.store
            && s.run.staged == first.staged && 0 <= at < retired(files).len() && s.run.migrated
            == retired(files).take(at),
        MigrationStageView::Done { result: Ok(_) } => s.durable == s.run.staged.store
            && s.run.staged == first.staged && s.run.migrated == retired(files)
            || retired(files).len() == 0 && s.run.migrated.len() == 0,
        MigrationStageView::Done { result: Err(_) } => s.durable == s.run.staged.store && (
        s.run.migrated.len() == 0 && s.run.staged.store == store || s.run.staged == first.staged),
    }
}

proof fn migration_inv_holds(
    store: IniStore,
    files: Seq<LegacyView>,
    replies: Seq<MigrationReplyView>,
)
    ensures
        migration_inv(store, files, migration_after(store, files, replies)),
    decreases replies.len(),
{
    let all = retired(files);
    assert(all.take(0) =~= Seq::empty());
    assert(all.take(all.len() as int) =~= all);
    if replies.len() > 0 {
        migration_inv_holds(store, files, replies.drop_last());
        let s = migration_after(store, files, replies.drop_last());
        match s.run.stage {
            MigrationStageView::Renaming { at, attempt } => {
                assert(all.take(at + 1) =~= all.take(at).push(all[at]));
            },
            _ => {},
        }
    }
}

/// No file is retired, and no name is even sought for one, before the store with
/// everything that was imported is durable.
pub proof fn nothing_is_retired_before_the_save(
    store: IniStore,
    files: Seq<LegacyView>,
    replies: Seq<MigrationReplyView>,
)
    ensures
        ({
            let s = migration_after(store, files, replies);
            s.run.stage is Retiring || s.run.stage is Renaming || s.run.migrated.len() > 0
                ==> s.durable == migration_begin(store, files).staged.store
        }),
{
    migration_inv_holds(store, files, replies);
}

/// A failed save ends the migration with the error, puts the store back, and
/// retires nothing.
pub proof fn failed_save_puts_the_store_back(
    store: IniStore,
    files: Seq<LegacyView>,
    replies: Seq<MigrationReplyView>,
    error: Seq<char>,
)
    requires
        migration_after(store, files, replies).run.stage is Saving,
    ensures
        ({
            let s = migration_after(
                store,
                files,
                replies.push(MigrationReplyView::Did(Err(error))),
            );
            &&& s.run.stage == (MigrationStageView::Done { result: Err(error) })
            &&& s.run.staged.store == store
            &&& s.run.migrated.len() == 0
        }),
{
    migration_inv_holds(store, files, replies);
    let more = replies.push(MigrationReplyView::Did(Err(error)));
    assert(more.drop_last() =~= replies);
    assert(more.last() == MigrationReplyView::Did(Err::<(), Seq<char>>(error)));
}

/// A migration that succeeds has retired exactly the files that could be parsed,
/// in their order, and its store holds everything that was imported.
pub proof fn successful_migration_retires_every_parsed_file(
    store: IniStore,
    files: Seq<LegacyView>,
    replies: Seq<MigrationReplyView>,
)
    requires
        migration_after(store, files, replies).run.stage == (MigrationStageView::Done {
            result: Ok(()),
        }),
        retired(files).len() > 0,
    ensures
        migration_after(store, files, replies).run.migrated == retired(files),
        migration_after(store, files, replies).run.staged == migration_begin(store, files).staged,
{
    migration_inv_holds(store, files, replies);
}

/// A migration after answers on whether the names it tries are taken.
pub open spec fn sought(v: MigrationView, taken: Seq<bool>) -> MigrationView
    decreases taken.len(),
{
    if taken.len() == 0 {
        v
    } else {
        migration_next(sought(v, taken.drop_last()), MigrationReplyView::Taken(taken.last()))
    }
}

/// A file is retired under the first free name: as long as the names are taken
/// the next is tried, and the first that is not is the one it is renamed to.
pub proof fn first_free_name_is_used(v: MigrationView, at: int, taken: Seq<bool>)
    requires
        v.stage == (MigrationStageView::Retiring { at, attempt: 0 }),
        forall|i: int| 0 <= i < taken.len() ==> #[trigger] taken[i],
    ensures
        sought(v, taken) == (MigrationView {
            stage: MigrationStageView::Retiring { at, attempt: taken.len() },
            ..v
        }),
        sought(v, taken.push(false)) == (MigrationView {
            stage: MigrationStageView::Renaming { at, attempt: taken.len() },
            ..v
        }),
    decreases taken.len(),
{
    assert(taken.push(false).drop_last() =~= taken);
    if taken.len() > 0 {
        assert forall|i: int| 0 <= i < taken.drop_last().len() implies #[trigger] taken.drop_last()[i] by {
            assert(taken[i]);
        }
        first_free_name_is_used(v, at, taken.drop_last());
        assert(taken[taken.len() - 1]);
    }
}

/// An import never changes an override that is there, nor a global value.
pub proof fn import_keeps_overrides(
    s: Import,
    version: Seq<char>,
    list: Seq<(Seq<char>, Seq<char>)>,
    other: Seq<char>,
    key: Seq<char>,
)
    requires
        overrides_of(s.store, other).dom().contains(key),
    ensures
        ({
            let t = import_all(s, version, list);
            &&& overrides_of(t.store, other).dom().contains(key)
            &&& overrides_of(t.store, other)[key] == overrides_of(s.store, other)[key]
            &&& t.store.global == s.store.global
        }),
    decreases list.len(),
{
    if list.len() > 0 {
        import_keeps_overrides(s, version, list.drop_last(), other, key);
    }
}

/// What an import adds to a version passes the guard.
pub proof fn imported_directives_are_accepted(
    s: Import,
    version: Seq<char>,
    list: Seq<(Seq<char>, Seq<char>)>,
    key: Seq<char>,
)
    requires
        !overrides_of(s.store, version).dom().contains(key),
        overrides_of(import_all(s, version, list).store, version).dom().contains(key),
    ensures
        ini_guard::key_accepted(key),
        ini_guard::value_accepted(
            overrides_of(import_all(s, version, list).store, version)[key],
        ),
    decreases list.len(),
{
    if list.len() > 0 {
        let before = import_all(s, version, list.drop_last());
        if overrides_of(before.store, version).dom().contains(key) {
            imported_directives_are_accepted(s, version, list.drop_last(), key);
            import_keeps_overrides(before, version, seq![list.last()], version, key);
        }
    }
}

/// A second import of the same directives changes nothing in the store.
pub proof fn import_is_idempotent(
    s: Import,
    version: Seq<char>,
    list: Seq<(Seq<char>, Seq<char>)>,
    t: Import,
)
    requires
        t.store == import_all(s, version, list).store,
    ensures
        import_all(t, version, list).store == t.store,
{
    reimport(s, version, list, t, list.len() as int);
    assert(list.take(list.len() as int) =~= list);
}

proof fn reimport(
    s: Import,
    version: Seq<char>,
    list: Seq<(Seq<char>, Seq<char>)>,
    t: Import,
    n: int,
)
    requires
        t.store == import_all(s, version, list).store,
        0 <= n <= list.len(),
    ensures
        import_all(t, version, list.take(n)).store == t.store,
    decreases n,
{
    if n > 0 {
        reimport(s, version, list, t, n - 1);
        let pre = list.take(n);
        assert(pre.drop_last() =~= list.take(n - 1));
        let key = list[n - 1].0;
        let value = list[n - 1].1;
        let after = import_all(s, version, pre);
        if key_fault(key) is None && value_fault(value) is None {
            assert(overrides_of(after.store, version).dom().contains(key));
            import_suffix_keeps(s, version, list, n, key);
        }
    } else {
        assert(list.take(0) =~= Seq::empty());
    }
}

proof fn import_suffix_keeps(
    s: Import,
    version: Seq<char>,
    list: Seq<(Seq<char>, Seq<char>)>,
    n: int,
    key: Seq<char>,
)
    requires
        0 <= n <= list.len(),
        overrides_of(import_all(s, version, list.take(n)).store, version).dom().contains(key),
    ensures
        overrides_of(import_all(s, version, list).store, version).dom().contains(key),
    decreases list.len() - n,
{
    if n < list.len() {
        assert(list.take(n + 1).drop_last() =~= list.take(n));
        import_suffix_keeps(s, version, list, n + 1, key);
    } else {
        assert(list.take(n) =~= list);
    }
}

} // verus!
