//! The configuration: ports, packages added to sites, and the canonical store
//! of PHP INI directives, a global map overlaid per PHP version by that
//! version's overrides.

use crate::strmap::{self, StrMap};
use crate::text;
use vstd::prelude::*;

verus! {

/// Directive names with their values.
pub type Directives = StrMap<String>;

/// What a store holds.
pub struct IniStore {
    pub global: Map<Seq<char>, Seq<char>>,
    pub overrides: Map<Seq<char>, Map<Seq<char>, Seq<char>>>,
}

pub struct PhpIniSettings {
    pub global: StrMap<String>,
    pub overrides: StrMap<StrMap<String>>,
}

impl View for PhpIniSettings {
    type V = IniStore;

    open spec fn view(&self) -> IniStore {
        IniStore { global: self.global@, overrides: self.overrides@ }
    }
}

/// The directives in force for a version: an override beats the global value.
pub open spec fn effective(store: IniStore, version: Seq<char>) -> Map<Seq<char>, Seq<char>> {
    if store.overrides.dom().contains(version) {
        store.global.union_prefer_right(store.overrides[version])
    } else {
        store.global
    }
}

/// An override of a version beats the global value, and every other directive
/// keeps its global value.
pub proof fn override_beats_global(store: IniStore, version: Seq<char>, name: Seq<char>)
    requires
        store.overrides.dom().contains(version),
    ensures
        store.overrides[version].dom().contains(name) ==> effective(
            store,
            version,
        ).contains_pair(name, store.overrides[version][name]),
        !store.overrides[version].dom().contains(name) && store.global.dom().contains(name)
            ==> effective(store, version).contains_pair(name, store.global[name]),
        effective(store, version).dom().contains(name) ==> store.overrides[version].dom().contains(
            name,
        ) || store.global.dom().contains(name),
{
}

impl Default for PhpIniSettings {
    fn default() -> (r: Self)
        ensures
            r.wf(),
            r@.global == Map::<Seq<char>, Seq<char>>::empty(),
            r@.overrides == Map::<Seq<char>, Map<Seq<char>, Seq<char>>>::empty(),
    {
        PhpIniSettings { global: StrMap::new(), overrides: StrMap::new() }
    }
}

impl PhpIniSettings {
    pub open spec fn wf(&self) -> bool {
        self.global.wf() && self.overrides.deep_wf()
    }

    /// The directives in force for `version`.
    pub fn effective_for(&self, version: &str) -> (r: StrMap<String>)
        requires
            self.wf(),
        ensures
            r.wf(),
            r@ == effective(self@, version@),
    {
        let mut out: StrMap<String> = self.global.dup();
        match self.overrides.get(version) {
            None => {},
            Some(own) => {
                let n: usize = own.len();
                let mut i: usize = 0;
                let ghost list = own.entries();
                proof {
                    assert(list.take(0) =~= Seq::empty());
                    assert(out@ =~= self.global@.union_prefer_right(strmap::to_map(list.take(0))));
                }
                while i < n
                    invariant
                        i <= n,
                        n == list.len(),
                        list == own.entries(),
                        own.wf(),
                        out.wf(),
                        out@ == self.global@.union_prefer_right(
                            strmap::to_map(list.take(i as int)),
                        ),
                    decreases n - i,
                {
                    out.insert(own.key_at(i).clone(), own.value_at(i).clone());
                    proof {
                        let t = list.take(i + 1);
                        assert(t.drop_last() =~= list.take(i as int));
                        assert(out@ =~= self.global@.union_prefer_right(strmap::to_map(t)));
                    }
                    i = i + 1;
                }
                proof {
                    assert(list.take(n as int) =~= list);
                }
            },
        }
        out
    }

    /// An owned copy.
    pub fn dup(&self) -> (r: Self)
        requires
            self.wf(),
        ensures
            r.wf(),
            r@ == self@,
    {
        PhpIniSettings { global: self.global.dup(), overrides: self.overrides.dup() }
    }

    /// Whether two stores hold the same.
    pub fn same(&self, other: &Self) -> (r: bool)
        requires
            self.wf(),
            other.wf(),
        ensures
            r == (self@ == other@),
    {
        self.global.same(&other.global) && self.overrides.same(&other.overrides)
    }
}

// ---- packages and ports ----
/// A package that was added to a site.
#[derive(Debug, Clone)]
pub struct AddedPackage {
    pub package: String,
    pub site_path: String,
    pub site_name: String,
    pub command: String,
    pub args: Vec<String>,
    pub php_version: Option<String>,
    /// Unix milliseconds.
    pub installed_at: u64,
}

/// What a package entry holds.
pub struct PackageView {
    pub package: Seq<char>,
    pub site_path: Seq<char>,
    pub site_name: Seq<char>,
    pub command: Seq<char>,
    pub args: Seq<Seq<char>>,
    pub php_version: Option<Seq<char>>,
    pub installed_at: u64,
}

impl View for AddedPackage {
    type V = PackageView;

    open spec fn view(&self) -> PackageView {
        PackageView {
            package: self.package@,
            site_path: self.site_path@,
            site_name: self.site_name@,
            command: self.command@,
            args: text::texts(self.args@),
            php_version: text::opt_text(self.php_version),
            installed_at: self.installed_at,
        }
    }
}

pub open spec fn packages(v: Seq<AddedPackage>) -> Seq<PackageView> {
    v.map_values(|p: AddedPackage| p@)
}

impl AddedPackage {
    /// An owned copy.
    pub fn dup(&self) -> (r: Self)
        ensures
            r@ == self@,
    {
        AddedPackage {
            package: self.package.clone(),
            site_path: self.site_path.clone(),
            site_name: self.site_name.clone(),
            command: self.command.clone(),
            args: text::dup_texts(&self.args),
            php_version: text::dup_opt(&self.php_version),
            installed_at: self.installed_at,
        }
    }
}

/// The configuration of the daemon.
pub struct HearthConfig {
    pub tld: String,
    pub default_php: String,
    pub dns_port: u16,
    pub dump_port: u16,
    pub mail_smtp_port: u16,
    pub mail_ui_port: u16,
    pub mcp_port: u16,
    pub mysql_port: u16,
    pub postgres_port: u16,
    pub redis_port: u16,
    pub added_packages: Vec<AddedPackage>,
    pub php_ini: PhpIniSettings,
}

impl Default for HearthConfig {
    fn default() -> (r: Self)
        ensures
            r.tld@ == "test"@,
            r.default_php@ == "8.4"@,
            r.dns_port == 5354,
            r.dump_port == 9912,
            r.mail_smtp_port == 1025,
            r.mail_ui_port == 8025,
            r.mcp_port == 9900,
            r.mysql_port == 3306,
            r.postgres_port == 5432,
            r.redis_port == 6379,
            r.added_packages@.len() == 0,
            r.php_ini.wf(),
            r.php_ini@.global == Map::<Seq<char>, Seq<char>>::empty(),
            r.php_ini@.overrides == Map::<Seq<char>, Map<Seq<char>, Seq<char>>>::empty(),
    {
        HearthConfig {
            tld: "test".to_owned(),
            default_php: "8.4".to_owned(),
            dns_port: 5354,
            dump_port: 9912,
            mail_smtp_port: 1025,
            mail_ui_port: 8025,
            mcp_port: 9900,
            mysql_port: 3306,
            postgres_port: 5432,
            redis_port: 6379,
            added_packages: Vec::new(),
            php_ini: PhpIniSettings::default(),
        }
    }
}

} // verus!
