//! Set and Unset: which requests are accepted, and what they do to the
//! canonical store.

use crate::config::{effective, IniStore, PhpIniSettings};
use crate::php::ini_guard::{
    fault_said, key_fault, validate_key, validate_value, value_fault,
};
use crate::php::migration::{overrides_of, set_override, with_override};
use crate::socket::{PhpScope, ScopeView};
use crate::strmap::StrMap;
use crate::text;
use vstd::prelude::*;

verus! {

// ---- validation ----
/// A version as it may be named: digits and dots, with a dot.
pub open spec fn plausible(version: Seq<char>) -> bool {
    &&& forall|i: int|
        0 <= i < version.len() ==> text::ascii_digit(#[trigger] version[i]) || version[i] == '.'
    &&& version.contains('.')
}

pub open spec fn version_refusal(version: Seq<char>) -> Seq<char> {
    "invalid PHP version `"@ + version + "` — expected e.g. 8.4"@
}

/// Whether a version is plausible.
pub fn validate_version(version: &str) -> (r: Result<(), String>)
    ensures
        match r {
            Ok(_) => plausible(version@),
            Err(e) => !plausible(version@) && e@ == version_refusal(version@),
        },
{
    let v: Vec<char> = text::to_chars(version);
    let mut dot: bool = false;
    let mut i: usize = 0;
    while i < v.len()
        invariant
            i <= v.len(),
            v@ == version@,
            forall|j: int|
                0 <= j < i ==> text::ascii_digit(#[trigger] version@[j]) || version@[j] == '.',
            dot == exists|j: int| 0 <= j < i && #[trigger] version@[j] == '.',
        decreases v.len() - i,
    {
        let c: char = v[i];
        if c == '.' {
            assert(version@[i as int] == '.');
            dot = true;
        } else if !text::is_ascii_digit(c) {
            assert(!text::ascii_digit(version@[i as int]) && version@[i as int] != '.');
            return Err(
                text::cat3("invalid PHP version `", version, "` — expected e.g. 8.4"),
            );
        }
        i = i + 1;
    }
    if dot {
        Ok(())
    } else {
        Err(text::cat3("invalid PHP version `", version, "` — expected e.g. 8.4"))
    }
}

/// Why a request is refused, if it is: its key, then its value, then the
/// version of its scope.
pub open spec fn mutation_refusal(
    scope: ScopeView,
    key: Seq<char>,
    value: Option<Seq<char>>,
) -> Option<Seq<char>> {
    if key_fault(key) is Some {
        Some(fault_said(key_fault(key)->0))
    } else if value is Some && value_fault(value->0) is Some {
        Some(fault_said(value_fault(value->0)->0))
    } else {
        match scope {
            ScopeView::Version { version } if !plausible(version) => Some(
                version_refusal(version),
            ),
            _ => None,
        }
    }
}

/// Why a key is refused, if it is.
pub fn refuse_key(key: &str) -> (r: Option<String>)
    ensures
        text::opt_text(r) == match key_fault(key@) {
            Some(f) => Some(fault_said(f)),
            None => None,
        },
{
    match validate_key(key) {
        Ok(_) => None,
        Err(e) => Some(e.message()),
    }
}

/// Why a request is refused, if it is.
pub fn refuse_mutation(scope: &PhpScope, key: &str, value: Option<&str>) -> (r: Option<String>)
    ensures
        text::opt_text(r) == mutation_refusal(scope@, key@, text::opt_str(value)),
{
    match refuse_key(key) {
        Some(e) => {
            return Some(e);
        },
        None => {},
    }
    match value {
        Some(v) => match validate_value(v) {
            Ok(_) => {},
            Err(e) => {
                return Some(e.message());
            },
        },
        None => {},
    }
    match scope {
        PhpScope::Version { version } => match validate_version(version.as_str()) {
            Ok(_) => None,
            Err(e) => Some(e),
        },
        _ => None,
    }
}

// ---- the store ----
/// The version that a scope is about; none for the global one.
pub open spec fn scope_version(scope: ScopeView, default_php: Seq<char>) -> Option<Seq<char>> {
    match scope {
        ScopeView::Global => None,
        ScopeView::Version { version } => Some(version),
        ScopeView::Active => Some(default_php),
    }
}

/// The store without an override; a version without overrides has no table.
pub open spec fn without_override(store: IniStore, version: Seq<char>, key: Seq<char>) -> IniStore {
    if store.overrides.dom().contains(version) {
        let left = store.overrides[version].remove(key);
        IniStore {
            global: store.global,
            overrides: if left == Map::<Seq<char>, Seq<char>>::empty() {
                store.overrides.remove(version)
            } else {
                store.overrides.insert(version, left)
            },
        }
    } else {
        store
    }
}

/// The store after a Set (with a value) or an Unset (without).
pub open spec fn mutated(
    store: IniStore,
    version: Option<Seq<char>>,
    key: Seq<char>,
    value: Option<Seq<char>>,
) -> IniStore {
    match (version, value) {
        (None, Some(v)) => IniStore { global: store.global.insert(key, v), ..store },
        (Some(ver), Some(v)) => with_override(store, ver, key, v),
        (None, None) => IniStore { global: store.global.remove(key), ..store },
        (Some(ver), None) => without_override(store, ver, key),
    }
}

/// Set (`value: Some`) or Unset (`value: None`) one directive.
pub fn mutate_store(
    ini: &mut PhpIniSettings,
    scope: &PhpScope,
    default_php: &str,
    key: &str,
    value: Option<&str>,
)
    requires
        old(ini).wf(),
    ensures
        final(ini).wf(),
        final(ini)@ == mutated(
            old(ini)@,
            scope_version(scope@, default_php@),
            key@,
            text::opt_str(value),
        ),
{
    let version: Option<&str> = match scope {
        PhpScope::Global => None,
        PhpScope::Version { version } => Some(version.as_str()),
        PhpScope::Active => Some(default_php),
    };
    match (version, value) {
        (None, Some(v)) => {
            ini.global.insert(key.to_owned(), v.to_owned());
        },
        (Some(ver), Some(v)) => {
            set_override(ini, ver, key.to_owned(), v.to_owned());
        },
        (None, None) => {
            ini.global.remove(key);
        },
        (Some(ver), None) => {
            let left: Option<StrMap<String>> = match ini.overrides.get(ver) {
                Some(m) => {
                    let mut own = m.dup();
                    own.remove(key);
                    Some(own)
                },
                None => None,
            };
            match left {
                Some(own) => {
                    if own.is_empty() {
                        ini.overrides.remove(ver);
                    } else {
                        ini.overrides.insert(ver.to_owned(), own);
                    }
                },
                None => {},
            }
        },
    }
}

// ---- laws ----
/// What a Set wrote is what is in force: for its own version, or for every
/// version without an override of that key; nothing else changes.
pub proof fn set_takes_effect(
    store: IniStore,
    version: Option<Seq<char>>,
    key: Seq<char>,
    value: Seq<char>,
    asked: Seq<char>,
)
    ensures
        ({
            let after = mutated(store, version, key, Some(value));
            &&& version == Some(asked) ==> effective(after, asked).contains_pair(key, value)
            &&& version is None && !overrides_of(store, asked).dom().contains(key) ==> effective(
                after,
                asked,
            ).contains_pair(key, value)
            &&& version is Some && version != Some(asked) ==> effective(after, asked) == effective(
                store,
                asked,
            )
            &&& version is None && overrides_of(store, asked).dom().contains(key) ==> effective(
                after,
                asked,
            ) =~= effective(store, asked)
            &&& effective(after, asked).remove(key) =~= effective(store, asked).remove(key)
        }),
{
}

/// An Unset takes back a Set: a directive that was not there before is gone
/// again, and the store is as it was.
pub proof fn unset_undoes_set(
    store: IniStore,
    version: Option<Seq<char>>,
    key: Seq<char>,
    value: Seq<char>,
)
    requires
        match version {
            None => !store.global.dom().contains(key),
            Some(v) => !overrides_of(store, v).dom().contains(key) && (store.overrides.dom().contains(v)
                ==> store.overrides[v] != Map::<Seq<char>, Seq<char>>::empty()),
        },
    ensures
        mutated(mutated(store, version, key, Some(value)), version, key, None) == store,
{
    let once = mutated(store, version, key, Some(value));
    let twice = mutated(once, version, key, None);
    match version {
        None => {
            assert(twice.global =~= store.global);
        },
        Some(v) => {
            let own = overrides_of(store, v);
            assert(own.insert(key, value).remove(key) =~= own);
            assert(twice.overrides =~= store.overrides);
        },
    }
}

/// After an Unset the key is not set in its scope any more; for a version the
/// global value is then in force.
pub proof fn unset_clears_the_scope(store: IniStore, version: Option<Seq<char>>, key: Seq<char>)
    ensures
        ({
            let after = mutated(store, version, key, None);
            match version {
                None => !after.global.dom().contains(key),
                Some(v) => !overrides_of(after, v).dom().contains(key) && effective(
                    after,
                    v,
                ).dom().contains(key) == store.global.dom().contains(key) && (
                store.global.dom().contains(key) ==> effective(after, v)[key]
                    == store.global[key]),
            }
        }),
{
    if let Some(v) = version {
        if store.overrides.dom().contains(v) {
            let left = store.overrides[v].remove(key);
            assert(!left.dom().contains(key));
        }
    }
}

} // verus!
