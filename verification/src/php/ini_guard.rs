//! Validation for PHP INI directive keys and values before they reach the
//! canonical store or any rendered channel file.
//!
//! The denylist is load-bearing, not defense-in-depth: the store is writable
//! by other local processes, so a directive that loads or executes code must
//! never be accepted.

use crate::text;
use vstd::prelude::*;

verus! {

/// Directives that can load or execute code (or route mail through an
/// arbitrary binary). Checked ASCII-case-insensitively; no unsafe mode.
pub const DENIED_KEYS: [&'static str; 6] = [
    "extension",
    "zend_extension",
    "extension_dir",
    "auto_prepend_file",
    "auto_append_file",
    "sendmail_path",
];

pub const MAX_KEY_LEN: usize = 128;

pub const MAX_VALUE_LEN: usize = 1024;

pub const KEY_SYNTAX_REASON: &'static str = "keys must start with a letter or underscore and contain only letters, digits, underscores, and dots";

pub const KEY_LENGTH_REASON: &'static str = "keys are limited to 128 characters";

pub const VALUE_LENGTH_REASON: &'static str = "values are limited to 1024 characters";

pub const VALUE_CONTROL_REASON: &'static str = "values must not contain control characters (newlines, carriage returns, NUL, ...)";

pub const VALUE_SECTION_REASON: &'static str = "values must not start with '[' (INI section injection)";

#[derive(Debug, Clone, PartialEq, Eq)]
pub enum IniGuardError {
    InvalidKey { key: String, reason: &'static str },
    DeniedKey { key: String },
    InvalidValue { reason: &'static str },
}

/// A key whose characters are safe on the left of an INI assignment.
pub open spec fn key_syntax(k: Seq<char>) -> bool {
    &&& k.len() > 0
    &&& (text::ascii_letter(k[0]) || k[0] == '_')
    &&& forall|i: int|
        0 < i < k.len() ==> text::ascii_letter(#[trigger] k[i]) || text::ascii_digit(k[i]) || k[i]
            == '_' || k[i] == '.'
}

/// A key that, lowered, is one of the denied directives.
pub open spec fn denied(k: Seq<char>) -> bool {
    exists|i: int|
        0 <= i < 6 && (#[trigger] DENIED_KEYS@[i])@ == text::ascii_lower(k)
}

pub open spec fn key_accepted(k: Seq<char>) -> bool {
    key_syntax(k) && k.len() <= MAX_KEY_LEN && !denied(k)
}

/// The text with its leading white space removed starts with `[`.
pub open spec fn opens_section(v: Seq<char>) -> bool {
    exists|i: int|
        0 <= i < v.len() && #[trigger] v[i] == '[' && forall|j: int|
            0 <= j < i ==> text::whitespace(#[trigger] v[j])
}

pub open spec fn has_control(v: Seq<char>) -> bool {
    exists|i: int| 0 <= i < v.len() && text::control(#[trigger] v[i])
}

pub open spec fn value_accepted(v: Seq<char>) -> bool {
    v.len() <= MAX_VALUE_LEN && !has_control(v) && !opens_section(v)
}

/// What an error holds.
pub enum IniFault {
    InvalidKey { key: Seq<char>, reason: Seq<char> },
    DeniedKey { key: Seq<char> },
    InvalidValue { reason: Seq<char> },
}

impl View for IniGuardError {
    type V = IniFault;

    open spec fn view(&self) -> IniFault {
        match self {
            IniGuardError::InvalidKey { key, reason } => IniFault::InvalidKey {
                key: key@,
                reason: reason@,
            },
            IniGuardError::DeniedKey { key } => IniFault::DeniedKey { key: key@ },
            IniGuardError::InvalidValue { reason } => IniFault::InvalidValue { reason: reason@ },
        }
    }
}

/// What is wrong with a key: its syntax first, then its length, then the
/// denylist.
pub open spec fn key_fault(k: Seq<char>) -> Option<IniFault> {
    if !key_syntax(k) {
        Some(IniFault::InvalidKey { key: k, reason: KEY_SYNTAX_REASON@ })
    } else if k.len() > MAX_KEY_LEN {
        Some(IniFault::InvalidKey { key: k, reason: KEY_LENGTH_REASON@ })
    } else if denied(k) {
        Some(IniFault::DeniedKey { key: k })
    } else {
        None
    }
}

/// What is wrong with a value: its length first, then control characters,
/// then an opening bracket.
pub open spec fn value_fault(v: Seq<char>) -> Option<IniFault> {
    if v.len() > MAX_VALUE_LEN {
        Some(IniFault::InvalidValue { reason: VALUE_LENGTH_REASON@ })
    } else if has_control(v) {
        Some(IniFault::InvalidValue { reason: VALUE_CONTROL_REASON@ })
    } else if opens_section(v) {
        Some(IniFault::InvalidValue { reason: VALUE_SECTION_REASON@ })
    } else {
        None
    }
}

fn check_syntax(v: &Vec<char>) -> (r: bool)
    ensures
        r == key_syntax(v@),
{
    if v.len() == 0 || !(text::is_ascii_letter(v[0]) || v[0] == '_') {
        return false;
    }
    let mut i: usize = 1;
    while i < v.len()
        invariant
            1 <= i <= v@.len(),
            forall|j: int|
                0 < j < i ==> text::ascii_letter(#[trigger] v@[j]) || text::ascii_digit(v@[j])
                    || v@[j] == '_' || v@[j] == '.',
        decreases v@.len() - i,
    {
        let c: char = v[i];
        if !(text::is_ascii_letter(c) || text::is_ascii_digit(c) || c == '_' || c == '.') {
            return false;
        }
        i = i + 1;
    }
    true
}

fn check_denied(key: &str) -> (r: bool)
    ensures
        r == denied(key@),
{
    let lowered: String = text::to_ascii_lower(key);
    let mut i: usize = 0;
    while i < 6
        invariant
            i <= 6,
            lowered@ == text::ascii_lower(key@),
            forall|j: int| 0 <= j < i ==> (#[trigger] DENIED_KEYS@[j])@ != lowered@,
        decreases 6 - i,
    {
        if text::same(DENIED_KEYS[i], lowered.as_str()) {
            return true;
        }
        i = i + 1;
    }
    false
}

/// Validate a directive key: INI-safe syntax, then the code-loading denylist.
pub fn validate_key(key: &str) -> (r: Result<(), IniGuardError>)
    ensures
        r is Ok <==> key_accepted(key@),
        match r {
            Ok(_) => key_fault(key@) is None,
            Err(e) => key_fault(key@) == Some(e@),
        },
{
    let v: Vec<char> = text::to_chars(key);
    if !check_syntax(&v) {
        return Err(IniGuardError::InvalidKey { key: key.to_owned(), reason: KEY_SYNTAX_REASON });
    }
    if v.len() > MAX_KEY_LEN {
        return Err(IniGuardError::InvalidKey { key: key.to_owned(), reason: KEY_LENGTH_REASON });
    }
    if check_denied(key) {
        return Err(IniGuardError::DeniedKey { key: key.to_owned() });
    }
    Ok(())
}

/// Validate a directive value: bounded length, printable characters only
/// (no control chars — INI line injection), no leading `[` (section injection).
pub fn validate_value(value: &str) -> (r: Result<(), IniGuardError>)
    ensures
        r is Ok <==> value_accepted(value@),
        match r {
            Ok(_) => value_fault(value@) is None,
            Err(e) => value_fault(value@) == Some(e@),
        },
{
    let v: Vec<char> = text::to_chars(value);
    if v.len() > MAX_VALUE_LEN {
        return Err(IniGuardError::InvalidValue { reason: VALUE_LENGTH_REASON });
    }
    let mut i: usize = 0;
    while i < v.len()
        invariant
            i <= v@.len(),
            v@ == value@,
            v@.len() <= MAX_VALUE_LEN,
            forall|j: int| 0 <= j < i ==> !text::control(#[trigger] v@[j]),
        decreases v@.len() - i,
    {
        if text::is_control(v[i]) {
            return Err(IniGuardError::InvalidValue { reason: VALUE_CONTROL_REASON });
        }
        i = i + 1;
    }
    let mut i: usize = 0;
    while i < v.len()
        invariant
            i <= v@.len(),
            v@ == value@,
            v@.len() <= MAX_VALUE_LEN,
            !has_control(v@),
            forall|j: int| 0 <= j < i ==> text::whitespace(#[trigger] v@[j]),
        decreases v@.len() - i,
    {
        if v[i] == '[' {
            return Err(IniGuardError::InvalidValue { reason: VALUE_SECTION_REASON });
        }
        if !text::is_whitespace(v[i]) {
            return Ok(());
        }
        i = i + 1;
    }
    Ok(())
}

/// What a fault of a directive says.
pub open spec fn fault_said(f: IniFault) -> Seq<char> {
    match f {
        IniFault::InvalidKey { key, reason } => "invalid PHP INI directive key '"@ + key + "': "@
            + reason,
        IniFault::DeniedKey { key } => "PHP INI directive '"@ + key
            + "' is denied: it can load or execute code and must never be set through Hearth"@,
        IniFault::InvalidValue { reason } => "invalid PHP INI value: "@ + reason,
    }
}

impl IniGuardError {
    /// The error as text for the user.
    pub fn message(&self) -> (r: String)
        ensures
            r@ == fault_said(self@),
    {
        match self {
            IniGuardError::InvalidKey { key, reason } => text::cat4(
                "invalid PHP INI directive key '",
                key.as_str(),
                "': ",
                reason,
            ),
            IniGuardError::DeniedKey { key } => text::cat3(
                "PHP INI directive '",
                key.as_str(),
                "' is denied: it can load or execute code and must never be set through Hearth",
            ),
            IniGuardError::InvalidValue { reason } => text::cat2(
                "invalid PHP INI value: ",
                reason,
            ),
        }
    }
}

/// The denylist ignores the case of ASCII letters.
pub proof fn denylist_ignores_case(a: Seq<char>, b: Seq<char>)
    requires
        text::ascii_lower(a) == text::ascii_lower(b),
    ensures
        denied(a) == denied(b),
{
}

/// An accepted key holds no line break, no bracket and no equals sign, so it
/// stands on the left of one assignment.
pub proof fn accepted_key_is_one_name(k: Seq<char>, i: int)
    requires
        key_accepted(k),
        0 <= i < k.len(),
    ensures
        k[i] != '\n' && k[i] != '\r' && k[i] != '[' && k[i] != ']' && k[i] != '=' && k[i] != ';',
{
}

/// An accepted value holds no line break, so it ends with its line.
pub proof fn accepted_value_is_one_line(v: Seq<char>, i: int)
    requires
        value_accepted(v),
        0 <= i < v.len(),
    ensures
        v[i] != '\n' && v[i] != '\r',
{
    if v[i] == '\n' || v[i] == '\r' {
        assert(text::control(v[i]));
    }
}

} // verus!
