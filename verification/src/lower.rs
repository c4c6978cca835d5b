//! Unicode lowercase, as std has it.

use crate::text;
use vstd::prelude::*;

verus! {

/// The Unicode lowercase of a text.
pub uninterp spec fn lowercase(s: Seq<char>) -> Seq<char>;

/// `str::to_lowercase`: the Unicode lowercase, which on ASCII text lowers the
/// letters and keeps the rest. What it does beyond ASCII is not said here.
#[verifier::external_body]
pub(crate) fn to_lower(s: &str) -> (r: String)
    ensures
        r@ == lowercase(s@),
        vstd::utf8::is_ascii_chars(s@) ==> r@ == text::ascii_lower(s@),
{
    s.to_lowercase()
}

} // verus!
