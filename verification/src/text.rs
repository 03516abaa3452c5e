//! Character classification and identifier building.
//!
//! Label validation needs Unicode alphanumericity and generated names need
//! Unicode lowercasing; both live in the standard library and are taken on
//! trust here, each behind one wrapper. Everything else is verified.

use vstd::prelude::*;
use vstd::string::StringExecFns;

verus! {

/// What `char::is_alphanumeric` returns: a property of the character
/// alone, decided by the Unicode tables.
pub uninterp spec fn unicode_alphanumeric(c: char) -> bool;

/// The ASCII letters and digits.
pub open spec fn ascii_alphanumeric(c: char) -> bool {
    ||| 97 <= (c as u32) && (c as u32) <= 122
    ||| 65 <= (c as u32) && (c as u32) <= 90
    ||| 48 <= (c as u32) && (c as u32) <= 57
}

/// Relies on `char::is_alphanumeric`: true exactly for Unicode letters and
/// numbers. Within ASCII those are the letters and digits and nothing else.
#[verifier::external_body]
pub fn char_is_alphanumeric(c: char) -> (r: bool)
    ensures
        r == unicode_alphanumeric(c),
        ascii_alphanumeric(c) ==> r,
        (c as u32) < 128 && !ascii_alphanumeric(c) ==> !r,
{
    c.is_alphanumeric()
}

/// The ASCII uppercase letters `A` through `Z`.
pub open spec fn ascii_uppercase(c: char) -> bool {
    65 <= (c as u32) && (c as u32) <= 90
}

/// Every character's sequence is ASCII.
pub open spec fn ascii_seq(s: Seq<char>) -> bool {
    forall|i: int| 0 <= i < s.len() ==> (#[trigger] s[i] as u32) < 128
}

/// An ASCII character folded to lowercase.
pub open spec fn ascii_lower_char(c: char) -> char {
    if ascii_uppercase(c) {
        ((c as u8) + 32) as char
    } else {
        c
    }
}

/// An ASCII sequence folded to lowercase character by character.
pub open spec fn ascii_lower_seq(s: Seq<char>) -> Seq<char> {
    s.map(|i: int, c: char| ascii_lower_char(c))
}

/// What `str::to_lowercase` returns: a function of the characters alone.
pub uninterp spec fn lower_of(s: Seq<char>) -> Seq<char>;

/// Relies on `str::to_lowercase`: the result depends only on the
/// characters. On ASCII input it folds `A`..`Z` to `a`..`z` character by
/// character and leaves everything else unchanged.
#[verifier::external_body]
pub fn lowercase(s: &str) -> (r: String)
    ensures
        r@ == lower_of(s@),
        ascii_seq(s@) ==> r@ == ascii_lower_seq(s@),
{
    s.to_lowercase()
}

/// `{prefix}_{leaf}`: how a compound label joins its parts.
pub fn join_underscore(prefix: &String, leaf: &String) -> (r: String)
    ensures
        r@ == prefix@ + "_"@ + leaf@,
{
    let mut out = prefix.clone();
    out.append("_");
    out.append(leaf.as_str());
    out
}

/// The name of the predicate generated for a label: `is_` followed by the
/// lowercased label.
pub open spec fn spec_predicate_name(label: Seq<char>) -> Seq<char> {
    "is_"@ + lower_of(label)
}

} // verus!
