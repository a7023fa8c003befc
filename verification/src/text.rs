//! Text normalization and character classification, relying on std's
//! Unicode-aware operations. Each result is a function of the input text
//! alone, so it carries a name the contracts can speak of.

use vstd::prelude::*;

verus! {

/// What `str::to_lowercase` returns: it depends on the characters alone.
pub uninterp spec fn lower_of(s: Seq<char>) -> Seq<char>;

/// What `str::to_uppercase` returns: it depends on the characters alone.
pub uninterp spec fn upper_of(s: Seq<char>) -> Seq<char>;

/// What `str::trim` returns: it depends on the characters alone.
pub uninterp spec fn trim_of(s: Seq<char>) -> Seq<char>;

/// Whether `char::is_numeric` holds of the character.
pub uninterp spec fn numeric_char(c: char) -> bool;

/// Whether `char::is_alphabetic` holds of the character.
pub uninterp spec fn alphabetic_char(c: char) -> bool;

/// Relies on `str::to_lowercase` of std: the result depends on the
/// characters alone, and an empty string stays empty.
#[verifier::external_body]
fn lowercase(s: &str) -> (r: String)
    ensures
        r@ == lower_of(s@),
        s@.len() == 0 ==> r@.len() == 0,
{
    s.to_lowercase()
}

/// Relies on `str::to_uppercase` of std: the result depends on the
/// characters alone, and an empty string stays empty.
#[verifier::external_body]
fn uppercase(s: &str) -> (r: String)
    ensures
        r@ == upper_of(s@),
        s@.len() == 0 ==> r@.len() == 0,
{
    s.to_uppercase()
}

/// Relies on `str::trim` of std: the result is a substring, depends on the
/// characters alone, and an empty string stays empty.
#[verifier::external_body]
fn trim(s: &str) -> (r: &str)
    ensures
        r@ == trim_of(s@),
        r@.len() <= s@.len(),
        s@.len() == 0 ==> r@.len() == 0,
{
    s.trim()
}

/// Relies on `char::is_numeric` of std: the result depends on the character
/// alone.
#[verifier::external_body]
fn is_numeric_char(c: char) -> (r: bool)
    ensures
        r == numeric_char(c),
{
    c.is_numeric()
}

/// Relies on `char::is_alphabetic` of std: the result depends on the
/// character alone.
#[verifier::external_body]
fn is_alphabetic_char(c: char) -> (r: bool)
    ensures
        r == alphabetic_char(c),
{
    c.is_alphabetic()
}

/// Whether any character of `s` is numeric.
pub fn has_numeric(s: &str) -> (r: bool)
    ensures
        r == exists|i: int| 0 <= i < s@.len() && numeric_char(s@[i]),
{
    let n = s.unicode_len();
    let mut i: usize = 0;
    while i < n
        invariant
            0 <= i <= n,
            n == s@.len(),
            forall|k: int| 0 <= k < i ==> !numeric_char(s@[k]),
        decreases n - i,
    {
        if is_numeric_char(s.get_char(i)) {
            return true;
        }
        i += 1;
    }
    false
}

/// Whether any character of `s` is alphabetic.
pub fn has_alphabetic(s: &str) -> (r: bool)
    ensures
        r == exists|i: int| 0 <= i < s@.len() && alphabetic_char(s@[i]),
{
    let n = s.unicode_len();
    let mut i: usize = 0;
    while i < n
        invariant
            0 <= i <= n,
            n == s@.len(),
            forall|k: int| 0 <= k < i ==> !alphabetic_char(s@[k]),
        decreases n - i,
    {
        if is_alphabetic_char(s.get_char(i)) {
            return true;
        }
        i += 1;
    }
    false
}

/// Trims surrounding whitespace and lowercases: the normal form of names,
/// email addresses, usernames and login identifiers.
pub fn normalize_lower(s: &str) -> (r: String)
    ensures
        r@ == lower_of(trim_of(s@)),
        s@.len() == 0 ==> r@.len() == 0,
{
    lowercase(trim(s))
}

/// Trims surrounding whitespace and uppercases: the normal form of
/// permission and role codes.
pub fn normalize_upper(s: &str) -> (r: String)
    ensures
        r@ == upper_of(trim_of(s@)),
        s@.len() == 0 ==> r@.len() == 0,
{
    uppercase(trim(s))
}

/// Trims surrounding whitespace, keeping the letter case: the normal form
/// of passwords at account creation.
pub fn trim_owned(s: &str) -> (r: String)
    ensures
        r@ == trim_of(s@),
{
    trim(s).to_owned()
}

/// Whether `s` is all one letter case: lowercasing or uppercasing it
/// changes nothing.
pub fn is_single_case(s: &str) -> (r: bool)
    ensures
        r == (lower_of(s@) == s@ || upper_of(s@) == s@),
{
    let owned = s.to_owned();
    let lower = lowercase(s);
    if lower == owned {
        return true;
    }
    let upper = uppercase(s);
    upper == owned
}

} // verus!
