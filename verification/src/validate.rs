//! The password content rules, shared by account creation and password
//! change: a password must be at least six characters, hold a numeric and an
//! alphabetic character, and mix letter cases. Every violated rule is
//! reported; nothing stops at the first.

use vstd::prelude::*;
use crate::text;

verus! {

/// The password is shorter than six characters.
pub open spec fn pw_too_short(s: Seq<char>) -> bool {
    s.len() < 6
}

/// The password holds no numeric character.
pub open spec fn pw_no_numeric(s: Seq<char>) -> bool {
    !(exists|i: int| 0 <= i < s.len() && text::numeric_char(s[i]))
}

/// The password holds no alphabetic character.
pub open spec fn pw_no_alphabetic(s: Seq<char>) -> bool {
    !(exists|i: int| 0 <= i < s.len() && text::alphabetic_char(s[i]))
}

/// The password is all one letter case.
pub open spec fn pw_single_case(s: Seq<char>) -> bool {
    text::lower_of(s) == s || text::upper_of(s) == s
}

/// The messages the content rules raise against a password, in the order
/// the rules run. An empty result means the password passes every rule.
pub open spec fn password_content_msgs(s: Seq<char>) -> Seq<Seq<char>> {
    (if pw_too_short(s) {
        seq!["min length for password is 6"@]
    } else {
        Seq::empty()
    }) + (if pw_no_numeric(s) {
        seq!["password must have numeric value"@]
    } else {
        Seq::empty()
    }) + (if pw_no_alphabetic(s) {
        seq!["password must have alphabetic value"@]
    } else {
        Seq::empty()
    }) + (if pw_single_case(s) {
        seq!["password must have lower and upper case"@]
    } else {
        Seq::empty()
    })
}

/// Runs every content rule against `p` and gathers one message per violated
/// rule, never stopping at the first.
pub fn password_content_errors(p: &str) -> (v: Vec<String>)
    ensures
        v@.map_values(|m: String| m@) == password_content_msgs(p@),
{
    let ghost part1: Seq<Seq<char>> = if pw_too_short(p@) {
        seq!["min length for password is 6"@]
    } else {
        Seq::empty()
    };
    let ghost part2: Seq<Seq<char>> = if pw_no_numeric(p@) {
        seq!["password must have numeric value"@]
    } else {
        Seq::empty()
    };
    let ghost part3: Seq<Seq<char>> = if pw_no_alphabetic(p@) {
        seq!["password must have alphabetic value"@]
    } else {
        Seq::empty()
    };
    let ghost part4: Seq<Seq<char>> = if pw_single_case(p@) {
        seq!["password must have lower and upper case"@]
    } else {
        Seq::empty()
    };
    let mut v: Vec<String> = Vec::new();
    if p.unicode_len() < 6 {
        v.push("min length for password is 6".to_owned());
    }
    proof {
        assert(v@.map_values(|m: String| m@) =~= part1);
    }
    if !text::has_numeric(p) {
        v.push("password must have numeric value".to_owned());
    }
    proof {
        assert(v@.map_values(|m: String| m@) =~= part1 + part2);
    }
    if !text::has_alphabetic(p) {
        v.push("password must have alphabetic value".to_owned());
    }
    proof {
        assert(v@.map_values(|m: String| m@) =~= part1 + part2 + part3);
    }
    if text::is_single_case(p) {
        v.push("password must have lower and upper case".to_owned());
    }
    proof {
        assert(v@.map_values(|m: String| m@) =~= part1 + part2 + part3 + part4);
    }
    v
}

} // verus!
