//! Contracts for the few outside functions the library calls. Verus takes
//! these on faith; each one states only what the callee's documentation
//! plainly promises.

use vstd::prelude::*;

verus! {

/// Relies on `str`'s `PartialEq`: two string slices are equal exactly when
/// their characters are.
pub assume_specification[ <str as PartialEq<str>>::eq ](s: &str, other: &str) -> (r: bool)
    ensures
        r == (s@ == other@),
;

/// A character with any ASCII upper-case letter folded to lower case, as
/// `char::to_ascii_lowercase` documents it.
pub open spec fn ascii_lower_char(c: char) -> char {
    if 'A' <= c && c <= 'Z' {
        ((c as u32) + 32) as char
    } else {
        c
    }
}

/// A string with every ASCII upper-case letter folded to lower case.
pub open spec fn ascii_lower(s: Seq<char>) -> Seq<char> {
    Seq::new(s.len(), |i: int| ascii_lower_char(s[i]))
}

/// Relies on `str::eq_ignore_ascii_case`: an ASCII case-insensitive match,
/// documented as equality after folding each string's ASCII letters to lower
/// case.
pub assume_specification[ str::eq_ignore_ascii_case ](s: &str, other: &str) -> (r: bool)
    ensures
        r == (ascii_lower(s@) == ascii_lower(other@)),
;

#[verifier::external_type_specification]
#[verifier::external_body]
pub struct ExJsonError(serde_json::Error);

#[verifier::external_type_specification]
#[verifier::external_body]
pub struct ExYamlError(serde_yaml::Error);

/// The JSON text of a string: quoted and escaped as `serde_json` encodes it.
pub uninterp spec fn json_string(s: Seq<char>) -> Seq<char>;

/// Relies on `serde_json::to_string` on a string slice: the JSON text of the
/// string, a function of its characters alone. It cannot fail: a string
/// serializes through the fixed escape table into a byte vector whose writes
/// always succeed.
#[verifier::external_body]
pub fn json_encode_str(s: &str) -> (r: Result<String, serde_json::Error>)
    ensures
        r is Ok,
        match r {
            Result::Ok(t) => t@ == json_string(s@),
            Result::Err(_) => true,
        },
{
    serde_json::to_string(s)
}

/// The YAML document of a string, as `serde_yaml` encodes it (ends in a
/// newline).
pub uninterp spec fn yaml_string(s: Seq<char>) -> Seq<char>;

/// Whether `serde_yaml`'s emitter refuses the string: the emitter consults
/// the characters alone, so failure too is a function of them.
pub uninterp spec fn yaml_string_fails(s: Seq<char>) -> bool;

/// Relies on `serde_yaml::to_string` on a string slice: the YAML document of
/// the string; both the document and whether emission fails are functions of
/// its characters alone.
#[verifier::external_body]
pub fn yaml_encode_str(s: &str) -> (r: Result<String, serde_yaml::Error>)
    ensures
        r is Ok <==> !yaml_string_fails(s@),
        match r {
            Result::Ok(t) => t@ == yaml_string(s@),
            Result::Err(_) => true,
        },
{
    serde_yaml::to_string(s)
}

} // verus!
