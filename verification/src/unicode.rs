//! What the standard library knows of a single character: its Unicode
//! properties and case mappings. None of the contracts in this file is
//! proved; each names the standard function it speaks of.

use vstd::prelude::*;

verus! {

/// Whether `c` has the Unicode property `White_Space`.
pub uninterp spec fn is_white_space(c: char) -> bool;

/// Whether `c` has the Unicode property `Uppercase`.
pub uninterp spec fn is_upper(c: char) -> bool;

/// The uppercase mapping of `c`: the characters that stand for `c` in
/// upper case.
pub uninterp spec fn uppercase_mapping(c: char) -> Seq<char>;

/// The lowercase mapping of `c`: the characters that stand for `c` in
/// lower case.
pub uninterp spec fn lowercase_mapping(c: char) -> Seq<char>;

/// `char::is_whitespace` decides the property `White_Space`, and depends
/// on nothing but the character.
pub assume_specification[ char::is_whitespace ](c: char) -> (b: bool)
    ensures
        b == is_white_space(c),
;

/// `char::is_uppercase` decides the property `Uppercase`, and depends on
/// nothing but the character.
pub assume_specification[ char::is_uppercase ](c: char) -> (b: bool)
    ensures
        b == is_upper(c),
;

/// The characters that `char::to_uppercase` yields, gathered into a string.
#[verifier::external_body]
pub(crate) fn upper_of(c: char) -> (s: String)
    ensures
        s@ == uppercase_mapping(c),
{
    c.to_uppercase().collect()
}

/// The characters that `char::to_lowercase` yields, gathered into a string.
#[verifier::external_body]
pub(crate) fn lower_of(c: char) -> (s: String)
    ensures
        s@ == lowercase_mapping(c),
{
    c.to_lowercase().collect()
}

} // verus!
