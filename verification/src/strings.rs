//! Contracts for two operations of the standard library on strings.
//! Neither is proved; each names the standard function it speaks of.

use vstd::prelude::*;

verus! {

/// `String::push` appends the one character and leaves the rest as it was.
pub assume_specification[ String::push ](s: &mut String, c: char)
    ensures
        final(s)@ == old(s)@.push(c),
;

/// `==` on string slices holds exactly where both hold the same characters.
pub assume_specification[ <str as PartialEq>::eq ](a: &str, b: &str) -> (same: bool)
    ensures
        same == (a@ == b@),
;

} // verus!
