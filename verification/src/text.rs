//! What this crate takes on trust about the standard library's `String`.

use vstd::prelude::*;

verus! {

/// `String::push` of the standard library, which vstd leaves unspecified.
///
/// Trusted, not proved: the call appends exactly the given character to the
/// end of the string and leaves everything before it as it was.
pub assume_specification[ String::push ](text: &mut String, ch: char)
    ensures
        final(text)@ == old(text)@.push(ch),
;

} // verus!
