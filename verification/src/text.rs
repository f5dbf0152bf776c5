//! Building text one character at a time.

use vstd::prelude::*;

verus! {

/// Appends one character to a `String`.
///
/// Wraps `String::push`, of which the standard library documents that it
/// appends the given character to the end of the string.
#[verifier::external_body]
pub(crate) fn push_char(text: &mut String, c: char)
    ensures
        final(text)@ == old(text)@.push(c),
{
    text.push(c);
}

} // verus!
