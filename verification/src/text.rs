//! Small text helpers shared by the modules that build strings.

use vstd::prelude::*;

verus! {

/// Calls `String::push`: the string gains `c` as its last character and is
/// otherwise unchanged.
#[verifier::external_body]
pub(crate) fn push_char(s: &mut String, c: char)
    ensures
        final(s)@ == old(s)@.push(c),
{
    s.push(c);
}

} // verus!
