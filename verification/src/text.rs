//! Small text-building helpers shared by the encoders.
use vstd::prelude::*;

verus! {

/// Relies on String::push: appends exactly the given character to the end
/// of the string.
#[verifier::external_body]
pub(crate) fn push_char(s: &mut String, c: char)
    ensures
        final(s).view() == old(s).view() + seq![c],
{
    s.push(c);
}

} // verus!
