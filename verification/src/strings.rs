use vstd::prelude::*;

verus! {

/// `String::push` of the standard library, which vstd leaves without a
/// contract: the string afterwards is the string before with `ch` added at
/// its end.
pub assume_specification[ String::push ](s: &mut String, ch: char)
    ensures
        final(s)@ == old(s)@.push(ch),
;

} // verus!
