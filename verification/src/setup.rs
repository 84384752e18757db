//! Workspace initialisation: how an answer to its prompt is read.

use vstd::prelude::*;

use crate::text::{chars_of, is, lower, lower_chars, trim, trim_chars};

verus! {

/// An answer to a prompt whose default is yes: once trimmed and lower-cased,
/// it is empty, `y` or `yes`.
pub open spec fn confirmed(input: Seq<char>) -> bool {
    let t = lower(trim(input));
    t.len() == 0 || t == "y"@ || t == "yes"@
}

/// Whether an answer to a prompt whose default is yes accepts.
pub fn confirms(input: &str) -> (r: bool)
    ensures
        r == confirmed(input@),
{
    let c = chars_of(input);
    let t = trim_chars(&c);
    let l = lower_chars(&t);
    l.len() == 0 || is(&l, "y") || is(&l, "yes")
}

} // verus!
