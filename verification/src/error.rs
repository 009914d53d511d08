//! Helpers for error messages.
use vstd::prelude::*;
use vstd::string::StringSliceAdditionalSpecFns;
use vstd::utf8::is_char_boundary;

verus! {

/// The last `max` bytes of `s` (all of `s` when it is no longer); the cut
/// must fall on a character boundary.
pub fn truncate_end(s: &str, max: usize) -> (r: &str)
    requires
        s.spec_bytes().len() <= usize::MAX,
        s.spec_bytes().len() <= max || is_char_boundary(
            s.spec_bytes(),
            s.spec_bytes().len() - max,
        ),
    ensures
        r.spec_bytes() == if s.spec_bytes().len() <= max {
            s.spec_bytes()
        } else {
            s.spec_bytes().subrange(s.spec_bytes().len() - max, s.spec_bytes().len() as int)
        },
{
    let n = s.len();
    if n <= max {
        s
    } else {
        let (_, tail) = s.split_at(n - max);
        tail
    }
}

} // verus!
