//! Conversion of character buffers into strings.
use vstd::prelude::*;
use crate::utils::text::string_push;

verus! {

/// Converts a characters vector to string
pub fn chars_to_string(buff: &Vec<char>) -> (s: String)
    ensures
        s@ == buff@,
{
    let mut s = String::new();
    let mut i: usize = 0;
    while i < buff.len()
        invariant
            i <= buff.len(),
            s@ == buff@.take(i as int),
        decreases buff.len() - i,
    {
        string_push(&mut s, buff[i]);
        i += 1;
        assert(buff@.take(i as int) == buff@.take(i - 1).push(buff@[i - 1]));
    }
    assert(buff@.take(buff.len() as int) == buff@);
    s
}

} // verus!
