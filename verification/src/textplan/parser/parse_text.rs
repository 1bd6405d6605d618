//! Reading textplans from strings.

use vstd::prelude::*;

verus! {

/// Loads a textplan from a string: the text itself.
pub fn load_text_string(text: &str) -> (r: String)
    ensures
        r@ == text@,
{
    String::from_str(text)
}

} // verus!
