//! Small string helpers: measuring a string without losing ownership of it,
//! and handing a freshly built string out of a function.

use vstd::prelude::*;
use vstd::string::StringSliceAdditionalSpecFns;
use vstd::utf8::encode_utf8;
use vstd::utf8::is_ascii_chars;
use vstd::utf8::is_ascii_chars_encode_utf8;

verus! {

/// Returns the string back, paired with its length in bytes; for a string of
/// ASCII characters that is also its number of characters.
pub fn calculate_length(s: String) -> (r: (String, usize))
    ensures
        r.0 == s,
        r.1 == encode_utf8(s@).len() as usize,
        is_ascii_chars(s@) ==> r.1 == s@.len() as usize,
{
    let st: &str = s.as_str();
    let length: usize = st.len();
    proof {
        assert(st.spec_bytes() == encode_utf8(s@));
        if is_ascii_chars(s@) {
            is_ascii_chars_encode_utf8(s@);
        }
    }
    (s, length)
}

/// Builds an owned greeting inside the function and moves it to the caller.
pub fn no_dangle() -> (r: String)
    ensures
        r@ == "hello"@,
{
    let s: String = "hello".to_owned();
    s
}

} // verus!
