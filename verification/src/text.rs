//! Case folding of text, as std's `str::to_lowercase` performs it.
use vstd::prelude::*;

verus! {

/// What `str::to_lowercase` returns for a string, by its characters.
pub uninterp spec fn lowercase_of(s: Seq<char>) -> Seq<char>;

/// Every character of `s` is an ASCII character.
pub open spec fn is_ascii_text(s: Seq<char>) -> bool {
    forall|i: int| 0 <= i < s.len() ==> (#[trigger] s[i] as u32) < 128
}

/// ASCII case folding of one character: 'A'..='Z' become 'a'..='z', the rest stay.
pub open spec fn ascii_lower_char(c: char) -> char {
    if 65 <= (c as u32) <= 90 {
        ((c as u32) + 32) as char
    } else {
        c
    }
}

/// ASCII case folding of a whole string, character by character.
pub open spec fn ascii_lowercase(s: Seq<char>) -> Seq<char> {
    Seq::new(s.len(), |i: int| ascii_lower_char(s[i]))
}

/// Calls std's `str::to_lowercase`.
///
/// Claimed: the result is the name `lowercase_of` applied to the input's characters; for
/// an input made only of ASCII characters, it maps 'A'..='Z' to 'a'..='z' and keeps every
/// other character (the Unicode lowercase mapping of ASCII, which std's implementation
/// takes on an ASCII fast path). Nothing is claimed of other inputs beyond the name.
#[verifier::external_body]
pub(crate) fn to_lowercase(s: &str) -> (r: String)
    ensures
        r@ == lowercase_of(s@),
        is_ascii_text(s@) ==> r@ == ascii_lowercase(s@),
{
    s.to_lowercase()
}

/// Whether two texts hold the same characters.
pub fn same_text(a: &str, b: &str) -> (r: bool)
    ensures
        r == (a@ == b@),
{
    let x: String = a.to_owned();
    let y: String = b.to_owned();
    x == y
}

} // verus!
