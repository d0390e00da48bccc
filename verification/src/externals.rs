//! The calls into outside crates and into the parts of std that Verus gives
//! no specification, each behind a small trusted wrapper.

use vstd::prelude::*;

verus! {

/// An ASCII lower-case letter mapped to upper case; any other character
/// unchanged.
pub open spec fn ascii_upper_char(c: char) -> char {
    if 'a' <= c && c <= 'z' {
        ((c as u32) - 32) as char
    } else {
        c
    }
}

/// An ASCII upper-case letter mapped to lower case; any other character
/// unchanged.
pub open spec fn ascii_lower_char(c: char) -> char {
    if 'A' <= c && c <= 'Z' {
        ((c as u32) + 32) as char
    } else {
        c
    }
}

/// A word mapped to upper case letter by letter, ASCII-wise.
pub open spec fn ascii_upper(s: Seq<char>) -> Seq<char> {
    s.map_values(|c: char| ascii_upper_char(c))
}

/// A word mapped to lower case letter by letter, ASCII-wise.
pub open spec fn ascii_lower(s: Seq<char>) -> Seq<char> {
    s.map_values(|c: char| ascii_lower_char(c))
}

/// Relies on str::to_ascii_uppercase: ASCII letters 'a' to 'z' are mapped to
/// 'A' to 'Z' and every other character is unchanged, character by character.
#[verifier::external_body]
pub(crate) fn to_ascii_upper(s: &str) -> (r: String)
    ensures
        r@ == ascii_upper(s@),
{
    s.to_ascii_uppercase()
}

/// Relies on str::to_ascii_lowercase: ASCII letters 'A' to 'Z' are mapped to
/// 'a' to 'z' and every other character is unchanged, character by character.
#[verifier::external_body]
pub(crate) fn to_ascii_lower(s: &str) -> (r: String)
    ensures
        r@ == ascii_lower(s@),
{
    s.to_ascii_lowercase()
}

/// Relies on fastrand::usize: the result lies in the given range, and only
/// an empty range panics, so the bound must be positive. The result draws on
/// a thread-local generator, so nothing relates one call to the next.
#[verifier::external_body]
pub(crate) fn random_index(bound: usize) -> (r: usize)
    requires
        bound >= 1,
    ensures
        r < bound,
{
    fastrand::usize(0..bound)
}

/// Relies on console::style and the Display of its StyledObject: it writes an
/// optional escape-code prefix (when colors are enabled), then the text
/// itself, then an optional reset suffix, so the text stands embedded in the
/// result whatever the terminal settings are.
#[verifier::external_body]
pub(crate) fn style_exact(s: &str) -> (r: String)
    ensures
        exists|pre: Seq<char>, post: Seq<char>| r@ == pre + s@ + post,
{
    format!("{}", console::style(s).green().underlined())
}

/// Relies on console::style and the Display of its StyledObject, as
/// `style_exact` does: the text stands embedded in the result.
#[verifier::external_body]
pub(crate) fn style_present(s: &str, color: u8) -> (r: String)
    ensures
        exists|pre: Seq<char>, post: Seq<char>| r@ == pre + s@ + post,
{
    format!("{}", console::style(s).color256(color))
}

} // verus!
