use vstd::prelude::*;

verus! {

/// The character a byte spells when read as ASCII; bytes outside the ASCII
/// range are replaced rather than rejected.
pub open spec fn ascii_char_of(b: u8) -> char {
    if b < 128 {
        b as char
    } else {
        '\u{FFFD}'
    }
}

/// Relies on `String::push`: appends exactly the given character.
#[verifier::external_body]
pub(crate) fn push_char(s: &mut String, c: char)
    ensures
        final(s)@ == old(s)@.push(c),
{
    s.push(c)
}

/// Append the ASCII reading of one byte.
pub(crate) fn push_ascii(s: &mut String, b: u8)
    ensures
        final(s)@ == old(s)@.push(ascii_char_of(b)),
{
    if b < 128 {
        push_char(s, b as char);
    } else {
        push_char(s, '\u{FFFD}');
    }
}

} // verus!
