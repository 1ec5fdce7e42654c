use vstd::prelude::*;

verus! {

/// What `isin::parse_loose` makes of 12 raw payload bytes (after a lossy
/// ASCII reading): `Some` with the 12 characters of the validated code, or
/// `None` where the validator rejects the text. The validator's full rule
/// (format plus check digit) is not restated here; it is a function of the
/// bytes alone, so it only carries a name.
pub uninterp spec fn isin_of(b: Seq<u8>) -> Option<Seq<char>>;

/// True of byte sequences that are already in the validator's canonical
/// shape: ASCII uppercase letters (65..=90) and digits (48..=57) only.
pub open spec fn upper_alnum(b: Seq<u8>) -> bool {
    forall|i: int|
        0 <= i < b.len() ==> (65 <= #[trigger] b[i] <= 90 || 48 <= b[i] <= 57)
}

/// The characters a byte sequence spells when each byte is read as ASCII.
pub open spec fn ascii_chars(b: Seq<u8>) -> Seq<char> {
    b.map_values(|x: u8| x as char)
}

/// Relies on `isin::parse_loose` (with a lossy UTF-8 reading of the bytes
/// first): it uppercases and trims its input, then accepts exactly the
/// 12-character codes whose format and check digit are valid, and the
/// accepted value prints as those 12 ASCII characters. On input that is
/// already 12 uppercase alphanumeric bytes, uppercasing and trimming change
/// nothing, so an accepted code reads back as the input itself.
#[verifier::external_body]
pub(crate) fn parse_instrument(bytes: &[u8]) -> (r: Option<String>)
    requires
        bytes@.len() == 12,
    ensures
        r is Some <==> isin_of(bytes@) is Some,
        r matches Some(s) ==> {
            &&& Some(s@) == isin_of(bytes@)
            &&& s@.len() == 12
        },
        (r is Some && upper_alnum(bytes@)) ==> isin_of(bytes@) == Some(ascii_chars(bytes@)),
{
    let text = String::from_utf8_lossy(bytes);
    match isin::parse_loose(&text) {
        Ok(code) => Some(format!("{}", code)),
        Err(_) => None,
    }
}

} // verus!
