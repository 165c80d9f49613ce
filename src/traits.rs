use vstd::prelude::*;

verus! {

/// The UTF-16 code units that encode `s`.
pub uninterp spec fn utf16_units(s: Seq<char>) -> Seq<u16>;

/// Relies on `str::encode_utf16`: the code units depend on the characters
/// alone, and no character gives none.
#[verifier::external_body]
fn encode_utf16_units(s: &str) -> (r: Vec<u16>)
    ensures
        r@ == utf16_units(s@),
        s@.len() == 0 ==> r@.len() == 0,
{
    s.encode_utf16().collect()
}

/// `units` followed by a terminating null unit.
pub fn null_terminated(units: Vec<u16>) -> (r: Vec<u16>)
    ensures
        r@ == units@.push(0u16),
{
    let mut units = units;
    units.push(0u16);
    units
}

/// Conversion to a null-terminated UTF-16 buffer, as wide-string system
/// interfaces expect.
pub trait EncodeUtf16: Sized {
    /// The characters to encode.
    spec fn text(&self) -> Seq<char>;

    fn to_utf16(self) -> (r: Vec<u16>)
        ensures
            r@ == utf16_units(self.text()).push(0u16),
    ;
}

impl<'a> EncodeUtf16 for &'a str {
    open spec fn text(&self) -> Seq<char> {
        self@
    }

    fn to_utf16(self) -> (r: Vec<u16>) {
        null_terminated(encode_utf16_units(self))
    }
}

impl EncodeUtf16 for String {
    open spec fn text(&self) -> Seq<char> {
        self@
    }

    fn to_utf16(self) -> (r: Vec<u16>) {
        self.as_str().to_utf16()
    }
}

} // verus!
