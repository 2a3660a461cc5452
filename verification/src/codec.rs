use vstd::prelude::*;

verus! {

/// The text that Shift_JIS decoding (with replacement of malformed
/// sequences) yields for the given bytes. Decoding is a function of the bytes
/// alone.
pub uninterp spec fn shift_jis_of(bytes: Seq<u8>) -> Seq<char>;

/// The text that lossy UTF-8 decoding (malformed sequences replaced by the
/// replacement character) yields for the given bytes. Decoding is a function
/// of the bytes alone.
pub uninterp spec fn utf8_lossy_of(bytes: Seq<u8>) -> Seq<char>;

/// Relies on encoding_rs::SHIFT_JIS.decode: decoding replaces malformed
/// sequences instead of failing, depends only on the input bytes, and yields
/// the empty string for empty input.
#[verifier::external_body]
pub(crate) fn decode_shift_jis(bytes: &Vec<u8>) -> (r: String)
    ensures
        r@ == shift_jis_of(bytes@),
        bytes@.len() == 0 ==> r@.len() == 0,
{
    let (text, _encoding, _had_errors) = encoding_rs::SHIFT_JIS.decode(bytes.as_slice());
    text.into_owned()
}

/// Relies on String::from_utf8_lossy: decoding replaces malformed sequences
/// instead of failing, depends only on the input bytes, and yields the empty
/// string for empty input.
#[verifier::external_body]
pub(crate) fn decode_utf8_lossy(bytes: &Vec<u8>) -> (r: String)
    ensures
        r@ == utf8_lossy_of(bytes@),
        bytes@.len() == 0 ==> r@.len() == 0,
{
    String::from_utf8_lossy(bytes.as_slice()).into_owned()
}

} // verus!
