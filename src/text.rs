use vstd::prelude::*;
use vstd::utf8::{decode_utf8, valid_utf8};

verus! {

/// The first format version whose strings are UTF-8; earlier versions use Shift_JIS.
pub const UTF8_VERSION: u8 = 6;

/// Longest input the decoder accepts: the legacy text decoder sizes its
/// output buffer as a small multiple of its input, which must not overflow.
pub const MAX_INPUT: usize = usize::MAX / 8;

/// Text that Shift_JIS decoding makes of the bytes, malformed sequences
/// replaced by U+FFFD.
pub uninterp spec fn shift_jis_decoded(b: Seq<u8>) -> Seq<char>;

/// The characters that the bytes of a string stand for under `version`, or
/// `None` where the bytes are not valid UTF-8 and the version asks for it.
pub open spec fn decode_text(b: Seq<u8>, version: u8) -> Option<Seq<char>> {
    if version >= UTF8_VERSION {
        if valid_utf8(b) {
            Some(decode_utf8(b))
        } else {
            None
        }
    } else {
        Some(shift_jis_decoded(b))
    }
}

/// Relies on `encoding_rs::Encoding::decode_without_bom_handling` for
/// `SHIFT_JIS`: the text is a function of the bytes alone, and it panics only
/// when its buffer size overflows `usize`.
#[verifier::external_body]
fn shift_jis_text(b: &[u8]) -> (r: String)
    requires
        b@.len() <= MAX_INPUT,
    ensures
        r@ == shift_jis_decoded(b@),
{
    encoding_rs::SHIFT_JIS.decode_without_bom_handling(b).0.into_owned()
}

/// Relies on `String::from_utf8`: it succeeds exactly on valid UTF-8 and then
/// holds the characters that the bytes encode.
#[verifier::external_body]
fn utf8_text(b: Vec<u8>) -> (r: Option<String>)
    ensures
        r is Some <==> valid_utf8(b@),
        r matches Some(s) ==> s@ == decode_utf8(b@),
{
    String::from_utf8(b).ok()
}

/// Decodes the bytes of one string as `version` asks.
pub fn decode_string(b: Vec<u8>, version: u8) -> (r: Option<String>)
    requires
        b@.len() <= MAX_INPUT,
    ensures
        r is Some <==> decode_text(b@, version) is Some,
        r matches Some(s) ==> decode_text(b@, version) == Some(s@),
{
    if version >= UTF8_VERSION {
        utf8_text(b)
    } else {
        Some(shift_jis_text(b.as_slice()))
    }
}

} // verus!
