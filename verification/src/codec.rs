//! The external value codec, at its interface boundary.
//!
//! Every storage value and every call input/output tuple crosses this
//! boundary as SCALE-encoded bytes. The byte-level encoding rules are the
//! codec's own business; here each operation's result is only given a name,
//! together with the round-trip fact the codec documents.

use vstd::prelude::*;

verus! {

/// The SCALE encoding of a string: a compact length prefix followed by the
/// UTF-8 bytes. A function of the string alone.
pub uninterp spec fn scale_enc_str(s: Seq<char>) -> Seq<u8>;

/// What SCALE decoding of `b` as a string returns: `Some` with the decoded
/// characters, or `None` where `b` is not a valid encoding. A function of
/// the bytes alone.
pub uninterp spec fn scale_dec_str(b: Seq<u8>) -> Option<Seq<char>>;

/// The most characters a string may hold and still be encoded here: a
/// character takes at most four UTF-8 bytes, and the codec's compact
/// length prefix panics beyond the four-byte-word byte count, so this many
/// characters always encode without reaching that edge.
pub const MAX_ENCODABLE_CHARS: usize = 0x3FFF_FFFF;

/// Relies on `parity_scale_codec::Encode` for `String`: the encoding is a
/// compact length prefix (at least one byte) followed by the UTF-8 bytes,
/// computed from the string alone, and `Decode` inverts it. The codec
/// panics on a byte length over the compact-length limit, so such strings
/// are excluded here.
#[verifier::external_body]
pub fn encode_string(value: &String) -> (r: Vec<u8>)
    requires
        value@.len() <= MAX_ENCODABLE_CHARS,
    ensures
        r@ == scale_enc_str(value@),
        scale_dec_str(r@) == Some(value@),
        r@.len() >= 1,
{
    parity_scale_codec::Encode::encode(value)
}

/// Relies on `parity_scale_codec::Decode` for `String`: the result is
/// computed from the input bytes alone, and the decoded characters are
/// read from the input one or more bytes each, so there are never more
/// characters than input bytes.
#[verifier::external_body]
pub fn decode_string(bytes: &Vec<u8>) -> (r: Option<String>)
    ensures
        (match r {
            Some(s) => scale_dec_str(bytes@) == Some(s@) && s@.len() <= bytes@.len(),
            None => scale_dec_str(bytes@) is None,
        }),
{
    let mut input: &[u8] = bytes.as_slice();
    match <String as parity_scale_codec::Decode>::decode(&mut input) {
        Ok(s) => Some(s),
        Err(_) => None,
    }
}

} // verus!
