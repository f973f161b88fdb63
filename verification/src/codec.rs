//! Encodings the pipeline leans on outside crates for: standard base64, the
//! md5 hex digest, percent-encoding for cloud paths, and QR code rendering.
//! Each outside result is named and the names tie the callers' contracts
//! together.

use vstd::prelude::*;

use base64::Engine;

use crate::errors::OpError;

verus! {

/// What standard base64 encoding yields: a function of the bytes alone.
pub uninterp spec fn b64_of(data: Seq<u8>) -> Seq<char>;

/// What standard base64 decoding yields, and nothing when the input is not
/// valid base64: a function of the characters alone.
pub uninterp spec fn b64_decode_of(s: Seq<char>) -> Option<Seq<u8>>;

/// Relies on base64's `Engine::encode` with the standard alphabet: the
/// encoding is a function of the bytes alone, decoding it yields the bytes
/// back, and empty input encodes to the empty string.
#[verifier::external_body]
pub fn base64_encode(data: &[u8]) -> (r: String)
    ensures
        r@ == b64_of(data@),
        b64_decode_of(r@) == Some(data@),
        data@.len() == 0 ==> r@.len() == 0,
{
    base64::engine::general_purpose::STANDARD.encode(data)
}

/// Relies on base64's `Engine::decode` with the standard alphabet: it
/// succeeds exactly on valid standard base64 and yields the encoded bytes.
#[verifier::external_body]
pub fn base64_decode(data: &str) -> (r: Result<Vec<u8>, OpError>)
    ensures
        r is Ok <==> b64_decode_of(data@) is Some,
        r is Ok ==> r.unwrap()@ == b64_decode_of(data@).unwrap(),
        r is Err ==> r->Err_0 == OpError::InvalidInput,
{
    base64::engine::general_purpose::STANDARD.decode(data).map_err(|_| OpError::InvalidInput)
}

/// What the md5 digest of the bytes prints as lowercase hex: a function of
/// the bytes alone.
pub uninterp spec fn md5_hex_of(data: Seq<u8>) -> Seq<char>;

/// Relies on `md5::compute` and the digest's lowercase-hex formatting: the
/// digest is sixteen bytes, so its hex form is thirty-two lowercase hex
/// characters, a function of the input bytes alone.
#[verifier::external_body]
pub fn get_str_md5(data: &[u8]) -> (r: String)
    ensures
        r@ == md5_hex_of(data@),
        r@.len() == 32,
        forall|i: int|
            0 <= i < r@.len() ==> (0x30 <= (#[trigger] r@[i]) as u32 <= 0x39 || 0x61 <= (
            r@[i]) as u32 <= 0x66),
{
    format!("{:x}", md5::compute(data))
}

/// What percent-encoding every non-alphanumeric byte of the string yields: a
/// function of the characters alone.
pub uninterp spec fn percent_encoded_of(s: Seq<char>) -> Seq<char>;

/// Relies on percent-encoding's `utf8_percent_encode` over the
/// non-alphanumeric set: the result depends on the characters alone, and an
/// empty string stays empty.
#[verifier::external_body]
pub(crate) fn percent_encode_non_alphanumeric(s: &str) -> (r: String)
    ensures
        r@ == percent_encoded_of(s@),
        s@.len() == 0 ==> r@.len() == 0,
{
    percent_encoding::utf8_percent_encode(s, percent_encoding::NON_ALPHANUMERIC).to_string()
}

/// What rendering the text as a QR code PNG of the given pixel size yields,
/// and nothing when the text does not fit a code: a function of text and
/// size alone.
pub uninterp spec fn qr_png_of(text: Seq<char>, size: int) -> Option<Seq<u8>>;

/// Relies on qrcode_generator's `to_png_to_vec` at the low error-correction
/// level: it succeeds exactly when the text fits, and the image is a
/// function of text and size alone.
#[verifier::external_body]
pub(crate) fn qr_code_png(text: &str, size: usize) -> (r: Result<Vec<u8>, OpError>)
    ensures
        r is Ok <==> qr_png_of(text@, size as int) is Some,
        r is Ok ==> r.unwrap()@ == qr_png_of(text@, size as int).unwrap(),
        r is Err ==> r->Err_0 == OpError::InvalidInput,
{
    qrcode_generator::to_png_to_vec(text, qrcode_generator::QrCodeEcc::Low, size).map_err(
        |_| OpError::InvalidInput,
    )
}

} // verus!
