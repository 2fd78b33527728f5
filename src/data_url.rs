use vstd::prelude::*;

use base64::Engine;

use crate::permission::{has_prefix, starts_with_str};
use crate::types::{CaptureError, CaptureErrorKind};

verus! {

/// The error of `base64` decoding, carried through without being read.
#[verifier::external_type_specification]
#[verifier::external_body]
pub struct ExDecodeError(base64::DecodeError);

/// The prefix of an edited image handed back by the editor.
pub const PNG_DATA_PREFIX: &'static str = "data:image/png;base64,";

/// The bytes that standard base64 (with padding) decodes `s` to, or None
/// where it refuses the text.
pub uninterp spec fn standard_base64_decoded(s: Seq<char>) -> Option<Seq<u8>>;

/// Relies on `base64::engine::general_purpose::STANDARD.decode`: the
/// outcome depends on the text alone.
#[verifier::external_body]
fn decode_standard(s: &str) -> (r: Result<Vec<u8>, base64::DecodeError>)
    ensures
        r matches Ok(v) ==> standard_base64_decoded(s@) == Some(v@),
        r is Err ==> standard_base64_decoded(s@) is None,
{
    base64::engine::general_purpose::STANDARD.decode(s)
}

/// The text after the PNG data-URL prefix, if `data` starts with it.
pub fn png_base64_payload(data: &str) -> (r: Option<&str>)
    ensures
        has_prefix(data@, PNG_DATA_PREFIX@) <==> r is Some,
        r matches Some(p) ==> p@ == data@.subrange(PNG_DATA_PREFIX@.len() as int, data@.len() as int),
{
    if !starts_with_str(data, PNG_DATA_PREFIX) {
        return None;
    }
    let n = data.unicode_len();
    let m = PNG_DATA_PREFIX.unicode_len();
    Some(data.substring_char(m, n))
}

/// The PNG bytes inside a data URL from the editor.
pub fn decode_png_data_url(data: &str) -> (r: Result<Vec<u8>, CaptureError>)
    ensures
        r matches Err(e) ==> e.kind == CaptureErrorKind::ValidationFailed,
        !has_prefix(data@, PNG_DATA_PREFIX@) ==> r is Err,
        has_prefix(data@, PNG_DATA_PREFIX@) ==> {
            let payload = data@.subrange(PNG_DATA_PREFIX@.len() as int, data@.len() as int);
            &&& r is Ok <==> standard_base64_decoded(payload) is Some
            &&& r matches Ok(v) ==> standard_base64_decoded(payload) == Some(v@)
        },
{
    let payload = match png_base64_payload(data) {
        Some(p) => p,
        None => {
            return Err(CaptureError::new(
                CaptureErrorKind::ValidationFailed,
                "Invalid image data format: expected data:image/png;base64, prefix",
            ));
        },
    };
    match decode_standard(payload) {
        Ok(bytes) => Ok(bytes),
        Err(_) => Err(CaptureError::new(CaptureErrorKind::ValidationFailed, "Failed to decode base64")),
    }
}

} // verus!
