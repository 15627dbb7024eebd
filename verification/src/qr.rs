//! QR rendering of invoice text as a bmp data url.

use vstd::prelude::*;

use crate::error::Error;

verus! {

/// What base64-encoding a byte string yields.
pub uninterp spec fn base64_of(data: Seq<u8>) -> Seq<char>;

/// Relies on `base64::encode` (standard alphabet, padded): the encoding
/// is a function of the bytes alone.
#[verifier::external_body]
fn base64_encode(data: &[u8]) -> (r: String)
    ensures
        r@ == base64_of(data@),
{
    base64::encode(data)
}

/// What rendering a QR code of a text as a monochrome bitmap yields:
/// the bitmap file's bytes, or `None` when the text does not fit any QR
/// code.
pub uninterp spec fn qr_bmp_of(message: Seq<char>) -> Option<Seq<u8>>;

/// Relies on `qr_code::QrCode::new` and the bmp renderer, with a white
/// border of 4 modules and a scale of 4: the bitmap is a function of
/// the text alone.
#[verifier::external_body]
fn qr_bmp(message: &str) -> (r: Option<Vec<u8>>)
    ensures
        match r {
            Some(v) => qr_bmp_of(message@) == Some(v@),
            None => qr_bmp_of(message@) is None,
        },
{
    let qr = qr_code::QrCode::new(message.as_bytes()).ok()?;
    let bmp = qr.to_bmp().add_white_border(4).ok()?.mul(4).ok()?;
    let mut cursor = std::io::Cursor::new(vec![]);
    bmp.write(&mut cursor).ok()?;
    Some(cursor.into_inner())
}

/// The data-url form of a byte string under a content type.
pub open spec fn data_url_of(data: Seq<u8>, content_type: Seq<char>) -> Seq<char> {
    "data:"@ + content_type + ";base64,"@ + base64_of(data)
}

/// Convert `input` to base64 and return it as a data url.
pub fn to_data_url(input: &[u8], content_type: &str) -> (r: String)
    ensures
        r@ == data_url_of(input@, content_type@),
{
    let b64 = base64_encode(input);
    let mut r = String::new();
    r.append("data:");
    r.append(content_type);
    r.append(";base64,");
    r.append(b64.as_str());
    proof {
        assert(r@ =~= data_url_of(input@, content_type@));
    }
    r
}

/// Create a QR code containing `message` and encode it as a bmp data
/// url.
pub fn create_bmp_base64_qr(message: &str) -> (r: Result<String, Error>)
    ensures
        match r {
            Ok(s) => qr_bmp_of(message@) matches Some(b) && s@ == data_url_of(b, "image/bmp"@),
            Err(e) => e == Error::Qr && qr_bmp_of(message@) is None,
        },
{
    match qr_bmp(message) {
        Some(bytes) => Ok(to_data_url(bytes.as_slice(), "image/bmp")),
        None => Err(Error::Qr),
    }
}

} // verus!
