//! The login code drawn as text, for a terminal.

use vstd::prelude::*;
use crate::error::BiliLiveError;

verus! {

#[verifier::external_type_specification]
#[verifier::external_body]
pub struct ExQrError(qrcode::types::QrError);

/// The QR code of the bytes of `url`, at the default error correction, drawn
/// without quiet zone: two spaces for a light module, two full blocks for a
/// dark one, one line per row.
pub uninterp spec fn qr_art(url: Seq<char>) -> Seq<char>;

/// Whether `qrcode::QrCode::new` can encode the bytes of `url` (it cannot
/// when they are too many for the largest code).
pub uninterp spec fn qr_encodable(url: Seq<char>) -> bool;

/// Relies on `qrcode::QrCode::new` and its text renderer: whether it
/// succeeds, and the drawing, depend on the URL alone.
#[verifier::external_body]
fn draw_qr(url: &str) -> (r: Result<String, qrcode::types::QrError>)
    ensures
        r is Ok <==> qr_encodable(url@),
        r matches Ok(s) ==> s@ == qr_art(url@),
{
    let code = qrcode::QrCode::new(url.as_bytes())?;
    Ok(code.render().light_color("  ").dark_color("██").quiet_zone(false).build())
}

/// Relies on the `Display` of `qrcode::types::QrError`: a short description.
#[verifier::external_body]
fn qr_error_text(e: &qrcode::types::QrError) -> (r: String) {
    e.to_string()
}

/// The login code for `url`, drawn for a terminal.
pub fn terminal_qr(url: &str) -> (r: Result<String, BiliLiveError>)
    ensures
        r is Ok <==> qr_encodable(url@),
        r matches Ok(s) ==> s@ == qr_art(url@),
        r matches Err(e) ==> e is QrCodeError,
{
    match draw_qr(url) {
        Ok(s) => Ok(s),
        Err(e) => Err(BiliLiveError::QrCodeError(qr_error_text(&e))),
    }
}

} // verus!
