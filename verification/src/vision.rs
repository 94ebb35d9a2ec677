//! Turn a screenshot and a prompt into the exact vision-model request, and
//! read the image dimensions needed for pixel conversion. The base64
//! encoding and the PNG decoding are the work of outside crates, assumed
//! behind named results; everything around them is verified.

use vstd::prelude::*;
use base64::Engine;
use crate::errors::DaemonError;
use crate::payload::vision_body_spec;
use crate::payload::vision_request_body;

verus! {

/// A name for what the standard padded base64 encoding returns; the result
/// depends on the bytes alone.
pub uninterp spec fn base64_of(b: Seq<u8>) -> Seq<char>;

/// Relies on `base64::engine::general_purpose::STANDARD.encode`: the
/// standard alphabet with padding, four characters for every three bytes.
#[verifier::external_body]
fn base64_encode(b: &Vec<u8>) -> (r: String)
    requires
        b@.len() <= usize::MAX / 4,
    ensures
        r@ == base64_of(b@),
        r@.len() == 4 * ((b@.len() + 2) / 3),
{
    base64::engine::general_purpose::STANDARD.encode(b)
}

/// A name for the dimensions a PNG decoder reads out of the bytes: `None`
/// when the bytes are not a decodable PNG image, else `Some((width,
/// height))`. The result depends on the bytes alone.
pub uninterp spec fn png_dims_of(b: Seq<u8>) -> Option<(u32, u32)>;

/// Relies on `image::ImageReader::decode` with the PNG format forced: a
/// decodable image yields its dimensions, anything else an error message.
#[verifier::external_body]
fn png_decode_dimensions(b: &Vec<u8>) -> (r: Result<(u32, u32), String>)
    ensures
        r matches Ok(d) ==> png_dims_of(b@) == Some(d),
        r is Err ==> png_dims_of(b@) is None,
{
    let reader = image::ImageReader::with_format(
        std::io::Cursor::new(b.as_slice()),
        image::ImageFormat::Png,
    );
    match reader.decode() {
        Ok(img) => Ok((img.width(), img.height())),
        Err(e) => Err(format!("{}", e)),
    }
}

/// The dimensions of the screenshot, or the image-decoding error.
pub fn screenshot_dimensions(screenshot: &Vec<u8>) -> (r: Result<(u32, u32), DaemonError>)
    ensures
        r matches Ok(d) ==> png_dims_of(screenshot@) == Some(d),
        (r is Err) == (png_dims_of(screenshot@) is None),
        r matches Err(e) ==> e is ImageDecodingError,
{
    match png_decode_dimensions(screenshot) {
        Ok(d) => Ok(d),
        Err(m) => Err(DaemonError::ImageDecodingError(m)),
    }
}

/// The exact chat-completions body for this prompt and screenshot.
pub fn build_vision_request(prompt: &str, screenshot: &Vec<u8>) -> (r: String)
    requires
        screenshot@.len() <= usize::MAX / 4,
    ensures
        r@ == vision_body_spec(prompt@, base64_of(screenshot@)),
{
    let image_b64 = base64_encode(screenshot);
    vision_request_body(prompt, image_b64.as_str())
}

} // verus!
