//! Encoding a pixel buffer into an image container byte stream.

use vstd::prelude::*;
use crate::save::ImageFormat;

verus! {

/// An error from saving the displayed image.
#[derive(Clone, Copy, PartialEq, Eq, Structural, Debug)]
pub enum SaveError {
    /// Nothing has been encoded yet, so there is no image to save.
    MissingImage,
    /// The image library could not encode the pixel buffer.
    EncodingFailed,
}

impl SaveError {
    /// What [`SaveError::message`] returns for each error.
    pub open spec fn spec_message(self) -> Seq<char> {
        match self {
            SaveError::MissingImage => "missing image"@,
            SaveError::EncodingFailed => "could not encode image"@,
        }
    }

    /// A short, never empty description of the error.
    pub fn message(&self) -> (m: String)
        ensures
            m@ == self.spec_message(),
            m@.len() > 0,
    {
        proof {
            reveal_strlit("missing image");
            reveal_strlit("could not encode image");
        }
        match self {
            SaveError::MissingImage => "missing image".to_owned(),
            SaveError::EncodingFailed => "could not encode image".to_owned(),
        }
    }
}

/// The byte stream the image library produces when it encodes an 8-bit
/// RGB buffer of the given size into the container format with the
/// given code (see `ImageFormat::code`).
pub uninterp spec fn encoded_image_of(
    format_code: int,
    width: int,
    height: int,
    pixels: Seq<u8>,
) -> Seq<u8>;

/// Whether the image library can encode an 8-bit RGB buffer of the
/// given size into the container format with the given code: like the
/// byte stream itself, a function of those arguments alone.
pub uninterp spec fn image_encode_ok(
    format_code: int,
    width: int,
    height: int,
    pixels: Seq<u8>,
) -> bool;

/// Relies on image::write_buffer_with_format: it encodes an 8-bit RGB
/// buffer into the chosen container format, and succeeds or fails,
/// depending on the buffer, its dimensions and the format alone; the
/// buffer must hold exactly three bytes per pixel.
#[verifier::external_body]
pub(crate) fn encode_pixels(data: &Vec<u8>, width: u32, height: u32, format: ImageFormat) -> (r: Option<
    Vec<u8>,
>)
    requires
        data@.len() == 3 * (width as int) * (height as int),
    ensures
        r is Some <==> image_encode_ok(format.code(), width as int, height as int, data@),
        r is Some ==> r->0@ == encoded_image_of(
            format.code(),
            width as int,
            height as int,
            data@,
        ),
{
    let f = match format { ImageFormat::Png => image::ImageFormat::Png, ImageFormat::Jpeg => image::ImageFormat::Jpeg, ImageFormat::Bmp => image::ImageFormat::Bmp };
    let mut out = std::io::Cursor::new(Vec::new());
    match image::write_buffer_with_format(&mut out, data.as_slice(), width, height, image::ExtendedColorType::Rgb8, f) {
        Ok(()) => Some(out.into_inner()),
        Err(_) => None,
    }
}

} // verus!
