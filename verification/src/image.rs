//! Image decoding boundary. The compiler only needs pixel dimensions and
//! raw RGBA bytes out of an image file; the decoding itself is the image
//! crate's work and is trusted at this boundary.

use vstd::prelude::*;

verus! {

/// An image decoded to RGBA pixels, two bytes of dimension each way.
pub struct Image {
    pub bytes: Vec<u8>,
    pub width: u16,
    pub height: u16,
}

#[verifier::external_type_specification]
#[verifier::external_body]
pub struct ExImageFormat(image::ImageFormat);

/// What decoding a byte stream as PNG yields: pixel width, pixel height and
/// the RGBA buffer, a function of the input bytes alone; `None` when the
/// stream does not decode as PNG.
pub uninterp spec fn png_image(bytes: Seq<u8>) -> Option<(u32, u32, Seq<u8>)>;

/// Relies on image::load_from_memory_with_format, pinned to the PNG
/// format: the result depends on the byte stream alone, and a decoded
/// image's RGBA buffer holds `width * height * 4` bytes.
#[verifier::external_body]
pub(crate) fn decode_png(bytes: &[u8]) -> (r: Option<(u32, u32, Vec<u8>)>)
    ensures
        r is Some <==> png_image(bytes@) is Some,
        r matches Some(t) ==> {
            &&& png_image(bytes@) == Some((t.0, t.1, t.2@))
            &&& t.2@.len() == 4 * t.0 * t.1
        },
{
    match image::load_from_memory_with_format(bytes, image::ImageFormat::Png) {
        Ok(img) => {
            let rgba = img.to_rgba8();
            let width = rgba.width();
            let height = rgba.height();
            Some((width, height, rgba.into_raw()))
        },
        Err(_) => None,
    }
}

/// Relies on image::load_from_memory_with_format with a caller-chosen
/// format: a decoded image's RGBA buffer holds `width * height * 4` bytes.
#[verifier::external_body]
fn decode_with_format(bytes: &[u8], format: image::ImageFormat) -> (r: Option<(u32, u32, Vec<u8>)>)
    ensures
        r matches Some(t) ==> t.2@.len() == 4 * t.0 * t.1,
{
    match image::load_from_memory_with_format(bytes, format) {
        Ok(img) => {
            let rgba = img.to_rgba8();
            let width = rgba.width();
            let height = rgba.height();
            Some((width, height, rgba.into_raw()))
        },
        Err(_) => None,
    }
}

/// Relies on image::load_from_memory, which guesses the format from the
/// bytes: a decoded image's RGBA buffer holds `width * height * 4` bytes.
#[verifier::external_body]
fn decode_guessed(bytes: &[u8]) -> (r: Option<(u32, u32, Vec<u8>)>)
    ensures
        r matches Some(t) ==> t.2@.len() == 4 * t.0 * t.1,
{
    match image::load_from_memory(bytes) {
        Ok(img) => {
            let rgba = img.to_rgba8();
            let width = rgba.width();
            let height = rgba.height();
            Some((width, height, rgba.into_raw()))
        },
        Err(_) => None,
    }
}

impl Image {
    /// Decodes an image to RGBA, with the given format or by guessing it
    /// from the bytes. An undecodable stream, or dimensions past `u16`,
    /// yield `None`.
    pub fn from_file_with_format(bytes: &[u8], format: Option<image::ImageFormat>) -> (r: Option<
        Image,
    >)
        ensures
            r matches Some(img) ==> img.bytes@.len() == 4 * img.width * img.height,
    {
        let decoded = match format {
            Some(f) => decode_with_format(bytes, f),
            None => decode_guessed(bytes),
        };
        match decoded {
            Some((width, height, pixels)) => {
                if width > 65535 || height > 65535 {
                    None
                } else {
                    Some(Image { bytes: pixels, width: width as u16, height: height as u16 })
                }
            },
            None => None,
        }
    }

    pub fn width(&self) -> (r: usize)
        ensures
            r == self.width,
    {
        self.width as usize
    }

    pub fn height(&self) -> (r: usize)
        ensures
            r == self.height,
    {
        self.height as usize
    }
}

} // verus!
