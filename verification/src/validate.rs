//! The image validator: an image is accepted when it is wide enough and not
//! taller than wide. The `image` crate finds the format by the leading bytes
//! and reads the size from the header. Two formats are turned down unread,
//! WebP and TIFF, because their decoders can fail hard before they give a
//! size.

use vstd::prelude::*;
use crate::model::WALLPAPER_MIN_WIDTH;

verus! {

/// Why an image was turned down.
#[derive(Clone, Copy, Debug, PartialEq, Eq, Structural)]
pub enum Rejection {
    /// The format was not recognised or is one that is not read, or the
    /// bytes break off or are damaged before the size is known.
    Undecodable,
    /// The image is narrower than the minimum width.
    TooNarrow,
    /// The image is wide enough but taller than wide.
    Portrait,
}

/// The `image` crate's error, carried from the decoder to the place where it
/// becomes a [`Rejection`].
#[verifier::external_type_specification]
#[verifier::external_body]
pub struct ExImageError(image::ImageError);

/// The bytes begin with `RIFF`, which the `image` crate takes for WebP. Its
/// WebP decoder decodes a whole frame before it gives a size, and in doing so
/// multiplies 16-bit block counts that can overflow.
pub open spec fn is_webp_stream(bytes: Seq<u8>) -> bool {
    bytes.len() >= 4 && bytes[0] == 0x52 && bytes[1] == 0x49 && bytes[2] == 0x46 && bytes[3] == 0x46
}

/// The bytes begin with `MM\0*` or `II*\0`, which the `image` crate takes for
/// TIFF. Its TIFF decoder checks the number of strips with a 32-bit product
/// of rows and planes that can overflow.
pub open spec fn is_tiff_stream(bytes: Seq<u8>) -> bool {
    bytes.len() >= 4 && ((bytes[0] == 0x4d && bytes[1] == 0x4d && bytes[2] == 0x00 && bytes[3] == 0x2a)
        || (bytes[0] == 0x49 && bytes[1] == 0x49 && bytes[2] == 0x2a && bytes[3] == 0x00))
}

/// The bytes begin with the PNG signature, or with the four bytes by which
/// the `image` crate knows an icon, which may hold a PNG.
pub open spec fn may_hold_png(bytes: Seq<u8>) -> bool {
    ||| bytes.len() >= 8 && bytes[0] == 0x89 && bytes[1] == 0x50 && bytes[2] == 0x4e && bytes[3] == 0x47
        && bytes[4] == 0x0d && bytes[5] == 0x0a && bytes[6] == 0x1a && bytes[7] == 0x0a
    ||| bytes.len() >= 4 && bytes[0] == 0x00 && bytes[1] == 0x00 && bytes[2] == 0x01 && bytes[3] == 0x00
}

/// The length from which a PNG stream is not read: the PNG decoder counts
/// frame-control chunks in 32 bits, and a stream this long could hold enough
/// of them to overflow the counter.
pub const PNG_LENGTH_LIMIT: u64 = 0x1_0000_0000;

/// The content is not handed to the `image` crate: it is WebP or TIFF, or
/// it may hold a PNG and is as long as `PNG_LENGTH_LIMIT`.
pub open spec fn left_unread(bytes: Seq<u8>) -> bool {
    is_webp_stream(bytes) || is_tiff_stream(bytes) || (may_hold_png(bytes) && bytes.len() >= PNG_LENGTH_LIMIT)
}

/// The width and height that the `image` crate reads from `bytes` after
/// guessing the format from their content, or `None` where it reports an
/// error: an unknown format, a format built without a decoder, or a header
/// that breaks off or is damaged.
pub uninterp spec fn image_dimensions(bytes: Seq<u8>) -> Option<(u32, u32)>;

/// Wraps `bytes` in an `image::io::Reader`, lets `with_guessed_format` sniff
/// the format and asks `into_dimensions` for width and height. For PNG, GIF,
/// JPEG, BMP, ICO, Radiance HDR, DDS, OpenEXR, PNM, farbfeld and QOI the
/// decoder that is made reads the header, or the metadata in front of the
/// pixels, and gives errors for what it cannot read. Content for which
/// `left_unread` holds is not admitted. The contract gives the outcome its
/// name: it depends on the bytes and on nothing else.
#[verifier::external_body]
fn read_dimensions(bytes: &[u8]) -> (measured: Result<(u32, u32), image::ImageError>)
    requires
        !left_unread(bytes@),
    ensures
        match measured {
            Ok(size) => image_dimensions(bytes@) == Some(size),
            Err(_) => image_dimensions(bytes@) is None,
        },
{
    image::io::Reader::new(std::io::Cursor::new(bytes))
        .with_guessed_format()
        .map_err(image::ImageError::IoError)?
        .into_dimensions()
}

/// The size read from `bytes`: what the `image` crate reads from content
/// that is handed to it, and none for content that is left unread.
pub open spec fn sniffed_dimensions(bytes: Seq<u8>) -> Option<(u32, u32)> {
    if left_unread(bytes) {
        None
    } else {
        image_dimensions(bytes)
    }
}

/// An image of this size is acceptable: at least the minimum width, and
/// landscape or square.
pub open spec fn acceptable(width: u32, height: u32) -> bool {
    width >= WALLPAPER_MIN_WIDTH && width >= height
}

/// The judgement on an image whose size was read as `measured`.
pub open spec fn judgement(measured: Option<(u32, u32)>) -> Result<(u32, u32), Rejection> {
    match measured {
        None => Err(Rejection::Undecodable),
        Some((width, height)) => if width < WALLPAPER_MIN_WIDTH {
            Err(Rejection::TooNarrow)
        } else if width < height {
            Err(Rejection::Portrait)
        } else {
            Ok((width, height))
        },
    }
}

/// Judges an image by the size that was read from it; `None` stands for an
/// image that could not be read.
pub fn judge_size(measured: Option<(u32, u32)>) -> (result: Result<(u32, u32), Rejection>)
    ensures
        result == judgement(measured),
        result is Ok <==> (measured matches Some(size) && acceptable(size.0, size.1)),
{
    match measured {
        None => Err(Rejection::Undecodable),
        Some((width, height)) => {
            if width < WALLPAPER_MIN_WIDTH {
                Err(Rejection::TooNarrow)
            } else if width < height {
                Err(Rejection::Portrait)
            } else {
                Ok((width, height))
            }
        },
    }
}

/// Whether the content is left unread: WebP, TIFF, or a stream that may
/// hold a PNG and is as long as `PNG_LENGTH_LIMIT`.
pub fn is_left_unread(bytes: &[u8]) -> (unread: bool)
    ensures
        unread == left_unread(bytes@),
{
    let n = bytes.len();
    if n < 4 {
        return false;
    }
    let webp = bytes[0] == 0x52 && bytes[1] == 0x49 && bytes[2] == 0x46 && bytes[3] == 0x46;
    let tiff = (bytes[0] == 0x4d && bytes[1] == 0x4d && bytes[2] == 0x00 && bytes[3] == 0x2a) || (bytes[0]
        == 0x49 && bytes[1] == 0x49 && bytes[2] == 0x2a && bytes[3] == 0x00);
    let icon = bytes[0] == 0x00 && bytes[1] == 0x00 && bytes[2] == 0x01 && bytes[3] == 0x00;
    let png = n >= 8 && bytes[0] == 0x89 && bytes[1] == 0x50 && bytes[2] == 0x4e && bytes[3] == 0x47
        && bytes[4] == 0x0d && bytes[5] == 0x0a && bytes[6] == 0x1a && bytes[7] == 0x0a;
    webp || tiff || ((png || icon) && n as u64 >= PNG_LENGTH_LIMIT)
}

/// Judges an image by its bytes: the format is found by content, only the
/// size is read, and the size decides. Content that is left unread is turned
/// down as undecodable.
pub fn validate_image(bytes: &[u8]) -> (result: Result<(u32, u32), Rejection>)
    ensures
        result == judgement(sniffed_dimensions(bytes@)),
{
    if is_left_unread(bytes) {
        return Err(Rejection::Undecodable);
    }
    let measured = match read_dimensions(bytes) {
        Ok(size) => Some(size),
        Err(_) => None,
    };
    judge_size(measured)
}

} // verus!
