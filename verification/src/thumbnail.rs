//! Thumbnails: decode, bring upright by the EXIF orientation, shrink to the
//! thumbnail long edge, encode as lossless WebP.
//!
//! Pixel work is the image crate's and EXIF parsing kamadak-exif's, reached
//! through the trusted wrappers below. Which orientation fix applies,
//! whether an image is shrunk, and how failures are reported are decided
//! here.

use image::DynamicImage;
use vstd::prelude::*;

use crate::media::{MediaError, OrientationFix, THUMB_LONG_EDGE, orientation_fix, orientation_fix_spec};

verus! {

/// Largest width or height a source image may decode to: the file-size cap
/// limits the file, this limits what it may decode into.
pub const MAX_DECODE_SIDE: u32 = 16384;

/// Width of the placeholder thumbnail used when a video has no poster.
pub const PLACEHOLDER_WIDTH: u32 = 256;

/// Height of the placeholder thumbnail used when a video has no poster.
pub const PLACEHOLDER_HEIGHT: u32 = 144;

/// A decoded image of the image crate; its pixels are opaque here.
#[verifier::external_type_specification]
#[verifier::external_body]
pub struct ExDynamicImage(image::DynamicImage);

/// The EXIF orientation tag of the primary image in an encoded file, as
/// kamadak-exif reads it; `None` when there is no EXIF block, no such tag,
/// or the tag is not an unsigned integer.
pub uninterp spec fn exif_orientation_of(bytes: Seq<u8>) -> Option<u32>;

/// Why the image crate refuses to decode an encoded file whose sides are
/// capped at `max_side`: its error message, or `None` when it decodes.
pub uninterp spec fn decode_failure(source: Seq<u8>, max_side: u32) -> Option<Seq<char>>;

/// The image the image crate decodes from an encoded file whose sides are
/// capped at `max_side`, when it decodes.
pub uninterp spec fn decoded_image(source: Seq<u8>, max_side: u32) -> DynamicImage;

/// Width and height of an image (`DynamicImage::width`, `height`).
pub uninterp spec fn image_dims(img: DynamicImage) -> (u32, u32);

/// The image mirrored left to right (`DynamicImage::fliph`).
pub uninterp spec fn fliph_of(img: DynamicImage) -> DynamicImage;

/// The image mirrored top to bottom (`DynamicImage::flipv`).
pub uninterp spec fn flipv_of(img: DynamicImage) -> DynamicImage;

/// The image turned 90° clockwise (`DynamicImage::rotate90`).
pub uninterp spec fn rotate90_of(img: DynamicImage) -> DynamicImage;

/// The image turned 180° (`DynamicImage::rotate180`).
pub uninterp spec fn rotate180_of(img: DynamicImage) -> DynamicImage;

/// The image turned 270° clockwise (`DynamicImage::rotate270`).
pub uninterp spec fn rotate270_of(img: DynamicImage) -> DynamicImage;

/// The image scaled to fit `width × height` (`DynamicImage::thumbnail`).
pub uninterp spec fn thumbnail_of(img: DynamicImage, width: u32, height: u32) -> DynamicImage;

/// The lossless WebP file image-webp writes for the image's RGBA8 pixels.
pub uninterp spec fn lossless_webp_of(img: DynamicImage) -> Seq<u8>;

/// The PNG bytes the image crate writes for a `width × height` image filled
/// with one RGBA colour; `None` if it fails to encode.
pub uninterp spec fn solid_png_bytes(width: u32, height: u32, rgba: Seq<u8>) -> Option<Seq<u8>>;

/// Reads the orientation with `exif::Reader::read_from_container`, then
/// `Exif::get_field(Tag::Orientation, In::PRIMARY)` and
/// `Value::get_uint(0)`. Claimed: the result is `exif_orientation_of` of
/// the bytes.
#[verifier::external_body]
fn exif_orientation(source: &[u8]) -> (r: Option<u32>)
    ensures
        r == exif_orientation_of(source@),
{
    let exif = exif::Reader::new().read_from_container(&mut std::io::Cursor::new(source)).ok()?;
    exif.get_field(exif::Tag::Orientation, exif::In::PRIMARY)?.value.get_uint(0)
}

/// Decodes with `image::ImageReader` (format guessed from the bytes), with
/// `Limits` capping width and height at `max_side`; a failure becomes its
/// message. Claimed: whether it fails, and with which message, is
/// `decode_failure` of the arguments; a decoded image is `decoded_image` of
/// them, and its sides are within the cap (every decoder checks its
/// dimensions against the limits before it decodes).
#[verifier::external_body]
fn decode_image(source: &[u8], max_side: u32) -> (r: Result<DynamicImage, String>)
    ensures
        match r {
            Ok(img) => {
                &&& decode_failure(source@, max_side) is None
                &&& img == decoded_image(source@, max_side)
                &&& image_dims(img).0 <= max_side
                &&& image_dims(img).1 <= max_side
            },
            Err(m) => decode_failure(source@, max_side) == Some(m@),
        },
{
    let mut reader = image::ImageReader::new(std::io::Cursor::new(source))
        .with_guessed_format()
        .map_err(|e| e.to_string())?;
    let mut limits = image::Limits::default();
    limits.max_image_width = Some(max_side);
    limits.max_image_height = Some(max_side);
    reader.limits(limits);
    reader.decode().map_err(|e| e.to_string())
}

/// `DynamicImage::width` and `height`. Claimed: they are `image_dims` of
/// the image.
#[verifier::external_body]
fn image_size(img: &DynamicImage) -> (r: (u32, u32))
    ensures
        r == image_dims(*img),
{
    (img.width(), img.height())
}

/// `DynamicImage::fliph`. Claimed: the result is `fliph_of` of the
/// image, and it keeps the width and height.
#[verifier::external_body]
fn flip_horizontal(img: &DynamicImage) -> (r: DynamicImage)
    ensures
        r == fliph_of(*img),
        image_dims(r) == image_dims(*img),
{
    img.fliph()
}

/// `DynamicImage::flipv`. Claimed: the result is `flipv_of` of the
/// image, and it keeps the width and height.
#[verifier::external_body]
fn flip_vertical(img: &DynamicImage) -> (r: DynamicImage)
    ensures
        r == flipv_of(*img),
        image_dims(r) == image_dims(*img),
{
    img.flipv()
}

/// `DynamicImage::rotate90`. Claimed: the result is `rotate90_of` of the
/// image, and it swaps the width and height.
#[verifier::external_body]
fn rotate_90(img: &DynamicImage) -> (r: DynamicImage)
    ensures
        r == rotate90_of(*img),
        image_dims(r) == (image_dims(*img).1, image_dims(*img).0),
{
    img.rotate90()
}

/// `DynamicImage::rotate180`. Claimed: the result is `rotate180_of` of the
/// image, and it keeps the width and height.
#[verifier::external_body]
fn rotate_180(img: &DynamicImage) -> (r: DynamicImage)
    ensures
        r == rotate180_of(*img),
        image_dims(r) == image_dims(*img),
{
    img.rotate180()
}

/// `DynamicImage::rotate270`. Claimed: the result is `rotate270_of` of the
/// image, and it swaps the width and height.
#[verifier::external_body]
fn rotate_270(img: &DynamicImage) -> (r: DynamicImage)
    ensures
        r == rotate270_of(*img),
        image_dims(r) == (image_dims(*img).1, image_dims(*img).0),
{
    img.rotate270()
}

/// `DynamicImage::thumbnail`: scales to fit `width × height`, keeping the
/// aspect ratio. The target is kept small, since the new pixel buffer is
/// allocated at that size. Claimed: the result is `thumbnail_of` of the
/// arguments; when the image and the target have no empty side, the
/// result's sides are between 1 and the target's (`resize_dimensions`
/// keeps each at least 1 and fits the bounds).
#[verifier::external_body]
fn fit_within(img: &DynamicImage, width: u32, height: u32) -> (r: DynamicImage)
    requires
        width * height <= 65536,
    ensures
        r == thumbnail_of(*img, width, height),
        image_dims(*img).0 >= 1 && image_dims(*img).1 >= 1 && width >= 1 && height >= 1 ==> {
            &&& 1 <= image_dims(r).0 <= width
            &&& 1 <= image_dims(r).1 <= height
        },
{
    img.thumbnail(width, height)
}

/// A file in the simple lossless WebP container: a `RIFF` header whose form
/// type is `WEBP`, followed by a `VP8L` chunk.
pub open spec fn is_lossless_webp(bytes: Seq<u8>) -> bool {
    &&& bytes.len() >= 16
    &&& bytes.subrange(0, 4) == seq![82u8, 73u8, 70u8, 70u8]
    &&& bytes.subrange(8, 12) == seq![87u8, 69u8, 66u8, 80u8]
    &&& bytes.subrange(12, 16) == seq![86u8, 80u8, 56u8, 76u8]
}

/// Sides a lossless WebP can hold: each between 1 and 16384.
pub open spec fn webp_encodable(dims: (u32, u32)) -> bool {
    1 <= dims.0 <= 16384 && 1 <= dims.1 <= 16384
}

/// Converts to RGBA8 (`to_rgba8`) and encodes with
/// `image::codecs::webp::WebPEncoder::new_lossless`; a failure becomes its
/// message. Claimed: it fails exactly when a side is 0 or over 16384
/// (image-webp's only refusal; writing to a `Vec` cannot fail); encoded
/// bytes are `lossless_webp_of` the image, a simple lossless WebP file,
/// since image-webp writes `RIFF`, the size, `WEBP` and then the `VP8L`
/// chunk when no metadata is set.
#[verifier::external_body]
fn encode_webp_lossless(img: &DynamicImage) -> (r: Result<Vec<u8>, String>)
    ensures
        r is Ok <==> webp_encodable(image_dims(*img)),
        r matches Ok(b) ==> b@ == lossless_webp_of(*img) && is_lossless_webp(b@),
{
    let rgba = img.to_rgba8();
    let mut out = Vec::new();
    image::codecs::webp::WebPEncoder::new_lossless(&mut out)
        .encode(rgba.as_raw(), rgba.width(), rgba.height(), image::ExtendedColorType::Rgba8)
        .map_err(|e| e.to_string())?;
    Ok(out)
}

/// Fills an `RgbaImage::from_pixel(width, height, Rgba(rgba))` and writes
/// it with `DynamicImage::write_to(_, ImageFormat::Png)`. Claimed: the
/// result is `solid_png_bytes` of the arguments. The image is kept small:
/// the buffer constructor panics when its size overflows.
#[verifier::external_body]
fn solid_png(width: u32, height: u32, rgba: [u8; 4]) -> (r: Option<Vec<u8>>)
    requires
        width * height <= 65536,
    ensures
        match r {
            Some(v) => solid_png_bytes(width, height, rgba@) == Some(v@),
            None => solid_png_bytes(width, height, rgba@) is None,
        },
{
    let img = image::RgbaImage::from_pixel(width, height, image::Rgba(rgba));
    let mut out = Vec::new();
    image::DynamicImage::ImageRgba8(img)
        .write_to(&mut std::io::Cursor::new(&mut out), image::ImageFormat::Png)
        .ok()?;
    Some(out)
}

/// The orientation fix for an encoded file: by its EXIF orientation tag,
/// or orientation 1 (as stored) when it has none.
pub open spec fn source_orientation_spec(source: Seq<u8>) -> OrientationFix {
    orientation_fix_spec(
        match exif_orientation_of(source) {
            Some(o) => o,
            None => 1,
        },
    )
}

/// The transform that renders the pixels of an encoded file upright.
pub fn source_orientation(source: &[u8]) -> (r: OrientationFix)
    ensures
        r == source_orientation_spec(source@),
{
    let o = match exif_orientation(source) {
        Some(o) => o,
        None => 1,
    };
    orientation_fix(o)
}

/// The image with an orientation fix applied: the image crate's flips and
/// turns, turning before mirroring.
pub open spec fn oriented(img: DynamicImage, fix: OrientationFix) -> DynamicImage {
    match fix {
        OrientationFix::Keep => img,
        OrientationFix::FlipHorizontal => fliph_of(img),
        OrientationFix::Rotate180 => rotate180_of(img),
        OrientationFix::FlipVertical => flipv_of(img),
        OrientationFix::Rotate90FlipHorizontal => fliph_of(rotate90_of(img)),
        OrientationFix::Rotate90 => rotate90_of(img),
        OrientationFix::Rotate270FlipHorizontal => fliph_of(rotate270_of(img)),
        OrientationFix::Rotate270 => rotate270_of(img),
    }
}

/// Applies an orientation fix to the pixels. The sides stay, or trade
/// places for a quarter turn.
fn apply_fix(img: DynamicImage, fix: OrientationFix) -> (r: DynamicImage)
    ensures
        r == oriented(img, fix),
        image_dims(r) == image_dims(img) || image_dims(r) == (image_dims(img).1, image_dims(img).0),
{
    match fix {
        OrientationFix::Keep => img,
        OrientationFix::FlipHorizontal => flip_horizontal(&img),
        OrientationFix::Rotate180 => rotate_180(&img),
        OrientationFix::FlipVertical => flip_vertical(&img),
        OrientationFix::Rotate90FlipHorizontal => flip_horizontal(&rotate_90(&img)),
        OrientationFix::Rotate90 => rotate_90(&img),
        OrientationFix::Rotate270FlipHorizontal => flip_horizontal(&rotate_270(&img)),
        OrientationFix::Rotate270 => rotate_270(&img),
    }
}

/// Applies an EXIF orientation (1–8) so thumbnails render upright however
/// the camera stored them; any other value leaves the image as it is.
pub fn apply_orientation(img: DynamicImage, orientation: u32) -> (r: DynamicImage)
    ensures
        r == oriented(img, orientation_fix_spec(orientation)),
{
    apply_fix(img, orientation_fix(orientation))
}

/// Whether a `width × height` image is shrunk for its thumbnail: only when
/// a side exceeds the thumbnail long edge, so small images are never
/// enlarged.
pub open spec fn needs_shrink_spec(width: u32, height: u32) -> bool {
    width > THUMB_LONG_EDGE || height > THUMB_LONG_EDGE
}

/// Whether a `width × height` image is shrunk for its thumbnail.
pub fn needs_shrink(width: u32, height: u32) -> (r: bool)
    ensures
        r == needs_shrink_spec(width, height),
{
    width > THUMB_LONG_EDGE || height > THUMB_LONG_EDGE
}

/// The thumbnail's image for an encoded file that decodes: the decoded
/// image brought upright by its EXIF orientation, then scaled to fit the
/// thumbnail long edge when a side exceeds it.
pub open spec fn thumbnail_image(source: Seq<u8>) -> DynamicImage {
    let img = oriented(decoded_image(source, MAX_DECODE_SIDE), source_orientation_spec(source));
    if needs_shrink_spec(image_dims(img).0, image_dims(img).1) {
        thumbnail_of(img, THUMB_LONG_EDGE, THUMB_LONG_EDGE)
    } else {
        img
    }
}

/// Decodes, EXIF-orients, shrinks to fit the thumbnail long edge (never
/// enlarging) and encodes a lossless WebP thumbnail. Decoding and encoding
/// failures are reported as [`MediaError::Transform`]: a file the image
/// crate cannot decode gives its decoding message; otherwise the result is
/// the lossless WebP of `thumbnail_image`, which succeeds whenever the
/// decoded image has no empty side.
pub fn thumbnail_webp(source: &[u8]) -> (r: Result<Vec<u8>, MediaError>)
    ensures
        r matches Err(e) ==> e is Transform,
        decode_failure(source@, MAX_DECODE_SIDE) matches Some(m) ==> r matches Err(MediaError::Transform(e)) && e@ == m,
        decode_failure(source@, MAX_DECODE_SIDE) is None ==> {
            &&& (r is Ok <==> webp_encodable(image_dims(thumbnail_image(source@))))
            &&& (r matches Ok(b) ==> b@ == lossless_webp_of(thumbnail_image(source@)))
        },
        decode_failure(source@, MAX_DECODE_SIDE) is None
            && image_dims(decoded_image(source@, MAX_DECODE_SIDE)).0 >= 1
            && image_dims(decoded_image(source@, MAX_DECODE_SIDE)).1 >= 1 ==> r is Ok,
        r matches Ok(b) ==> is_lossless_webp(b@),
{
    let img = match decode_image(source, MAX_DECODE_SIDE) {
        Ok(img) => img,
        Err(m) => return Err(MediaError::Transform(m)),
    };
    let img = apply_fix(img, source_orientation(source));
    let (w, h) = image_size(&img);
    let thumb = if needs_shrink(w, h) {
        fit_within(&img, THUMB_LONG_EDGE, THUMB_LONG_EDGE)
    } else {
        img
    };
    match encode_webp_lossless(&thumb) {
        Ok(bytes) => Ok(bytes),
        Err(m) => Err(MediaError::Transform(m)),
    }
}

/// The placeholder thumbnail: a 256×144 PNG in leaf green, or no bytes if
/// it cannot be encoded (a broken tile rather than a failure).
pub open spec fn placeholder_spec() -> Seq<u8> {
    match solid_png_bytes(PLACEHOLDER_WIDTH, PLACEHOLDER_HEIGHT, seq![29u8, 43u8, 31u8, 255u8]) {
        Some(b) => b,
        None => Seq::empty(),
    }
}

/// A 256×144 leaf-green PNG used when a video poster cannot be extracted.
pub fn placeholder_png() -> (r: Vec<u8>)
    ensures
        r@ == placeholder_spec(),
{
    let rgba: [u8; 4] = [29, 43, 31, 255];
    assert(rgba@ == seq![29u8, 43u8, 31u8, 255u8]);
    match solid_png(PLACEHOLDER_WIDTH, PLACEHOLDER_HEIGHT, rgba) {
        Some(bytes) => bytes,
        None => Vec::new(),
    }
}

} // verus!
