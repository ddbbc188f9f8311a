//! The thumbnail transform: fit an image into a square, then cut the centre.

use vstd::prelude::*;
use image::DynamicImage;
use vstd::math::{max, min};

verus! {

/// Side of the square that every thumbnail is fitted into, in pixels.
pub const THUMBNAIL_SIZE: u32 = 200;

#[verifier::external_type_specification]
#[verifier::external_body]
pub struct ExDynamicImage(image::DynamicImage);

/// Width in pixels of a decoded image.
pub uninterp spec fn pixel_width(img: image::DynamicImage) -> nat;

/// Height in pixels of a decoded image.
pub uninterp spec fn pixel_height(img: image::DynamicImage) -> nat;

pub assume_specification[ image::DynamicImage::width ](img: &image::DynamicImage) -> (r: u32)
    ensures
        r as nat == pixel_width(*img),
;

pub assume_specification[ image::DynamicImage::height ](img: &image::DynamicImage) -> (r: u32)
    ensures
        r as nat == pixel_height(*img),
;

/// The RGBA value of the pixel at column `x`, row `y` of a decoded image,
/// as `GenericImageView::get_pixel` gives it.
pub uninterp spec fn pixel_at(img: image::DynamicImage, x: nat, y: nat) -> (u8, u8, u8, u8);

/// Width and height of the image that `image::load_from_memory` decodes
/// from the bytes `b`; `None` when they do not decode.
pub uninterp spec fn decoded_size(b: Seq<u8>) -> Option<(nat, nat)>;

/// Relies on `image::load_from_memory`: decodes bytes of any supported
/// format, guessed from their content; `None` when they do not decode.
/// The outcome depends on the bytes alone.
#[verifier::external_body]
fn decode(bytes: &[u8]) -> (r: Option<DynamicImage>)
    ensures
        r is Some <==> decoded_size(bytes@) is Some,
        r matches Some(i) ==> decoded_size(bytes@) == Some((pixel_width(i), pixel_height(i))),
{
    image::load_from_memory(bytes).ok()
}

/// `r` is `s * bound / l` rounded down or up: the shorter side `s` of an
/// image whose longer side `l` is scaled to `bound`.
pub open spec fn scaled_side_in_range(r: int, s: int, l: int, bound: int) -> bool {
    (s * bound) / l <= r <= (s * bound + l - 1) / l
}

/// Relies on `DynamicImage::resize` with the Lanczos3 filter: the image is
/// scaled, aspect ratio kept, to the largest size within `bound` x `bound`.
/// The longer side becomes `bound` exactly; the other is its scaled
/// length rounded to the nearest integer, at least 1, and at most `bound`.
#[verifier::external_body]
fn resize_to_fit(img: &DynamicImage, bound: u32) -> (r: DynamicImage)
    requires
        pixel_width(*img) > 0,
        pixel_height(*img) > 0,
        bound > 0,
    ensures
        1 <= pixel_width(r) <= bound,
        1 <= pixel_height(r) <= bound,
        pixel_width(*img) >= pixel_height(*img) ==> pixel_width(r) == bound,
        pixel_height(*img) >= pixel_width(*img) ==> pixel_height(r) == bound,
        pixel_width(*img) >= pixel_height(*img) ==> scaled_side_in_range(
            pixel_height(r) as int,
            pixel_height(*img) as int,
            pixel_width(*img) as int,
            bound as int,
        ),
        pixel_height(*img) >= pixel_width(*img) ==> scaled_side_in_range(
            pixel_width(r) as int,
            pixel_width(*img) as int,
            pixel_height(*img) as int,
            bound as int,
        ),
{
    img.resize(bound, bound, image::imageops::FilterType::Lanczos3)
}

/// Relies on `DynamicImage::crop_imm`: the cut-out with top left corner
/// `(x, y)`, clamped to the image, of at most `width` x `height` pixels;
/// its pixel at `(i, j)` is the image's pixel at `(x + i, y + j)`.
#[verifier::external_body]
fn crop(img: &DynamicImage, x: u32, y: u32, width: u32, height: u32) -> (r: DynamicImage)
    ensures
        forall|i: nat, j: nat| i < pixel_width(r) && j < pixel_height(r)
            ==> #[trigger] pixel_at(r, i, j) == pixel_at(*img, min(x as int, pixel_width(*img) as int) as nat + i, min(y as int, pixel_height(*img) as int) as nat + j),
        pixel_width(r) == min(width as int, pixel_width(*img) - min(x as int, pixel_width(*img) as int)),
        pixel_height(r) == min(height as int, pixel_height(*img) - min(y as int, pixel_height(*img) as int)),
{
    img.crop_imm(x, y, width, height)
}

/// A rectangle within an image: top left corner and size.
#[derive(Clone, Copy, Debug, PartialEq, Eq, Structural)]
pub struct CropBox {
    pub x: u32,
    pub y: u32,
    pub width: u32,
    pub height: u32,
}

/// The centred box of at most `target` x `target` pixels within a
/// `width` x `height` image; offsets are rounded down.
pub open spec fn centre_box(width: int, height: int, target: int) -> (int, int, int, int) {
    let w = min(width, target);
    let h = min(height, target);
    ((width - w) / 2, (height - h) / 2, w, h)
}

/// The box that the centre crop cuts from a `width` x `height` image.
pub fn centre_crop_box(width: u32, height: u32, target: u32) -> (r: CropBox)
    ensures
        (r.x as int, r.y as int, r.width as int, r.height as int)
            == centre_box(width as int, height as int, target as int),
{
    let w = if width < target { width } else { target };
    let h = if height < target { height } else { target };
    CropBox { x: (width - w) / 2, y: (height - h) / 2, width: w, height: h }
}

/// The size of the thumbnail of an image whose resized form is
/// `width` x `height`.
pub open spec fn thumbnail_size_of(width: int, height: int, target: int) -> (int, int) {
    (centre_box(width, height, target).2, centre_box(width, height, target).3)
}

/// The centre crop of at most `target` x `target` pixels of an image.
pub fn centre_crop(img: &DynamicImage, target: u32) -> (r: DynamicImage)
    ensures
        (pixel_width(r) as int, pixel_height(r) as int)
            == thumbnail_size_of(pixel_width(*img) as int, pixel_height(*img) as int, target as int),
        forall|i: nat, j: nat| i < pixel_width(r) && j < pixel_height(r)
            ==> #[trigger] pixel_at(r, i, j) == pixel_at(
                *img,
                (centre_box(pixel_width(*img) as int, pixel_height(*img) as int, target as int).0 + i) as nat,
                (centre_box(pixel_width(*img) as int, pixel_height(*img) as int, target as int).1 + j) as nat,
            ),
{
    let b = centre_crop_box(img.width(), img.height(), target);
    crop(img, b.x, b.y, b.width, b.height)
}

/// The thumbnail of a decoded image: resized to fit `THUMBNAIL_SIZE` on
/// both sides, then centre-cropped to at most that. `None` for an image
/// with no pixels.
pub fn make_thumbnail(img: &DynamicImage) -> (r: Option<DynamicImage>)
    ensures
        r is None <==> (pixel_width(*img) == 0 || pixel_height(*img) == 0),
        r matches Some(t) ==> {
            &&& 1 <= pixel_width(t) <= THUMBNAIL_SIZE
            &&& 1 <= pixel_height(t) <= THUMBNAIL_SIZE
            &&& pixel_width(*img) >= pixel_height(*img) ==> pixel_width(t) == THUMBNAIL_SIZE
            &&& pixel_height(*img) >= pixel_width(*img) ==> pixel_height(t) == THUMBNAIL_SIZE
            &&& pixel_width(*img) >= pixel_height(*img) ==> scaled_side_in_range(
                pixel_height(t) as int,
                pixel_height(*img) as int,
                pixel_width(*img) as int,
                THUMBNAIL_SIZE as int,
            )
            &&& pixel_height(*img) >= pixel_width(*img) ==> scaled_side_in_range(
                pixel_width(t) as int,
                pixel_width(*img) as int,
                pixel_height(*img) as int,
                THUMBNAIL_SIZE as int,
            )
        },
{
    if img.width() == 0 || img.height() == 0 {
        return None;
    }
    let resized = resize_to_fit(img, THUMBNAIL_SIZE);
    Some(centre_crop(&resized, THUMBNAIL_SIZE))
}

/// Decodes image bytes and makes their thumbnail; `None` when the bytes do
/// not decode or the image has no pixels.
pub fn render_thumbnail(bytes: &[u8]) -> (r: Option<DynamicImage>)
    ensures
        r is Some <==> (decoded_size(bytes@) matches Some((w, h)) && w > 0 && h > 0),
        r matches Some(t) ==> decoded_size(bytes@) matches Some((w, h)) && {
            &&& 1 <= pixel_width(t) <= THUMBNAIL_SIZE
            &&& 1 <= pixel_height(t) <= THUMBNAIL_SIZE
            &&& w >= h ==> pixel_width(t) == THUMBNAIL_SIZE
            &&& h >= w ==> pixel_height(t) == THUMBNAIL_SIZE
            &&& w >= h ==> scaled_side_in_range(pixel_height(t) as int, h as int, w as int, THUMBNAIL_SIZE as int)
            &&& h >= w ==> scaled_side_in_range(pixel_width(t) as int, w as int, h as int, THUMBNAIL_SIZE as int)
        },
{
    match decode(bytes) {
        Some(img) => make_thumbnail(&img),
        None => None,
    }
}

/// When the resized image is narrower, or shorter, than the target, the
/// thumbnail keeps that side: it is a rectangle whose longer side is the
/// target and whose shorter side is less, never a padded square.
pub proof fn lemma_thumbnail_may_be_rectangular(width: int, height: int, target: int)
    requires
        1 <= width <= target,
        1 <= height <= target,
        width == target || height == target,
        width < target || height < target,
    ensures
        thumbnail_size_of(width, height, target) == (width, height),
        min(thumbnail_size_of(width, height, target).0, thumbnail_size_of(width, height, target).1) < target,
        max(thumbnail_size_of(width, height, target).0, thumbnail_size_of(width, height, target).1) == target,
{
}

} // verus!
