//! The image operations the tile generator composes, behind trusted
//! contracts.
//!
//! An image is a value of the `image` crate's `DynamicImage`, opaque to the
//! verifier. What the contracts say about one is said through three names:
//! its pixel contents as a byte sequence, and its two dimensions. The results
//! of the resampling operations depend on their arguments alone, so each is
//! named by an uninterpreted function of the inputs' contents and the call's
//! parameters.

use image::DynamicImage;
use vstd::prelude::*;

verus! {

#[verifier::external_type_specification]
#[verifier::external_body]
pub struct ExDynamicImage(DynamicImage);

/// The pixel contents of an image, as bytes in row-major order.
pub uninterp spec fn img_pixels(img: DynamicImage) -> Seq<u8>;

/// The width of an image in pixels.
pub uninterp spec fn img_width(img: DynamicImage) -> nat;

/// The height of an image in pixels.
pub uninterp spec fn img_height(img: DynamicImage) -> nat;

/// The contents of the axis-aligned crop at `(x, y)` of size `w` by `h` out
/// of an image of width `src_w` with the given contents.
pub uninterp spec fn crop_of(pixels: Seq<u8>, src_w: int, x: int, y: int, w: int, h: int) -> Seq<
    u8,
>;

/// The contents of the Lanczos resampling of an image of size `src_w` by
/// `src_h` with the given contents onto a `w` by `h` grid.
pub uninterp spec fn resample_of(pixels: Seq<u8>, src_w: int, src_h: int, w: int, h: int) -> Seq<
    u8,
>;

/// The contents of the bottom image after the top image is alpha-blended
/// onto it with its corner at `(x, y)`.
pub uninterp spec fn overlay_of(
    bottom: Seq<u8>,
    bottom_w: int,
    bottom_h: int,
    top: Seq<u8>,
    top_w: int,
    top_h: int,
    x: int,
    y: int,
) -> Seq<u8>;

/// Relies on `DynamicImage::width`.
#[verifier::external_body]
pub(crate) fn image_width(img: &DynamicImage) -> (r: u32)
    ensures
        r as nat == img_width(*img),
{
    img.width()
}

/// Relies on `DynamicImage::height`.
#[verifier::external_body]
pub(crate) fn image_height(img: &DynamicImage) -> (r: u32)
    ensures
        r as nat == img_height(*img),
{
    img.height()
}

/// Relies on `DynamicImage`'s `Clone`, which copies the image unchanged.
pub assume_specification[ <DynamicImage as Clone>::clone ](img: &DynamicImage) -> (r:
    DynamicImage)
    ensures
        img_pixels(r) == img_pixels(*img),
        img_width(r) == img_width(*img),
        img_height(r) == img_height(*img),
;

/// Relies on `DynamicImage::crop_imm`: inside the image's bounds it returns
/// exactly the requested rectangle.
#[verifier::external_body]
pub(crate) fn crop_image(img: &DynamicImage, x: u32, y: u32, w: u32, h: u32) -> (r: DynamicImage)
    requires
        x + w <= img_width(*img),
        y + h <= img_height(*img),
    ensures
        img_width(r) == w as nat,
        img_height(r) == h as nat,
        img_pixels(r) == crop_of(
            img_pixels(*img),
            img_width(*img) as int,
            x as int,
            y as int,
            w as int,
            h as int,
        ),
{
    img.crop_imm(x, y, w, h)
}

/// Relies on `DynamicImage::resize_exact` with the Lanczos filter: the
/// result has exactly the requested dimensions and its contents are a
/// function of the source image and those dimensions alone.
#[verifier::external_body]
pub(crate) fn resize_image(img: &DynamicImage, w: u32, h: u32) -> (r: DynamicImage)
    requires
        w >= 1,
        h >= 1,
        img_width(*img) >= 1,
        img_height(*img) >= 1,
    ensures
        img_width(r) == w as nat,
        img_height(r) == h as nat,
        img_pixels(r) == resample_of(
            img_pixels(*img),
            img_width(*img) as int,
            img_height(*img) as int,
            w as int,
            h as int,
        ),
{
    img.resize_exact(w, h, image::imageops::FilterType::Lanczos3)
}

/// Relies on `image::imageops::overlay`: it blends the top image onto the
/// bottom one at the given corner, leaves the bottom image's dimensions
/// unchanged, and accepts any offset.
#[verifier::external_body]
pub(crate) fn overlay_image(bottom: &mut DynamicImage, top: &DynamicImage, x: u32, y: u32)
    ensures
        img_width(*final(bottom)) == img_width(*old(bottom)),
        img_height(*final(bottom)) == img_height(*old(bottom)),
        img_pixels(*final(bottom)) == overlay_of(
            img_pixels(*old(bottom)),
            img_width(*old(bottom)) as int,
            img_height(*old(bottom)) as int,
            img_pixels(*top),
            img_width(*top) as int,
            img_height(*top) as int,
            x as int,
            y as int,
        ),
{
    image::imageops::overlay(bottom, top, x as i64, y as i64)
}

} // verus!
