//! The raster images that carry a payload, seen as a flat run of channel samples.
//!
//! An image is a value of the image codec. What this library reads of it is its
//! colour type, its width, its height and its pixels; what it builds is an
//! 8-bit RGB image from a run of samples. The samples of an image are the red,
//! green and blue values of its pixels in row-major order, alpha left out.
//!
//! Only images with integer samples are read. The codec turns a float sample
//! into eight bits by a conversion that fails on a sample that is no number,
//! so float images are refused as a whole, with `BadFormat`.

use crate::error::SteganoError;
use vstd::arithmetic::div_mod::lemma_fundamental_div_mod_converse;
use vstd::prelude::*;

verus! {

/// A decoded raster image of the image codec.
#[verifier::external_type_specification]
#[verifier::external_body]
pub struct ExDynamicImage(image::DynamicImage);

/// How an image stores its pixels: the channels and the type of a sample.
#[derive(Clone, Copy, Debug, PartialEq, Eq, Structural)]
pub enum ColorKind {
    /// 8-bit grey.
    L8,
    /// 8-bit grey with alpha.
    La8,
    /// 8-bit red, green and blue.
    Rgb8,
    /// 8-bit red, green and blue with alpha.
    Rgba8,
    /// 16-bit grey.
    L16,
    /// 16-bit grey with alpha.
    La16,
    /// 16-bit red, green and blue.
    Rgb16,
    /// 16-bit red, green and blue with alpha.
    Rgba16,
    /// Float red, green and blue.
    RgbFloat,
    /// Float red, green and blue with alpha.
    RgbaFloat,
    /// A colour type that this library does not know.
    Other,
}

/// The colour type of an image, as `image::DynamicImage::color` reports it.
pub uninterp spec fn image_color(image: image::DynamicImage) -> ColorKind;

/// The width of an image in pixels, as `image::DynamicImage::width` reports it.
pub uninterp spec fn image_width(image: image::DynamicImage) -> u32;

/// The height of an image in pixels, as `image::DynamicImage::height` reports it.
pub uninterp spec fn image_height(image: image::DynamicImage) -> u32;

/// The pixel of an image in column `x` of row `y` as 8-bit red, green, blue and
/// alpha, as `image::GenericImageView::get_pixel` reports it.
pub uninterp spec fn image_pixel(image: image::DynamicImage, x: u32, y: u32) -> (u8, u8, u8, u8);

/// Calls `image::DynamicImage::color` and gives each colour type of the codec
/// the kind of the same name; a colour type that a later codec may add is
/// `Other`. The contract gives the result the name `image_color`.
#[verifier::external_body]
pub(crate) fn color_of(image: &image::DynamicImage) -> (kind: ColorKind)
    ensures
        kind == image_color(*image),
{
    match image.color() {
        image::ColorType::L8 => ColorKind::L8,
        image::ColorType::La8 => ColorKind::La8,
        image::ColorType::Rgb8 => ColorKind::Rgb8,
        image::ColorType::Rgba8 => ColorKind::Rgba8,
        image::ColorType::L16 => ColorKind::L16,
        image::ColorType::La16 => ColorKind::La16,
        image::ColorType::Rgb16 => ColorKind::Rgb16,
        image::ColorType::Rgba16 => ColorKind::Rgba16,
        image::ColorType::Rgb32F => ColorKind::RgbFloat,
        image::ColorType::Rgba32F => ColorKind::RgbaFloat,
        _ => ColorKind::Other,
    }
}

/// Calls `image::DynamicImage::width`. The contract gives its result the name
/// `image_width`.
#[verifier::external_body]
pub(crate) fn width_of(image: &image::DynamicImage) -> (width: u32)
    ensures
        width == image_width(*image),
{
    image.width()
}

/// Calls `image::DynamicImage::height`. The contract gives its result the name
/// `image_height`.
#[verifier::external_body]
pub(crate) fn height_of(image: &image::DynamicImage) -> (height: u32)
    ensures
        height == image_height(*image),
{
    image.height()
}

/// Calls `image::GenericImageView::get_pixel` on a `DynamicImage`. The call
/// panics outside the image, so the position has to lie within it. It also
/// panics where it has to turn a float sample that is no number into eight
/// bits, so the image has to have integer samples. The contract gives the
/// four channels of the result the name `image_pixel`.
#[verifier::external_body]
pub(crate) fn pixel_of(image: &image::DynamicImage, x: u32, y: u32) -> (pixel: (u8, u8, u8, u8))
    requires
        readable(*image),
        x < image_width(*image),
        y < image_height(*image),
    ensures
        pixel == image_pixel(*image, x, y),
{
    let channels = image::GenericImageView::get_pixel(image, x, y).0;
    (channels[0], channels[1], channels[2], channels[3])
}

/// Calls `image::ImageBuffer::from_raw` for 8-bit RGB pixels over a `Vec<u8>`
/// and wraps the buffer as `DynamicImage::ImageRgb8`. The contract claims:
/// the call succeeds exactly where the samples are at least three per pixel,
/// and three times the width, which the call computes first, fits in `usize`;
/// the image then is of colour type `Rgb8`, has the given width and height,
/// and the red, green and blue of its pixel in column `x` of row `y` are the
/// three samples from index `3 * (y * width + x)` on, its alpha the full 255.
#[verifier::external_body]
pub(crate) fn rgb_image_from_raw(width: u32, height: u32, samples: Vec<u8>) -> (r: Option<
    image::DynamicImage,
>)
    ensures
        r is Some <==> (3 * width <= usize::MAX && 3 * (width * height) <= samples@.len()),
        r matches Some(built) ==> {
            &&& image_color(built) == ColorKind::Rgb8
            &&& image_width(built) == width
            &&& image_height(built) == height
            &&& forall|x: u32, y: u32|
                x < width && y < height ==> {
                    let p = #[trigger] image_pixel(built, x, y);
                    &&& p.0 == samples@[3 * (y * width + x)]
                    &&& p.1 == samples@[3 * (y * width + x) + 1]
                    &&& p.2 == samples@[3 * (y * width + x) + 2]
                    &&& p.3 == 255
                }
        },
{
    image::RgbImage::from_raw(width, height, samples).map(image::DynamicImage::ImageRgb8)
}

/// The kinds of image that the portable-anymap family holds.
#[derive(Clone, Copy, Debug, PartialEq, Eq, Structural)]
pub enum PnmKind {
    /// Black and white, one bit per pixel.
    Bitmap,
    /// Shades of grey.
    Graymap,
    /// Full colour: red, green and blue per pixel.
    Pixmap,
    /// An arbitrary tuple per pixel.
    ArbitraryMap,
}

/// Admits full-colour pixmaps and refuses every other kind with `BadFormat`.
pub fn require_pixmap(kind: PnmKind) -> (r: Result<(), SteganoError>)
    ensures
        r is Ok <==> kind == PnmKind::Pixmap,
        r matches Err(e) ==> e is BadFormat,
{
    match kind {
        PnmKind::Pixmap => Ok(()),
        _ => Err(SteganoError::BadFormat),
    }
}

/// The samples of this kind of image are integers.
pub open spec fn has_integer_samples(kind: ColorKind) -> bool {
    match kind {
        ColorKind::L8 | ColorKind::La8 | ColorKind::Rgb8 | ColorKind::Rgba8 => true,
        ColorKind::L16 | ColorKind::La16 | ColorKind::Rgb16 | ColorKind::Rgba16 => true,
        ColorKind::RgbFloat | ColorKind::RgbaFloat | ColorKind::Other => false,
    }
}

/// This library reads the image: its samples are integers.
pub open spec fn readable(image: image::DynamicImage) -> bool {
    has_integer_samples(image_color(image))
}

/// Admits the images with integer samples and refuses every other image with
/// `BadFormat`.
pub fn require_readable(image: &image::DynamicImage) -> (r: Result<(), SteganoError>)
    ensures
        r is Ok <==> readable(*image),
        r matches Err(e) ==> e is BadFormat,
{
    match color_of(image) {
        ColorKind::L8 | ColorKind::La8 | ColorKind::Rgb8 | ColorKind::Rgba8 => Ok(()),
        ColorKind::L16 | ColorKind::La16 | ColorKind::Rgb16 | ColorKind::Rgba16 => Ok(()),
        ColorKind::RgbFloat | ColorKind::RgbaFloat | ColorKind::Other => Err(
            SteganoError::BadFormat,
        ),
    }
}

/// The number of channel samples of an image: three for each pixel.
pub open spec fn sample_count(image: image::DynamicImage) -> nat {
    (3 * (image_width(image) * image_height(image))) as nat
}

/// One of the red (0), green (1) and blue (2) channels of a pixel.
pub open spec fn channel(pixel: (u8, u8, u8, u8), c: int) -> u8 {
    if c == 0 {
        pixel.0
    } else if c == 1 {
        pixel.1
    } else {
        pixel.2
    }
}

/// The channel samples of an image: red, green and blue of each pixel, row by
/// row from the top and from left to right in each row.
pub open spec fn rgb_samples(image: image::DynamicImage) -> Seq<u8> {
    let width = image_width(image) as int;
    Seq::new(
        sample_count(image),
        |i: int| channel(image_pixel(image, ((i / 3) % width) as u32, ((i / 3) / width) as u32), i % 3),
    )
}

/// Sample `3 * (y * width + x) + c` of an image is channel `c` of its pixel in
/// column `x` of row `y`, and lies within the samples.
pub proof fn lemma_sample_of_pixel(image: image::DynamicImage, x: u32, y: u32, c: int)
    requires
        x < image_width(image),
        y < image_height(image),
        0 <= c < 3,
    ensures
        3 * (y * image_width(image) + x) + c < sample_count(image),
        rgb_samples(image)[3 * (y * image_width(image) + x) + c] == channel(
            image_pixel(image, x, y),
            c,
        ),
{
    let width = image_width(image) as int;
    let height = image_height(image) as int;
    let p = y * width + x;
    assert(p + 1 <= width * height) by (nonlinear_arith)
        requires
            p == y * width + x,
            0 <= x < width,
            0 <= y < height,
    ;
    lemma_fundamental_div_mod_converse(p, width, y as int, x as int);
    assert((3 * p + c) / 3 == p);
    assert((3 * p + c) % 3 == c);
}

/// Flattens an image into its channel samples, alpha left out. Fails with
/// `BadFormat` on an image whose samples are not integers.
pub fn image_to_vec_rgb(image: &image::DynamicImage) -> (r: Result<Vec<u8>, SteganoError>)
    ensures
        r is Ok <==> readable(*image),
        r matches Ok(samples) ==> samples@ == rgb_samples(*image),
        r matches Err(e) ==> e is BadFormat,
{
    match require_readable(image) {
        Ok(()) => Ok(samples_of(image)),
        Err(e) => Err(e),
    }
}

/// The channel samples of an image with integer samples.
pub(crate) fn samples_of(image: &image::DynamicImage) -> (samples: Vec<u8>)
    requires
        readable(*image),
    ensures
        samples@ == rgb_samples(*image),
{
    let width: u32 = width_of(image);
    let height: u32 = height_of(image);
    let mut samples: Vec<u8> = Vec::new();
    let mut y: u32 = 0;
    while y < height
        invariant
            y <= height,
            readable(*image),
            width == image_width(*image),
            height == image_height(*image),
            samples@.len() == 3 * (y * width),
            forall|i: int| 0 <= i < samples@.len() ==> samples@[i] == rgb_samples(*image)[i],
        decreases height - y,
    {
        let mut x: u32 = 0;
        while x < width
            invariant
                x <= width,
                y < height,
                readable(*image),
                width == image_width(*image),
                height == image_height(*image),
                samples@.len() == 3 * (y * width + x),
                forall|i: int| 0 <= i < samples@.len() ==> samples@[i] == rgb_samples(*image)[i],
            decreases width - x,
        {
            let pixel = pixel_of(image, x, y);
            proof {
                lemma_sample_of_pixel(*image, x, y, 0);
                lemma_sample_of_pixel(*image, x, y, 1);
                lemma_sample_of_pixel(*image, x, y, 2);
            }
            samples.push(pixel.0);
            samples.push(pixel.1);
            samples.push(pixel.2);
            x = x + 1;
        }
        assert(3 * (y * width + width) == 3 * ((y + 1) * width)) by (nonlinear_arith);
        y = y + 1;
    }
    proof {
        assert(3 * (height * width) == 3 * (width * height)) by (nonlinear_arith);
        assert(samples@ =~= rgb_samples(*image));
    }
    samples
}

/// Regroups channel samples into an 8-bit RGB image of the given size, three
/// samples to a pixel in row-major order. `None` where the samples do not
/// suffice for that many pixels, or where the samples of one row would be more
/// than a `usize` counts; samples beyond the last pixel are not part of the
/// image. The image has no alpha channel: every pixel reads as fully opaque.
pub fn image_from_vec_rgb(samples: Vec<u8>, width: u32, height: u32) -> (r: Option<
    image::DynamicImage,
>)
    ensures
        r is Some <==> (3 * width <= usize::MAX && 3 * (width * height) <= samples@.len()),
        r matches Some(built) ==> {
            &&& image_color(built) == ColorKind::Rgb8
            &&& image_width(built) == width
            &&& image_height(built) == height
            &&& rgb_samples(built) == samples@.take(3 * (width * height))
            &&& forall|x: u32, y: u32|
                x < width && y < height ==> (#[trigger] image_pixel(built, x, y)).3 == 255
        },
{
    let ghost given = samples@;
    let r = rgb_image_from_raw(width, height, samples);
    proof {
        if r is Some {
            let built = r->Some_0;
            let count = 3 * (width * height);
            assert forall|i: int| 0 <= i < count implies rgb_samples(built)[i] == given[i] by {
                let p = i / 3;
                let c = i % 3;
                let w = width as int;
                assert(w > 0) by (nonlinear_arith)
                    requires
                        0 <= w,
                        0 <= p < w * height,
                ;
                let x = p % w;
                let y = p / w;
                assert(p == y * w + x) by {
                    vstd::arithmetic::div_mod::lemma_fundamental_div_mod(p, w);
                    assert(w * y == y * w) by (nonlinear_arith);
                }
                assert(0 <= y < height) by (nonlinear_arith)
                    requires
                        p == y * w + x,
                        0 <= x < w,
                        0 <= p < w * height,
                ;
                lemma_sample_of_pixel(built, x as u32, y as u32, c);
                let pixel = image_pixel(built, x as u32, y as u32);
                assert(pixel.0 == given[3 * (y * w + x)]);
            }
            assert(rgb_samples(built) =~= given.take(count));
        }
    }
    r
}

} // verus!
