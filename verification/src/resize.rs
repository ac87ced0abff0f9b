//! How a request scales a picture.
use vstd::prelude::*;
use crate::encode::{Picture, PictureView};
use crate::request::ConvertRequest;
use crate::text;

verus! {

/// A decoded image of the `image` crate, carried as it is.
#[verifier::external_type_specification]
#[verifier::external_body]
pub struct ExDynamicImage(image::DynamicImage);

/// The columns of an image.
pub uninterp spec fn image_width(img: image::DynamicImage) -> u32;

/// The rows of an image.
pub uninterp spec fn image_height(img: image::DynamicImage) -> u32;

/// Whether the pixels of an image can express transparency.
pub uninterp spec fn image_alpha(img: image::DynamicImage) -> bool;

/// The bytes of red, green and blue that `DynamicImage::to_rgb8` gives. An image may hold more
/// bytes than its dimensions need, and then there may be more here too.
pub uninterp spec fn image_rgb(img: image::DynamicImage) -> Seq<u8>;

/// The bytes of red, green, blue and alpha that `DynamicImage::to_rgba8` gives. An image may hold
/// more bytes than its dimensions need, and then there may be more here too.
pub uninterp spec fn image_rgba(img: image::DynamicImage) -> Seq<u8>;

/// How many bytes an image holds.
pub uninterp spec fn image_bytes(img: image::DynamicImage) -> usize;

/// How many bytes a pixel of an image takes.
pub uninterp spec fn image_pixel_bytes(img: image::DynamicImage) -> u8;

/// How many channels a pixel of an image has.
pub uninterp spec fn image_channels(img: image::DynamicImage) -> u8;

/// The dimensions of an image of `width` by `height` scaled by `DynamicImage::resize` to the
/// largest size within `max_width` by `max_height` that keeps its aspect ratio.
pub uninterp spec fn fitted(width: u32, height: u32, max_width: u32, max_height: u32) -> (u32, u32);

/// The pixels of an image, as bytes of red, green and blue.
pub open spec fn rgb_pixels(img: image::DynamicImage) -> Seq<u8> {
    image_rgb(img).take(image_width(img) * image_height(img) * 3)
}

/// The pixels of an image, as bytes of red, green, blue and alpha.
pub open spec fn rgba_pixels(img: image::DynamicImage) -> Seq<u8> {
    image_rgba(img).take(image_width(img) * image_height(img) * 4)
}

/// Whether two images show the same pixels.
pub open spec fn same_pixels(a: image::DynamicImage, b: image::DynamicImage) -> bool {
    rgb_pixels(a) == rgb_pixels(b) && rgba_pixels(a) == rgba_pixels(b)
}

/// Whether an image with a byte for each channel holds as many bytes as its dimensions need, and no
/// more.
pub open spec fn tight(img: image::DynamicImage) -> bool {
    image_pixel_bytes(img) == image_channels(img) ==> image_bytes(img) == image_width(img)
        * image_height(img) * image_pixel_bytes(img)
}

/// The larger of two numbers.
pub open spec fn larger(a: int, b: int) -> int {
    if a > b {
        a
    } else {
        b
    }
}

/// The largest product of two sizes up to which one of them is scaled to the nearest pixel; beyond
/// it the quotients that it is scaled by are not precise enough.
pub const NEAREST_LIMIT: u64 = 0x4_0000_0000_0000;

/// Whether `size` is the nearest pixel, but no less than one, to `full` scaled by what scales
/// `other_full` to `other`: one where that comes to at most one and a half.
pub open spec fn nearest(size: u32, full: u32, other: u32, other_full: u32) -> bool {
    ||| full * other > NEAREST_LIMIT
    ||| size == 1 && 2 * (other * full) <= 3 * other_full
    ||| 2 * (size * other_full - other * full) <= other_full && 2 * (other * full - size
        * other_full) <= other_full
}

/// Whether dimensions are those of an image of `width` by `height` scaled to the largest size
/// within `max_width` by `max_height`: they stay within the bounds, one of them reaches its bound,
/// and the other is the nearest pixel that keeps the aspect ratio. No dimension becomes zero: where
/// a bound is, both become one.
pub open spec fn largest_within(
    width: u32,
    height: u32,
    max_width: u32,
    max_height: u32,
    dimensions: (u32, u32),
) -> bool {
    let (w, h) = dimensions;
    &&& w <= larger(max_width as int, 1)
    &&& h <= larger(max_height as int, 1)
    &&& width > 0 && height > 0 ==> {
        &&& w > 0 && h > 0
        &&& if max_width == 0 || max_height == 0 {
            w == 1 && h == 1
        } else {
            (w == max_width && nearest(h, height, w, width)) || (h == max_height && nearest(
                w,
                width,
                h,
                height,
            ))
        }
    }
}

/// Whether buffers of this many pixels can be allocated, at up to 16 bytes each.
pub open spec fn allocatable(columns: int, rows: int) -> bool {
    columns * rows * 16 <= isize::MAX
}

/// The smallest side that is too long to be sampled from for a result of any size: positions on it
/// are worked out in single precision, which has no more whole numbers in a row.
pub const SAMPLED_SIDE: u32 = 0x100_0000;

/// The longest side of a result for which a side of any length can be sampled from: its pixels are
/// so far apart that the error of a position stays within one.
pub const SAMPLED_RESULT: u32 = 0x10_0000;

/// Whether the pixels of a side of length `size` can be sampled for a result of length `new_size`:
/// around every position that is worked out there are pixels that count.
pub open spec fn samplable(size: u32, new_size: int) -> bool {
    size < SAMPLED_SIDE || new_size <= SAMPLED_RESULT
}

/// Whether an image can be scaled to exactly these dimensions: the buffers can be allocated, where
/// the rows are scaled before the columns, and the pixels can be sampled, unless the image is empty
/// or is only copied.
pub open spec fn exact_fits(width: u32, height: u32, new_width: u32, new_height: u32) -> bool {
    &&& allocatable(larger(width as int, new_width as int), new_height as int)
    &&& {
        ||| width == 0 || height == 0
        ||| (width, height) == (new_width, new_height)
        ||| samplable(width, new_width as int) && samplable(height, new_height as int)
    }
}

/// A bound on one dimension of an image that is scaled to fit: it is at most the one allowed, and
/// at most the one that goes with the other one allowed.
pub open spec fn fitted_bound(size: u32, other: u32, max_size: u32, max_other: u32) -> int {
    let allowed = larger(max_size as int, 1);
    let in_step = size * max_other / (other as int) + 1;
    if other > 0 && in_step < allowed {
        in_step
    } else {
        allowed
    }
}

/// Whether an image already has the largest size within these dimensions.
pub open spec fn fills(width: u32, height: u32, max_width: u32, max_height: u32) -> bool {
    (width == max_width && height <= max_height) || (height == max_height && width <= max_width)
}

/// Whether an image can be scaled to fit within these dimensions: the buffers can be allocated, and
/// the pixels can be sampled, unless the image is empty or is only copied.
pub open spec fn within_fits(width: u32, height: u32, max_width: u32, max_height: u32) -> bool {
    let columns = fitted_bound(width, height, max_width, max_height);
    let rows = fitted_bound(height, width, max_height, max_width);
    &&& allocatable(larger(width as int, columns), rows)
    &&& {
        ||| width == 0 || height == 0
        ||| fills(width, height, max_width, max_height)
        ||| samplable(width, columns) && samplable(height, rows)
    }
}

/// Calls `DynamicImage::width`. Trusted: it gives the columns of the image.
#[verifier::external_body]
pub(crate) fn width_of(img: &image::DynamicImage) -> (width: u32)
    ensures
        width == image_width(*img),
{
    img.width()
}

/// Calls `DynamicImage::height`. Trusted: it gives the rows of the image.
#[verifier::external_body]
pub(crate) fn height_of(img: &image::DynamicImage) -> (height: u32)
    ensures
        height == image_height(*img),
{
    img.height()
}

/// Calls `ColorType::has_alpha` on the image's colour type. Trusted: it tells whether the pixels
/// can express transparency.
#[verifier::external_body]
fn alpha_of(img: &image::DynamicImage) -> (alpha: bool)
    ensures
        alpha == image_alpha(*img),
{
    img.color().has_alpha()
}

/// Calls `<[u8]>::len` on `DynamicImage::as_bytes`. Trusted: it gives the number of bytes that the
/// image holds.
#[verifier::external_body]
fn byte_count_of(img: &image::DynamicImage) -> (bytes: usize)
    ensures
        bytes == image_bytes(*img),
{
    img.as_bytes().len()
}

/// Calls `ColorType::bytes_per_pixel` on the image's colour type. Trusted: it gives the bytes that
/// a pixel takes.
#[verifier::external_body]
fn pixel_bytes_of(img: &image::DynamicImage) -> (bytes: u8)
    ensures
        bytes == image_pixel_bytes(*img),
{
    img.color().bytes_per_pixel()
}

/// Calls `ColorType::channel_count` on the image's colour type. Trusted: it gives the channels that
/// a pixel has.
#[verifier::external_body]
fn channels_of(img: &image::DynamicImage) -> (channels: u8)
    ensures
        channels == image_channels(*img),
{
    img.color().channel_count()
}

/// Whether an image with a byte for each channel holds as many bytes as its dimensions need, and no
/// more.
pub fn is_tight(img: &image::DynamicImage) -> (yes: bool)
    ensures
        yes == tight(*img),
{
    let pixel: u8 = pixel_bytes_of(img);
    let area: u64 = product(width_of(img), height_of(img));
    assert(area * pixel <= u64::MAX * 255) by (nonlinear_arith)
        requires
            area <= u64::MAX,
            pixel <= 255,
    ;
    assert(area * pixel >= 0) by (nonlinear_arith);
    pixel != channels_of(img) || byte_count_of(img) as u128 == area as u128 * pixel as u128
}

/// Calls `DynamicImage::to_rgb8`, which panics where the bytes do not fit in a vector. Trusted: the
/// bytes depend on the image alone, and there are at least three for each pixel.
#[verifier::external_body]
fn rgb_of(img: &image::DynamicImage) -> (pixels: Vec<u8>)
    requires
        image_width(*img) * image_height(*img) * 3 <= isize::MAX,
    ensures
        pixels@ == image_rgb(*img),
        pixels@.len() >= image_width(*img) * image_height(*img) * 3,
{
    img.to_rgb8().into_raw()
}

/// Calls `DynamicImage::to_rgba8`, which panics where the bytes do not fit in a vector. Trusted:
/// the bytes depend on the image alone, and there are at least four for each pixel.
#[verifier::external_body]
fn rgba_of(img: &image::DynamicImage) -> (pixels: Vec<u8>)
    requires
        image_width(*img) * image_height(*img) * 4 <= isize::MAX,
    ensures
        pixels@ == image_rgba(*img),
        pixels@.len() >= image_width(*img) * image_height(*img) * 4,
{
    img.to_rgba8().into_raw()
}

/// Calls `DynamicImage::resize_exact` with the Lanczos filter, which panics where a buffer does not
/// fit in a vector, and where no pixel counts at a position to be sampled. Trusted: the new image
/// has exactly these dimensions and the old one's kind of pixels, and where the dimensions are the
/// old ones, the pixels are too. Other pixel values are left unsaid: they come from trigonometric
/// functions whose precision differs between machines.
#[verifier::external_body]
fn scale_exact(img: &image::DynamicImage, width: u32, height: u32) -> (scaled: image::DynamicImage)
    requires
        exact_fits(image_width(*img), image_height(*img), width, height),
    ensures
        image_width(scaled) == width,
        image_height(scaled) == height,
        image_alpha(scaled) == image_alpha(*img),
        (width, height) == (image_width(*img), image_height(*img)) ==> same_pixels(scaled, *img),
{
    img.resize_exact(width, height, image::imageops::FilterType::Lanczos3)
}

/// Calls `DynamicImage::resize` with the Lanczos filter, which panics where a buffer does not fit
/// in a vector, and where no pixel counts at a position to be sampled. Trusted: the new image's
/// dimensions depend on the four dimensions alone and are the largest allowed that keep the aspect
/// ratio, the kind of pixels stays, where the dimensions are the old ones, the pixels are too, and
/// it holds no more bytes than it needs, unless it is a copy of an image that does. Other pixel
/// values are left unsaid: they come from trigonometric functions whose precision differs between
/// machines.
#[verifier::external_body]
fn scale_within(
    img: &image::DynamicImage,
    max_width: u32,
    max_height: u32,
) -> (scaled: image::DynamicImage)
    requires
        within_fits(image_width(*img), image_height(*img), max_width, max_height),
    ensures
        (image_width(scaled), image_height(scaled)) == fitted(
            image_width(*img),
            image_height(*img),
            max_width,
            max_height,
        ),
        largest_within(
            image_width(*img),
            image_height(*img),
            max_width,
            max_height,
            (image_width(scaled), image_height(scaled)),
        ),
        image_alpha(scaled) == image_alpha(*img),
        (image_width(scaled), image_height(scaled)) == (image_width(*img), image_height(*img))
            ==> same_pixels(scaled, *img),
        tight(*img) || (max_width, max_height) != (image_width(*img), image_height(*img)) ==> tight(
            scaled,
        ),
{
    img.resize(max_width, max_height, image::imageops::FilterType::Lanczos3)
}

/// Whether `out` has come of scaling `img` itself to exactly these dimensions.
pub closed spec fn scaled_exactly(
    img: image::DynamicImage,
    width: u32,
    height: u32,
    out: image::DynamicImage,
) -> bool {
    call_ensures(scale_exact, (&img, width, height), out)
}

/// Whether `out` has come of scaling `img` itself to fit within these dimensions.
pub closed spec fn scaled_within(
    img: image::DynamicImage,
    max_width: u32,
    max_height: u32,
    out: image::DynamicImage,
) -> bool {
    call_ensures(scale_within, (&img, max_width, max_height), out)
}

/// Scales an image to the largest size within these dimensions that keeps its aspect ratio.
pub(crate) fn fit_within(
    img: &image::DynamicImage,
    max_width: u32,
    max_height: u32,
) -> (out: image::DynamicImage)
    requires
        within_fits(image_width(*img), image_height(*img), max_width, max_height),
    ensures
        scaled_within(*img, max_width, max_height, out),
        (image_width(out), image_height(out)) == fitted(
            image_width(*img),
            image_height(*img),
            max_width,
            max_height,
        ),
        largest_within(
            image_width(*img),
            image_height(*img),
            max_width,
            max_height,
            (image_width(out), image_height(out)),
        ),
        image_alpha(out) == image_alpha(*img),
        (image_width(out), image_height(out)) == (image_width(*img), image_height(*img))
            ==> same_pixels(out, *img),
        tight(*img) || (max_width, max_height) != (image_width(*img), image_height(*img)) ==> tight(
            out,
        ),
{
    scale_within(img, max_width, max_height)
}

/// What is to be done to a picture's size.
#[derive(Clone, Copy, Debug, PartialEq, Eq, Structural)]
pub enum Resize {
    /// Nothing.
    Keep,
    /// Take on exactly these dimensions, whatever becomes of the aspect ratio.
    Exact { width: u32, height: u32 },
    /// Take on the largest dimensions within these, keeping the aspect ratio.
    Within { width: u32, height: u32 },
    /// Multiply both dimensions by this fraction.
    Shrink { numerator: u32, denominator: u32 },
}

/// Whether `scaled` is `size` multiplied by a fraction, to within a pixel: less than a pixel above
/// it, and less than two below where it was cut off.
pub open spec fn multiplied(size: u32, numerator: u32, denominator: u32, scaled: u32) -> bool {
    &&& scaled * denominator < size * numerator + denominator
    &&& size * numerator < scaled * denominator + 2 * denominator
}

/// The size asked for in one direction; zero where none is.
pub open spec fn asked(size: Option<u32>) -> u32 {
    match size {
        Some(n) => n,
        None => 0,
    }
}

impl Resize {
    /// Shrinking to at most the sizes asked for: nothing where the picture has them already, else
    /// the smaller of the two fractions.
    pub open spec fn shrunk(width: u32, height: u32, to_width: u32, to_height: u32) -> Resize {
        if (to_width == 0 || to_width >= width) && (to_height == 0 || to_height >= height) {
            Resize::Keep
        } else if to_width > 0 && (to_height == 0 || to_width * height <= to_height * width) {
            Resize::Shrink { numerator: to_width, denominator: width }
        } else {
            Resize::Shrink { numerator: to_height, denominator: height }
        }
    }

    /// Filling the sizes asked for, if both are.
    pub open spec fn filled(to_width: u32, to_height: u32) -> Resize {
        if to_width > 0 && to_height > 0 {
            Resize::Exact { width: to_width, height: to_height }
        } else {
            Resize::Keep
        }
    }

    /// Fitting within the sizes asked for; a direction without one is not bounded.
    pub open spec fn contained(to_width: u32, to_height: u32) -> Resize {
        Resize::Within {
            width: if to_width > 0 {
                to_width
            } else {
                u32::MAX
            },
            height: if to_height > 0 {
                to_height
            } else {
                u32::MAX
            },
        }
    }

    /// What a request does to a picture of `width` by `height`.
    pub open spec fn asked_for(request: ConvertRequest, width: u32, height: u32) -> Resize {
        let to_width = asked(request.resize_width);
        let to_height = asked(request.resize_height);
        if !request.resize_enabled || (to_width == 0 && to_height == 0) {
            Resize::Keep
        } else if request.resize_mode@ == "shrink"@ {
            Resize::shrunk(width, height, to_width, to_height)
        } else if request.resize_mode@ == "fill"@ {
            Resize::filled(to_width, to_height)
        } else {
            Resize::contained(to_width, to_height)
        }
    }

    /// Whether the scaling can be carried out on a picture of `width` by `height`, where the
    /// fraction of a `Shrink` comes to `scaled`: the buffers can be allocated, and `scaled` is what
    /// the fraction comes to, to within a pixel.
    pub open spec fn fits(self, width: u32, height: u32, scaled: (u32, u32)) -> bool {
        match self {
            Resize::Keep => true,
            Resize::Exact { width: w, height: h } => exact_fits(width, height, w, h),
            Resize::Within { width: w, height: h } => within_fits(width, height, w, h),
            Resize::Shrink { numerator, denominator } => {
                &&& multiplied(width, numerator, denominator, scaled.0)
                &&& multiplied(height, numerator, denominator, scaled.1)
                &&& exact_fits(width, height, scaled.0, scaled.1)
            },
        }
    }

    /// The dimensions that the scaling gives a picture of `width` by `height`, where the fraction
    /// of a `Shrink` comes to `scaled`.
    pub open spec fn dimensions(self, width: u32, height: u32, scaled: (u32, u32)) -> (u32, u32) {
        match self {
            Resize::Keep => (width, height),
            Resize::Exact { width: w, height: h } => (w, h),
            Resize::Within { width: w, height: h } => fitted(width, height, w, h),
            Resize::Shrink { .. } => scaled,
        }
    }
}

impl Resize {
    /// Whether `out` has come of carrying out the scaling on `img` itself, where the fraction of a
    /// `Shrink` comes to `scaled`.
    pub open spec fn carried_out(
        self,
        img: image::DynamicImage,
        scaled: (u32, u32),
        out: image::DynamicImage,
    ) -> bool {
        match self {
            Resize::Keep => out == img,
            Resize::Exact { width, height } => scaled_exactly(img, width, height, out),
            Resize::Within { width, height } => scaled_within(img, width, height, out),
            Resize::Shrink { .. } => scaled_exactly(img, scaled.0, scaled.1, out),
        }
    }
}

/// The product of two sizes.
pub(crate) fn product(a: u32, b: u32) -> (p: u64)
    ensures
        p == a * b,
        p < u64::MAX,
{
    assert(a * b < u64::MAX) by (nonlinear_arith)
        requires
            a <= u32::MAX,
            b <= u32::MAX,
    ;
    a as u64 * b as u64
}

/// What a request does to a picture of `width` by `height`.
pub fn plan_resize(request: &ConvertRequest, width: u32, height: u32) -> (plan: Resize)
    ensures
        plan == Resize::asked_for(*request, width, height),
{
    if !request.resize_enabled {
        return Resize::Keep;
    }
    let to_width: u32 = request.resize_width.unwrap_or(0);
    let to_height: u32 = request.resize_height.unwrap_or(0);
    if to_width == 0 && to_height == 0 {
        return Resize::Keep;
    }
    let mode = request.resize_mode.as_str();
    if text::same_text(mode, "shrink") {
        if (to_width == 0 || to_width >= width) && (to_height == 0 || to_height >= height) {
            Resize::Keep
        } else if to_width > 0 && (to_height == 0 || product(to_width, height) <= product(
            to_height,
            width,
        )) {
            Resize::Shrink { numerator: to_width, denominator: width }
        } else {
            Resize::Shrink { numerator: to_height, denominator: height }
        }
    } else if text::same_text(mode, "fill") {
        if to_width > 0 && to_height > 0 {
            Resize::Exact { width: to_width, height: to_height }
        } else {
            Resize::Keep
        }
    } else {
        Resize::Within {
            width: if to_width > 0 {
                to_width
            } else {
                u32::MAX
            },
            height: if to_height > 0 {
                to_height
            } else {
                u32::MAX
            },
        }
    }
}

/// Scales an image as a request says. Where the request shrinks it by a fraction, `scaled` holds
/// the dimensions that the fraction comes to.
pub fn apply_resize(img: image::DynamicImage, request: &ConvertRequest, scaled: (u32, u32)) -> (out:
    image::DynamicImage)
    requires
        Resize::asked_for(*request, image_width(img), image_height(img)).fits(
            image_width(img),
            image_height(img),
            scaled,
        ),
    ensures
        (image_width(out), image_height(out)) == Resize::asked_for(
            *request,
            image_width(img),
            image_height(img),
        ).dimensions(image_width(img), image_height(img), scaled),
        image_alpha(out) == image_alpha(img),
        Resize::asked_for(*request, image_width(img), image_height(img)).carried_out(
            img,
            scaled,
            out,
        ),
        Resize::asked_for(*request, image_width(img), image_height(img)) matches Resize::Within {
            width,
            height,
        } ==> largest_within(
            image_width(img),
            image_height(img),
            width,
            height,
            (image_width(out), image_height(out)),
        ),
        (image_width(out), image_height(out)) == (image_width(img), image_height(img))
            ==> same_pixels(out, img),
{
    match plan_resize(request, width_of(&img), height_of(&img)) {
        Resize::Keep => img,
        Resize::Exact { width, height } => scale_exact(&img, width, height),
        Resize::Within { width, height } => fit_within(&img, width, height),
        Resize::Shrink { .. } => scale_exact(&img, scaled.0, scaled.1),
    }
}

/// Whether this many pixels, at up to 16 bytes each, can be allocated.
fn can_allocate(columns: u32, rows: u32) -> (can: bool)
    ensures
        can == allocatable(columns as int, rows as int),
{
    product(columns, rows) as u128 * 16 <= isize::MAX as u128
}

impl Resize {
    /// Whether the scaling can be carried out on a picture of `width` by `height`, where the
    /// fraction of a `Shrink` comes to `scaled`.
    pub fn can_run(&self, width: u32, height: u32, scaled: (u32, u32)) -> (can: bool)
        ensures
            can == self.fits(width, height, scaled),
    {
        match *self {
            Resize::Keep => true,
            Resize::Exact { width: w, height: h } => can_scale_exact(width, height, w, h),
            Resize::Within { width: w, height: h } => can_scale_within(width, height, w, h),
            Resize::Shrink { numerator, denominator } => {
                is_multiplied(width, numerator, denominator, scaled.0) && is_multiplied(
                    height,
                    numerator,
                    denominator,
                    scaled.1,
                ) && can_scale_exact(width, height, scaled.0, scaled.1)
            },
        }
    }
}

/// Whether `scaled` is `size` multiplied by a fraction, to within a pixel.
fn is_multiplied(size: u32, numerator: u32, denominator: u32, scaled: u32) -> (yes: bool)
    ensures
        yes == multiplied(size, numerator, denominator, scaled),
{
    let full: u128 = product(size, numerator) as u128;
    let part: u128 = product(scaled, denominator) as u128;
    part < full + denominator as u128 && full < part + 2 * denominator as u128
}

/// Whether the pixels of a side can be sampled.
fn can_sample(size: u32, new_size: u32) -> (can: bool)
    ensures
        can == samplable(size, new_size as int),
{
    size < SAMPLED_SIDE || new_size <= SAMPLED_RESULT
}

/// Whether an image can be scaled to exactly these dimensions.
fn can_scale_exact(width: u32, height: u32, new_width: u32, new_height: u32) -> (can: bool)
    ensures
        can == exact_fits(width, height, new_width, new_height),
{
    let wider: u32 = if width > new_width {
        width
    } else {
        new_width
    };
    can_allocate(wider, new_height) && (width == 0 || height == 0 || (width == new_width && height
        == new_height) || (can_sample(width, new_width) && can_sample(height, new_height)))
}

/// Whether an image can be scaled to fit within these dimensions.
pub fn can_scale_within(width: u32, height: u32, max_width: u32, max_height: u32) -> (can: bool)
    ensures
        can == within_fits(width, height, max_width, max_height),
{
    let columns: u32 = find_bound(width, height, max_width, max_height);
    let rows: u32 = find_bound(height, width, max_height, max_width);
    let wider: u32 = if width > columns {
        width
    } else {
        columns
    };
    let copied: bool = (width == max_width && height <= max_height) || (height == max_height
        && width <= max_width);
    can_allocate(wider, rows) && (width == 0 || height == 0 || copied || (can_sample(width, columns)
        && can_sample(height, rows)))
}

/// A bound on one dimension of an image that is scaled to fit.
fn find_bound(size: u32, other: u32, max_size: u32, max_other: u32) -> (bound: u32)
    ensures
        bound == fitted_bound(size, other, max_size, max_other),
{
    let allowed: u32 = if max_size > 1 {
        max_size
    } else {
        1
    };
    if other > 0 {
        let full: u64 = product(size, max_other);
        let share: u64 = full / other as u64;
        if share + 1 < allowed as u64 {
            return (share + 1) as u32;
        }
    }
    allowed
}

/// Whether an image of these dimensions can be laid out as bytes for the encoder, four for a pixel
/// with alpha and three for one without.
pub open spec fn printable(width: u32, height: u32, alpha: bool) -> bool {
    if alpha {
        width * height * 4 <= isize::MAX && width * 4 <= i32::MAX
    } else {
        width * height * 3 <= isize::MAX && width * 3 <= i32::MAX
    }
}

/// Whether an image can be laid out as bytes for the encoder.
pub(crate) fn can_print(img: &image::DynamicImage) -> (can: bool)
    ensures
        can == printable(image_width(*img), image_height(*img), image_alpha(*img)),
{
    let (width, height) = (width_of(img), height_of(img));
    let area: u64 = product(width, height);
    if alpha_of(img) {
        area as u128 * 4 <= isize::MAX as u128 && width as u64 * 4 <= i32::MAX as u64
    } else {
        area as u128 * 3 <= isize::MAX as u128 && width as u64 * 3 <= i32::MAX as u64
    }
}

impl Picture {
    /// The pixels of an image, ready to be encoded: with alpha where the image has it.
    pub fn from_image(img: &image::DynamicImage) -> (picture: Picture)
        requires
            printable(image_width(*img), image_height(*img), image_alpha(*img)),
        ensures
            picture@ == picture_of(*img),
            picture@.well_formed(),
    {
        let (width, height) = (width_of(img), height_of(img));
        let alpha: bool = alpha_of(img);
        let area: u64 = product(width, height);
        let mut pixels = if alpha {
            rgba_of(img)
        } else {
            rgb_of(img)
        };
        // What an image holds beyond its pixels is cut off.
        pixels.truncate(
            area as usize * if alpha {
                4
            } else {
                3
            },
        );
        Picture { width, height, alpha, pixels }
    }
}

/// The pixels of an image, with alpha where the image has it.
pub open spec fn picture_of(img: image::DynamicImage) -> PictureView {
    PictureView {
        width: image_width(img),
        height: image_height(img),
        alpha: image_alpha(img),
        pixels: if image_alpha(img) {
            rgba_pixels(img)
        } else {
            rgb_pixels(img)
        },
    }
}

/// A request in `shrink` mode never enlarges a picture: it is kept, or both its dimensions are
/// multiplied by a fraction below one. The fraction is the largest that brings every dimension
/// that a size is asked for down to that size. What the fraction comes to is no larger than the
/// picture in either direction, and no larger than any size asked for.
pub proof fn law_shrink_never_enlarges(
    request: ConvertRequest,
    width: u32,
    height: u32,
    scaled: (u32, u32),
)
    requires
        request.resize_mode@ == "shrink"@,
    ensures
        match Resize::asked_for(request, width, height) {
            Resize::Keep => true,
            Resize::Shrink { numerator, denominator } => {
                let to_width = asked(request.resize_width);
                let to_height = asked(request.resize_height);
                &&& 0 < numerator < denominator
                &&& to_width > 0 ==> width * numerator <= to_width * denominator
                &&& to_height > 0 ==> height * numerator <= to_height * denominator
                &&& (to_width > 0 && width * numerator == to_width * denominator) || (to_height > 0
                    && height * numerator == to_height * denominator)
                &&& Resize::asked_for(request, width, height).fits(width, height, scaled) ==> {
                    &&& scaled.0 <= width && scaled.1 <= height
                    &&& to_width > 0 ==> scaled.0 <= to_width
                    &&& to_height > 0 ==> scaled.1 <= to_height
                }
            },
            _ => false,
        },
{
    let to_width = asked(request.resize_width);
    let to_height = asked(request.resize_height);
    assert(width * to_width == to_width * width) by (nonlinear_arith);
    assert(height * to_height == to_height * height) by (nonlinear_arith);
    assert(to_width * height == height * to_width) by (nonlinear_arith);
    assert(to_height * width == width * to_height) by (nonlinear_arith);
    if Resize::asked_for(request, width, height) is Shrink {
        if to_width > 0 && (to_height == 0 || to_width * height <= to_height * width) {
            if to_width >= width {
                assert(to_height * width < to_width * height) by (nonlinear_arith)
                    requires
                        0 < to_height < height,
                        to_width >= width,
                        to_width > 0,
                        width >= 0,
                ;
            }
        } else if to_height >= height {
            assert(to_width * height <= to_height * width) by (nonlinear_arith)
                requires
                    to_width < width,
                    to_height >= height,
                    to_width > 0,
                    height >= 0,
            ;
        }
        if let Resize::Shrink { numerator, denominator } = Resize::asked_for(
            request,
            width,
            height,
        ) {
            if multiplied(width, numerator, denominator, scaled.0) {
                lemma_stays_below(width, numerator, denominator, scaled.0, width);
                if to_width > 0 {
                    lemma_stays_below(width, numerator, denominator, scaled.0, to_width);
                }
            }
            if multiplied(height, numerator, denominator, scaled.1) {
                lemma_stays_below(height, numerator, denominator, scaled.1, height);
                if to_height > 0 {
                    lemma_stays_below(height, numerator, denominator, scaled.1, to_height);
                }
            }
        }
    }
}

/// What a fraction comes to stays within every whole number that the fraction itself stays within.
proof fn lemma_stays_below(size: u32, numerator: u32, denominator: u32, scaled: u32, bound: u32)
    requires
        multiplied(size, numerator, denominator, scaled),
        0 < numerator < denominator,
        bound == size || size * numerator <= bound * denominator,
    ensures
        scaled <= bound,
{
    if bound == size {
        assert(size * numerator <= bound * denominator) by (nonlinear_arith)
            requires
                bound == size,
                0 < numerator < denominator,
        ;
    }
    if scaled > bound {
        assert(scaled * denominator >= bound * denominator + denominator) by (nonlinear_arith)
            requires
                scaled >= bound + 1,
                denominator > 0,
        ;
    }
}

/// A request in `fill` mode either keeps a picture or gives it exactly the two sizes asked for.
pub proof fn law_fill_is_exact(request: ConvertRequest, width: u32, height: u32)
    requires
        request.resize_mode@ == "fill"@,
    ensures
        match Resize::asked_for(request, width, height) {
            Resize::Keep => !request.resize_enabled || asked(request.resize_width) == 0 || asked(
                request.resize_height,
            ) == 0,
            Resize::Exact { width: w, height: h } => request.resize_enabled && request.resize_width
                == Some(w) && request.resize_height == Some(h),
            _ => false,
        },
{
    reveal_strlit("fill");
    reveal_strlit("shrink");
    assert("fill"@.len() != "shrink"@.len());
}

/// Any mode but `shrink` and `fill` is the default mode: the picture is fitted within the sizes
/// asked for.
pub proof fn law_other_modes_fit(request: ConvertRequest, width: u32, height: u32)
    requires
        request.resize_mode@ != "shrink"@,
        request.resize_mode@ != "fill"@,
        request.resize_enabled,
        asked(request.resize_width) > 0 || asked(request.resize_height) > 0,
    ensures
        Resize::asked_for(request, width, height) matches Resize::Within { width: w, height: h } && {
            &&& asked(request.resize_width) > 0 ==> request.resize_width == Some(w)
            &&& asked(request.resize_width) == 0 ==> w == u32::MAX
            &&& asked(request.resize_height) > 0 ==> request.resize_height == Some(h)
            &&& asked(request.resize_height) == 0 ==> h == u32::MAX
        },
{
}

/// What a request asks of the size of a picture, told of the image that comes out: where resizing is
/// off or asks for no size, it is the image itself. In `fill` mode it has exactly the two sizes, or is
/// the image itself where one is missing. In `shrink` mode it is the image itself where that is small
/// enough already; else it is no larger than the image and than any size asked for, and one of the
/// sizes is reached to within a pixel, with the other side in step. In any other mode it stays within
/// the sizes, reaches one of them, and has as its other side the nearest pixel in step.
pub open spec fn sized_as_asked(
    out: image::DynamicImage,
    img: image::DynamicImage,
    request: ConvertRequest,
) -> bool {
    let (w, h) = (image_width(img) as int, image_height(img) as int);
    let (ow, oh) = (image_width(out) as int, image_height(out) as int);
    let tw = (match request.resize_width {
        Some(n) => n as int,
        None => 0,
    });
    let th = (match request.resize_height {
        Some(n) => n as int,
        None => 0,
    });
    let off = !request.resize_enabled || (tw == 0 && th == 0);
    let fill = !off && request.resize_mode@ == "fill"@;
    let shrink = !off && request.resize_mode@ == "shrink"@;
    let small = (tw == 0 || tw >= w) && (th == 0 || th >= h);
    &&& image_alpha(out) == image_alpha(img)
    &&& off ==> out == img
    &&& fill && tw > 0 && th > 0 ==> ow == tw && oh == th
    &&& fill && (tw == 0 || th == 0) ==> out == img
    &&& shrink && small ==> out == img
    &&& shrink && !small ==> {
        &&& ow <= w && oh <= h
        &&& tw > 0 ==> ow <= tw
        &&& th > 0 ==> oh <= th
        &&& (tw > 0 && ow + 2 > tw && oh * w + 2 * w > h * tw) || (th > 0 && oh + 2 > th && ow * h
            + 2 * h > w * th)
    }
    &&& !off && !fill && !shrink && w > 0 && h > 0 ==> {
        let mw = if tw > 0 {
            tw
        } else {
            u32::MAX as int
        };
        let mh = if th > 0 {
            th
        } else {
            u32::MAX as int
        };
        &&& 0 < ow <= mw && 0 < oh <= mh
        &&& (ow == mw && in_step(oh, h, ow, w)) || (oh == mh && in_step(ow, w, oh, h))
    }
    &&& (ow, oh) == (w, h) ==> image_rgb(out).take(w * h * 3) == image_rgb(img).take(w * h * 3)
        && image_rgba(out).take(w * h * 4) == image_rgba(img).take(w * h * 4)
}

/// Whether `size` is `full` scaled as `other_full` is to `other`, to the nearest pixel but at least
/// one, where the sizes are not beyond all measure.
pub open spec fn in_step(size: int, full: int, other: int, other_full: int) -> bool {
    ||| full * other > 0x4_0000_0000_0000
    ||| size == 1 && 2 * (full * other) <= 3 * other_full
    ||| 2 * size * other_full <= 2 * (full * other) + other_full && 2 * (full * other) <= 2 * size
        * other_full + other_full
}

/// Resizing does to an image what the request asks of its size, whatever the image and the request
/// are, and scales the image itself, in one go.
pub proof fn law_images_are_sized_as_asked(
    img: image::DynamicImage,
    request: &ConvertRequest,
    scaled: (u32, u32),
    out: image::DynamicImage,
)
    requires
        Resize::asked_for(*request, image_width(img), image_height(img)).fits(
            image_width(img),
            image_height(img),
            scaled,
        ),
        call_ensures(apply_resize, (img, request, scaled), out),
    ensures
        sized_as_asked(out, img, *request),
        out == img || scaled_exactly(img, image_width(out), image_height(out), out) || exists|
            w: u32,
            h: u32,
        | #[trigger]
            scaled_within(img, w, h, out),
{
    lemma_sized_as_asked(out, img, *request, scaled);
}

/// What carrying out a request comes to is sized as the request asks.
pub(crate) proof fn lemma_sized_as_asked(
    out: image::DynamicImage,
    img: image::DynamicImage,
    request: ConvertRequest,
    scaled: (u32, u32),
)
    requires
        ({
            let (width, height) = (image_width(img), image_height(img));
            let plan = Resize::asked_for(request, width, height);
            &&& plan.fits(width, height, scaled)
            &&& plan.carried_out(img, scaled, out)
            &&& (image_width(out), image_height(out)) == plan.dimensions(width, height, scaled)
            &&& image_alpha(out) == image_alpha(img)
            &&& plan matches Resize::Within { width: w, height: h } ==> largest_within(
                width,
                height,
                w,
                h,
                (image_width(out), image_height(out)),
            )
            &&& (image_width(out), image_height(out)) == (width, height) ==> same_pixels(out, img)
        }),
    ensures
        sized_as_asked(out, img, request),
{
    reveal_strlit("fill");
    reveal_strlit("shrink");
    assert("fill"@.len() != "shrink"@.len());
    let (width, height) = (image_width(img), image_height(img));
    lemma_in_step(image_height(out), height, image_width(out), width);
    lemma_in_step(image_width(out), width, image_height(out), height);
    if request.resize_mode@ == "shrink"@ {
        law_shrink_never_enlarges(request, width, height, scaled);
        let (tw, th) = (asked(request.resize_width), asked(request.resize_height));
        let (sw, sh) = scaled;
        if let Resize::Shrink { numerator, denominator } = Resize::asked_for(
            request,
            width,
            height,
        ) {
            if numerator == tw && denominator == width && tw > 0 {
                assert(sw + 2 > tw) by (nonlinear_arith)
                    requires
                        width * tw < sw * width + 2 * width,
                        width > 0,
                ;
                assert(height * numerator < sh * denominator + 2 * denominator);
            } else {
                assert(sh + 2 > th) by (nonlinear_arith)
                    requires
                        height * th < sh * height + 2 * height,
                        height > 0,
                ;
            }
        }
    }
}

/// The nearest pixel is in step.
pub(crate) proof fn lemma_in_step(size: u32, full: u32, other: u32, other_full: u32)
    ensures
        nearest(size, full, other, other_full) ==> in_step(
            size as int,
            full as int,
            other as int,
            other_full as int,
        ),
{
    assert(full * other == other * full) by (nonlinear_arith);
    assert(2 * size * other_full == 2 * (size * other_full)) by (nonlinear_arith);
}

/// What it means that an image itself was scaled: it was handed to the call that made the other.
proof fn law_images_themselves_are_scaled(
    img: image::DynamicImage,
    width: u32,
    height: u32,
    out: image::DynamicImage,
)
    ensures
        scaled_exactly(img, width, height, out) <==> call_ensures(
            scale_exact,
            (&img, width, height),
            out,
        ),
        scaled_within(img, width, height, out) <==> call_ensures(
            scale_within,
            (&img, width, height),
            out,
        ),
{
}

/// Images of ordinary size can always be scaled: a plan for one whose sides are below sixteen million
/// pixels is only refused where its buffers, at sixteen bytes a pixel, are beyond the memory of the
/// machine, or where the dimensions handed in are not what a fraction comes to.
pub proof fn law_ordinary_images_can_be_scaled(
    plan: &Resize,
    width: u32,
    height: u32,
    scaled: (u32, u32),
    can: bool,
)
    requires
        call_ensures(Resize::can_run, (plan, width, height, scaled), can),
        ordinary(*plan, width, height, scaled),
    ensures
        can,
{
    lemma_ordinary_fits(*plan, width, height, scaled);
}

/// Whether a plan is for an image whose sides are below sixteen million pixels, its buffers are within
/// the memory of the machine, at sixteen bytes a pixel, and the dimensions handed in are what a fraction
/// comes to.
pub open spec fn ordinary(plan: Resize, width: u32, height: u32, scaled: (u32, u32)) -> bool {
    &&& width < 16_000_000
    &&& height < 16_000_000
    &&& match plan {
        Resize::Keep => true,
        Resize::Exact { width: w, height: h } => width * h * 16 <= isize::MAX && w * h * 16
            <= isize::MAX,
        Resize::Within { width: w, height: h } => w > 0 && h > 0 && width * h * 16 <= isize::MAX && w
            * h * 16 <= isize::MAX,
        Resize::Shrink { numerator, denominator } => numerator < denominator && scaled.0 == width
            * numerator / (denominator as int) && scaled.1 == height * numerator / (
        denominator as int) && width * height * 16 <= isize::MAX,
    }
}

/// A plan for an image of ordinary size can be carried out.
pub(crate) proof fn lemma_ordinary_fits(
    plan: Resize,
    width: u32,
    height: u32,
    scaled: (u32, u32),
)
    requires
        ordinary(plan, width, height, scaled),
    ensures
        plan.fits(width, height, scaled),
{
    match plan {
        Resize::Keep => {},
        Resize::Exact { .. } => {},
        Resize::Within { width: w, height: h } => {
            if w > 0 && h > 0 && width * h * 16 <= isize::MAX && w * h * 16 <= isize::MAX {
                let columns = fitted_bound(width, height, w, h);
                let rows = fitted_bound(height, width, h, w);
                lemma_bound(width, height, w, h);
                lemma_bound(height, width, h, w);
                let wider = larger(width as int, columns);
                assert(wider * rows <= larger(width as int, w as int) * h) by (nonlinear_arith)
                    requires
                        0 <= wider <= larger(width as int, w as int),
                        0 <= rows <= h,
                ;
            }
        },
        Resize::Shrink { numerator, denominator } => {
            if numerator < denominator && scaled.0 == width * numerator / (denominator as int)
                && scaled.1 == height * numerator / (denominator as int) && width * height * 16
                <= isize::MAX {
                lemma_floor_is_multiplied(width, numerator, denominator, scaled.0);
                lemma_floor_is_multiplied(height, numerator, denominator, scaled.1);
                let wider = larger(width as int, scaled.0 as int);
                assert(wider * scaled.1 <= width * height) by (nonlinear_arith)
                    requires
                        0 <= wider <= width,
                        0 <= scaled.1 <= height,
                ;
            }
        },
    }
}

/// A bound on a dimension is no more than the dimension allowed.
proof fn lemma_bound(size: u32, other: u32, max_size: u32, max_other: u32)
    requires
        max_size > 0,
    ensures
        0 <= fitted_bound(size, other, max_size, max_other) <= max_size,
{
    if other > 0 {
        assert(size * max_other / (other as int) >= 0) by (nonlinear_arith)
            requires
                other > 0,
                size >= 0,
                max_other >= 0,
        ;
    }
}

/// A fraction of a size, cut off, is what the fraction comes to, and no larger than the size.
proof fn lemma_floor_is_multiplied(size: u32, numerator: u32, denominator: u32, scaled: u32)
    requires
        numerator < denominator,
        scaled == size * numerator / (denominator as int),
    ensures
        multiplied(size, numerator, denominator, scaled),
        scaled <= size,
{
    let (x, d) = (size * numerator, denominator as int);
    vstd::arithmetic::div_mod::lemma_fundamental_div_mod(x, d);
    assert(scaled * d == d * (x / d)) by (nonlinear_arith)
        requires
            scaled == x / d,
    ;
    assert(scaled <= size) by (nonlinear_arith)
        requires
            scaled * d <= size * numerator,
            numerator < d,
            0 < d,
            0 <= scaled,
            0 <= size,
            0 <= numerator,
    ;
}

} // verus!
