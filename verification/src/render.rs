//! From a decoded image to the bytes of its result.
use vstd::prelude::*;
use crate::encode;
use crate::encode::{Picture, PictureView};
use crate::request::ConvertRequest;
use crate::resize;
use crate::resize::Resize;

verus! {

/// The dimensions of an image once a request has scaled it.
pub open spec fn scaled_dimensions(
    img: image::DynamicImage,
    request: ConvertRequest,
    scaled: (u32, u32),
) -> (u32, u32) {
    let (width, height) = (resize::image_width(img), resize::image_height(img));
    Resize::asked_for(request, width, height).dimensions(width, height, scaled)
}

/// Whether an image can be scaled and encoded as a request says: its buffers fit in memory, and
/// where the result is lossless, it has dimensions that a WebP picture can have.
pub open spec fn renderable(
    img: image::DynamicImage,
    request: ConvertRequest,
    scaled: (u32, u32),
) -> bool {
    let (width, height) = (resize::image_width(img), resize::image_height(img));
    let (w, h) = scaled_dimensions(img, request, scaled);
    &&& Resize::asked_for(request, width, height).fits(width, height, scaled)
    &&& resize::printable(w, h, resize::image_alpha(img))
    &&& request.lossless ==> 1 <= w <= encode::MAX_DIMENSION && 1 <= h <= encode::MAX_DIMENSION
}

/// Whether `out` is what scaling makes of `img`: the image itself where it is kept, else what has
/// come of scaling it, of the right dimensions and the same kind of pixels; the same pixels where
/// the dimensions stay.
pub open spec fn scaled_from(
    out: image::DynamicImage,
    img: image::DynamicImage,
    request: ConvertRequest,
    scaled: (u32, u32),
) -> bool {
    let (width, height) = (resize::image_width(img), resize::image_height(img));
    &&& (resize::image_width(out), resize::image_height(out)) == scaled_dimensions(
        img,
        request,
        scaled,
    )
    &&& resize::image_alpha(out) == resize::image_alpha(img)
    &&& Resize::asked_for(request, width, height).carried_out(img, scaled, out)
    &&& Resize::asked_for(request, width, height) matches Resize::Within { width: w, height: h }
        ==> resize::largest_within(
        width,
        height,
        w,
        h,
        (resize::image_width(out), resize::image_height(out)),
    )
    &&& (resize::image_width(out), resize::image_height(out)) == (width, height)
        ==> resize::same_pixels(out, img)
}

/// The bytes that a request makes of a picture, and whether they meet its target size, if it has
/// one.
pub open spec fn rendering(picture: PictureView, request: ConvertRequest, quality: int) -> (
    Seq<u8>,
    bool,
) {
    match request.target_size_kb {
        Some(kb) => if request.lossless {
            (picture.lossless(), picture.lossless().len() <= kb * 1024)
        } else {
            picture.sized(kb as nat)
        },
        None => (picture.encoded(quality, request.lossless), true),
    }
}

/// The number of the error with which the encoder refuses what a request makes of a picture of
/// these dimensions, if it does. A search for a target size only tries qualities that it takes.
pub open spec fn refusal_for(
    width: u32,
    height: u32,
    request: ConvertRequest,
    quality: int,
) -> Option<int> {
    if request.lossless {
        None
    } else if request.target_size_kb is Some {
        encode::refusal(width, height, encode::LOWEST_QUALITY as int)
    } else {
        encode::refusal(width, height, quality)
    }
}

/// Encodes a picture as a request says.
pub fn encode_for(picture: &Picture, request: &ConvertRequest, quality: i32) -> (out: Result<
    (Vec<u8>, bool),
    String,
>)
    requires
        picture@.well_formed(),
        request.lossless ==> picture@.encodable(),
    ensures
        request.lossless ==> out is Ok,
        out matches Ok(made) ==> (made.0@, made.1) == rendering(
            picture@,
            *request,
            quality as int,
        ),
        out matches Err(message) ==> match request.target_size_kb {
            Some(kb) => call_ensures(
                encode::encode_target_size,
                (picture, kb, request.lossless),
                Err(message),
            ),
            None => call_ensures(
                encode::encode_webp,
                (picture, quality, request.lossless),
                Err(message),
            ),
        },
        encode::tells_refusal(
            refusal_for(picture.width, picture.height, *request, quality as int),
            encode::failure_message(out),
        ),
{
    match request.target_size_kb {
        Some(kb) => encode::encode_target_size(picture, kb, request.lossless),
        None => match encode::encode_webp(picture, quality, request.lossless) {
            Ok(bytes) => Ok((bytes, true)),
            Err(message) => Err(message),
        },
    }
}

/// Whether the encoding of a scaled image has failed with a message.
pub open spec fn encoding_failed(
    from: image::DynamicImage,
    picture: &Picture,
    request: ConvertRequest,
    quality: i32,
    message: String,
) -> bool {
    picture@ == resize::picture_of(from) && call_ensures(
        encode_for,
        (picture, &request, quality),
        Err(message),
    )
}

/// Scales and encodes an image as a request says; `None` where that cannot be done at all. Where
/// the request shrinks the image by a fraction, `scaled` holds the dimensions that the fraction
/// comes to.
pub fn render(
    img: image::DynamicImage,
    request: &ConvertRequest,
    quality: i32,
    scaled: (u32, u32),
) -> (out: Option<Result<(Vec<u8>, bool), String>>)
    ensures
        out is Some <==> renderable(img, *request, scaled),
        out matches Some(Ok(made)) ==> exists|from: image::DynamicImage|
            #[trigger] scaled_from(from, img, *request, scaled) && (made.0@, made.1) == rendering(
                resize::picture_of(from),
                *request,
                quality as int,
            ),
        out matches Some(Err(message)) ==> !request.lossless && exists|
            from: image::DynamicImage,
            picture: &Picture,
        |
            scaled_from(from, img, *request, scaled) && #[trigger] encoding_failed(
                from,
                picture,
                *request,
                quality,
                message,
            ),
        out matches Some(made) ==> encode::tells_refusal(
            refusal_for(
                scaled_dimensions(img, *request, scaled).0,
                scaled_dimensions(img, *request, scaled).1,
                *request,
                quality as int,
            ),
            encode::failure_message(made),
        ),
{
    let (width, height) = (resize::width_of(&img), resize::height_of(&img));
    let plan = resize::plan_resize(request, width, height);
    if !plan.can_run(width, height, scaled) {
        return None;
    }
    let ghost before = img;
    let out = resize::apply_resize(img, request, scaled);
    let (w, h) = (resize::width_of(&out), resize::height_of(&out));
    if !resize::can_print(&out) {
        return None;
    }
    if request.lossless && (w < 1 || w > encode::MAX_DIMENSION || h < 1 || h
        > encode::MAX_DIMENSION) {
        return None;
    }
    assert(scaled_from(out, before, *request, scaled));
    let picture = Picture::from_image(&out);
    let made = encode_for(&picture, request, quality);
    if let Err(message) = &made {
        assert(encoding_failed(out, &picture, *request, quality, *message));
    }
    Some(made)
}

/// Whether bytes are the form of a picture that a request asks for: the one that a target size calls
/// for where there is one; else the encoder's own form at this quality, or its lossless one.
pub open spec fn form_as_asked(
    picture: PictureView,
    request: ConvertRequest,
    quality: int,
    bytes: Seq<u8>,
    met: bool,
) -> bool {
    match request.target_size_kb {
        Some(kb) => encode::sized_form(picture, kb * 1024, request.lossless, bytes, met),
        None => met && bytes == if request.lossless {
            encode::webp_lossless(picture.alpha, picture.pixels, picture.width, picture.height)
        } else {
            encode::webp_lossy(
                picture.alpha,
                picture.pixels,
                picture.width,
                picture.height,
                quality,
            )
        },
    }
}

/// Whether a failure has the message that it has to have where nothing is to be encoded: a quality out
/// of range, which a target size does not go by, or dimensions that no WebP picture can have.
pub open spec fn fails_as_due(
    width: u32,
    height: u32,
    request: ConvertRequest,
    quality: int,
    failure: Option<Seq<char>>,
) -> bool {
    let off = request.target_size_kb is None && !(0 <= quality <= 100);
    &&& !request.lossless && off ==> failure == Some(
        "encode_fail:"@ + "VP8_ENC_ERROR_INVALID_CONFIGURATION"@,
    )
    &&& !request.lossless && !off && !(1 <= width <= 16383 && 1 <= height <= 16383) ==> failure
        == Some("encode_fail:"@ + "VP8_ENC_ERROR_BAD_DIMENSION"@)
    &&& request.lossless ==> failure is None
}

/// Whatever a request asks for, encoding a picture for it gives the form that it asks for whenever it
/// succeeds: with a target size that is out of reach, a form at some quality from 10 to 100 that is no
/// larger than any that was tried, and than any there is where sizes do not fall with the quality.
pub proof fn law_pictures_get_the_form_asked_for(
    picture: &Picture,
    request: &ConvertRequest,
    quality: i32,
    out: Result<(Vec<u8>, bool), String>,
)
    requires
        call_ensures(encode_for, (picture, request, quality), out),
    ensures
        out matches Ok(made) ==> form_as_asked(
            picture@,
            *request,
            quality as int,
            made.0@,
            made.1,
        ),
        fails_as_due(
            picture.width,
            picture.height,
            *request,
            quality as int,
            match out {
                Ok(_) => None,
                Err(message) => Some(message@),
            },
        ),
{
    if out is Ok {
        lemma_renderings_are_as_asked(picture@, *request, quality as int);
    }
}

/// What a request makes of a picture is the form that it asks for.
pub(crate) proof fn lemma_renderings_are_as_asked(
    picture: PictureView,
    request: ConvertRequest,
    quality: int,
)
    ensures
        form_as_asked(
            picture,
            request,
            quality,
            rendering(picture, request, quality).0,
            rendering(picture, request, quality).1,
        ),
{
    if let Some(kb) = request.target_size_kb {
        if !request.lossless {
            let (bytes, met) = picture.sized(kb as nat);
            encode::lemma_sized_form(picture, kb as nat, bytes, met);
        }
    }
}

/// The pixels of an image as the encoder takes them: with alpha where the image has it, and no byte
/// beyond what the dimensions need.
pub open spec fn pixels_of(img: image::DynamicImage) -> PictureView {
    let area = resize::image_width(img) * resize::image_height(img);
    PictureView {
        width: resize::image_width(img),
        height: resize::image_height(img),
        alpha: resize::image_alpha(img),
        pixels: if resize::image_alpha(img) {
            resize::image_rgba(img).take(area * 4)
        } else {
            resize::image_rgb(img).take(area * 3)
        },
    }
}

/// Rendering an image gives the form that the request asks for of an image that is sized as the request
/// asks, whenever it succeeds. It fails as it has to, and always comes to something where the image is
/// kept, its sides are ones that a WebP picture can have and its bytes fit in memory.
pub proof fn law_images_are_rendered_as_asked(
    img: image::DynamicImage,
    request: &ConvertRequest,
    quality: i32,
    scaled: (u32, u32),
    out: Option<Result<(Vec<u8>, bool), String>>,
)
    requires
        call_ensures(render, (img, request, quality, scaled), out),
    ensures
        out matches Some(Ok(made)) ==> exists|from: image::DynamicImage| #[trigger]
            resize::sized_as_asked(from, img, *request) && form_as_asked(
                pixels_of(from),
                *request,
                quality as int,
                made.0@,
                made.1,
            ),
        out matches Some(made) ==> (!request.resize_enabled ==> fails_as_due(
            resize::image_width(img),
            resize::image_height(img),
            *request,
            quality as int,
            match made {
                Ok(_) => None,
                Err(message) => Some(message@),
            },
        )),
        !request.resize_enabled && 1 <= resize::image_width(img) <= 16383 && 1
            <= resize::image_height(img) <= 16383 && resize::image_width(img)
            * resize::image_height(img) * 4 <= isize::MAX ==> out is Some,
{
    if let Some(Ok(made)) = out {
        let from = choose|from: image::DynamicImage|
            #[trigger] scaled_from(from, img, *request, scaled) && (made.0@, made.1) == rendering(
                resize::picture_of(from),
                *request,
                quality as int,
            );
        lemma_scaled_as_asked(from, img, *request, scaled);
        lemma_renderings_are_as_asked(resize::picture_of(from), *request, quality as int);
        assert(resize::picture_of(from) == pixels_of(from));
        assert(resize::sized_as_asked(from, img, *request));
    }
}

/// What scaling makes of an image is sized as the request asks.
pub(crate) proof fn lemma_scaled_as_asked(
    from: image::DynamicImage,
    img: image::DynamicImage,
    request: ConvertRequest,
    scaled: (u32, u32),
)
    requires
        renderable(img, request, scaled),
        scaled_from(from, img, request, scaled),
    ensures
        resize::sized_as_asked(from, img, request),
{
    resize::lemma_sized_as_asked(from, img, request, scaled);
}

/// Images of ordinary size are always rendered, into bytes or a message: where the scaling is ordinary,
/// and what comes out of it has sides that a WebP picture can have.
pub proof fn law_ordinary_images_are_rendered(
    img: image::DynamicImage,
    request: &ConvertRequest,
    quality: i32,
    scaled: (u32, u32),
    out: Option<Result<(Vec<u8>, bool), String>>,
)
    requires
        call_ensures(render, (img, request, quality, scaled), out),
        resize::ordinary(
            Resize::asked_for(*request, resize::image_width(img), resize::image_height(img)),
            resize::image_width(img),
            resize::image_height(img),
            scaled,
        ),
        ({
            let (w, h) = scaled_dimensions(img, *request, scaled);
            1 <= w <= 16383 && 1 <= h <= 16383 && w * h * 4 <= isize::MAX
        }),
    ensures
        out is Some,
        request.lossless ==> out->0 is Ok,
{
    resize::lemma_ordinary_fits(
        Resize::asked_for(*request, resize::image_width(img), resize::image_height(img)),
        resize::image_width(img),
        resize::image_height(img),
        scaled,
    );
}

/// The picture of an image has its dimensions and its pixels, with alpha exactly where the image has it.
pub proof fn law_pictures_hold_the_pixels(img: &image::DynamicImage, picture: Picture)
    requires
        call_ensures(Picture::from_image, (img,), picture),
    ensures
        picture@ == pixels_of(*img),
        picture.pixels@.len() == picture.width * picture.height * if picture.alpha {
            4int
        } else {
            3int
        },
{
}

} // verus!
