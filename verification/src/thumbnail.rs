//! Thumbnails, as text that a page can show.
use vstd::prelude::*;
use crate::resize;

verus! {

/// The width and height that a thumbnail fits within where none is asked for.
pub const DEFAULT_SIZE: u32 = 48;

/// The character that stands for six bits in base64's standard alphabet.
pub open spec fn base64_char(bits: int) -> char
    recommends
        0 <= bits < 64,
{
    if bits < 26 {
        (65 + bits) as char
    } else if bits < 52 {
        (97 + bits - 26) as char
    } else if bits < 62 {
        (48 + bits - 52) as char
    } else if bits == 62 {
        '+'
    } else {
        '/'
    }
}

/// Bytes in base64: four characters for three bytes, the last group filled up with `=`.
pub open spec fn base64_text(bytes: Seq<u8>) -> Seq<char>
    decreases bytes.len(),
{
    if bytes.len() == 0 {
        seq![]
    } else {
        let a = bytes[0] as int;
        let b = if bytes.len() > 1 {
            bytes[1] as int
        } else {
            0
        };
        let c = if bytes.len() > 2 {
            bytes[2] as int
        } else {
            0
        };
        let group = seq![
            base64_char(a / 4),
            base64_char(a % 4 * 16 + b / 16),
            if bytes.len() > 1 {
                base64_char(b % 16 * 4 + c / 64)
            } else {
                '='
            },
            if bytes.len() > 2 {
                base64_char(c % 64)
            } else {
                '='
            },
        ];
        if bytes.len() <= 3 {
            group
        } else {
            group + base64_text(bytes.skip(3))
        }
    }
}

/// The largest width and height of a picture that `DynamicImage::write_to` makes a WebP file of.
pub const MAX_SIDE: u32 = 16384;

/// The bytes that `DynamicImage::write_to` makes of an image in the WebP format.
pub uninterp spec fn image_webp(img: image::DynamicImage) -> Seq<u8>;

/// Whether `DynamicImage::write_to` makes a WebP file of an image of these dimensions.
pub open spec fn writable(img: image::DynamicImage) -> bool {
    1 <= resize::image_width(img) <= MAX_SIDE && 1 <= resize::image_height(img) <= MAX_SIDE
}

/// Calls `DynamicImage::write_to` for the WebP format, which panics on an image of a byte for each
/// channel that holds more bytes than its dimensions need; an error is handed on as its text.
/// Trusted: what it makes depends on the image alone, and it fails exactly where a dimension is
/// zero or too large. It is not stated what the text of an error is.
#[verifier::external_body]
fn to_webp(img: &image::DynamicImage) -> (out: Result<Vec<u8>, String>)
    requires
        resize::tight(*img),
    ensures
        out matches Ok(bytes) ==> bytes@ == image_webp(*img),
        (out is Ok) == writable(*img),
{
    let mut buffer = std::io::Cursor::new(Vec::new());
    match img.write_to(&mut buffer, image::ImageFormat::WebP) {
        Ok(()) => Ok(buffer.into_inner()),
        Err(error) => Err(error.to_string()),
    }
}

/// Whether the encoding of an image has failed with an error.
pub closed spec fn encoding_failed(img: image::DynamicImage, error: String) -> bool {
    call_ensures(to_webp, (&img,), Err(error))
}

/// Calls `base64::Engine::encode` on the standard engine, which panics where the text does not fit
/// in memory. Trusted: it gives base64 with the standard alphabet, filled up with `=`.
#[verifier::external_body]
fn to_base64(bytes: &[u8]) -> (out: String)
    requires
        bytes@.len() <= usize::MAX / 4,
    ensures
        out@ == base64_text(bytes@),
{
    base64::Engine::encode(&base64::engine::general_purpose::STANDARD, bytes)
}

/// A WebP image as the text of a link to itself.
pub open spec fn data_link(webp: Seq<u8>) -> Seq<char> {
    "data:image/webp;base64,"@ + base64_text(webp)
}

/// A WebP image as the text of a link to itself.
pub fn data_url(webp: &[u8]) -> (url: String)
    requires
        webp@.len() <= usize::MAX / 4,
    ensures
        url@ == data_link(webp@),
{
    let mut url = "data:image/webp;base64,".to_owned();
    url.append(to_base64(webp).as_str());
    url
}

/// The size that a thumbnail fits within.
pub open spec fn thumbnail_size(size: Option<u32>) -> u32 {
    match size {
        Some(n) => n,
        None => DEFAULT_SIZE,
    }
}

/// Whether `thumb` is a thumbnail of `img`: the image itself scaled to fit within a square, with
/// the same kind of pixels, and the same pixels where the dimensions stay.
pub open spec fn thumbnail_of(thumb: image::DynamicImage, img: image::DynamicImage, size: u32) -> bool {
    &&& (resize::image_width(thumb), resize::image_height(thumb)) == resize::fitted(
        resize::image_width(img),
        resize::image_height(img),
        size,
        size,
    )
    &&& resize::scaled_within(img, size, size, thumb)
    &&& resize::largest_within(
        resize::image_width(img),
        resize::image_height(img),
        size,
        size,
        (resize::image_width(thumb), resize::image_height(thumb)),
    )
    &&& resize::image_alpha(thumb) == resize::image_alpha(img)
    &&& (resize::image_width(thumb), resize::image_height(thumb)) == (
        resize::image_width(img),
        resize::image_height(img),
    ) ==> resize::same_pixels(thumb, img)
}

/// The outcome of a thumbnail's encoding: the text of a link, or the message for an error; `None`
/// where the bytes are more than can be turned into text.
pub fn thumbnail_link(encoded: Result<Vec<u8>, String>) -> (link: Option<Result<String, String>>)
    ensures
        match encoded {
            Ok(bytes) => if bytes@.len() <= usize::MAX / 4 {
                link is Some && link->0 is Ok && link->0->Ok_0@ == data_link(bytes@)
            } else {
                link is None
            },
            Err(message) => link is Some && link->0 is Err && link->0->Err_0@ == "encode_fail:"@
                + message@,
        },
{
    match encoded {
        Ok(bytes) => if bytes.len() <= usize::MAX / 4 {
            Some(Ok(data_url(bytes.as_slice())))
        } else {
            None
        },
        Err(message) => {
            let mut text = "encode_fail:".to_owned();
            text.append(message.as_str());
            Some(Err(text))
        },
    }
}

/// Whether a thumbnail of an image can be made and encoded at all: its buffers can be allocated,
/// and it holds no more bytes than it needs, which is so unless it is a copy of an image that does.
pub open spec fn can_be_made(img: image::DynamicImage, size: u32) -> bool {
    &&& resize::within_fits(resize::image_width(img), resize::image_height(img), size, size)
    &&& resize::tight(img) || (resize::image_width(img), resize::image_height(img)) != (size, size)
}

/// A thumbnail of an image, as the text of a link to itself; `None` where that cannot be done at
/// all. It only fails where the image is empty or the size is beyond what the format has.
pub fn generate_thumbnail(img: &image::DynamicImage, size: Option<u32>) -> (link: Option<
    Result<String, String>,
>)
    ensures
        !can_be_made(*img, thumbnail_size(size)) ==> link is None,
        link is None ==> !can_be_made(*img, thumbnail_size(size)) || exists|
            thumb: image::DynamicImage,
        |
            #[trigger] thumbnail_of(thumb, *img, thumbnail_size(size)) && image_webp(thumb).len()
                > usize::MAX / 4,
        resize::image_width(*img) > 0 && resize::image_height(*img) > 0 && thumbnail_size(size)
            <= MAX_SIDE ==> link is None || link->0 is Ok,
        link matches Some(Ok(url)) ==> exists|thumb: image::DynamicImage|
            #[trigger] thumbnail_of(thumb, *img, thumbnail_size(size)) && url@ == data_link(
                image_webp(thumb),
            ),
        link matches Some(Err(message)) ==> exists|thumb: image::DynamicImage, error: String|
            thumbnail_of(thumb, *img, thumbnail_size(size)) && !writable(thumb)
                && #[trigger] encoding_failed(thumb, error) && message@ == "encode_fail:"@
                + error@,
{
    let side: u32 = size.unwrap_or(DEFAULT_SIZE);
    let (width, height) = (resize::width_of(img), resize::height_of(img));
    if !resize::can_scale_within(width, height, side, side) {
        return None;
    }
    if !resize::is_tight(img) && width == side && height == side {
        return None;
    }
    let thumb = resize::fit_within(img, side, side);
    assert(thumbnail_of(thumb, *img, thumbnail_size(size)));
    let encoded = to_webp(&thumb);
    if let Err(error) = &encoded {
        assert(encoding_failed(thumb, *error));
    }
    thumbnail_link(encoded)
}

/// A link has four characters for every three bytes that were begun, behind its head.
pub proof fn law_base64_length(bytes: Seq<u8>)
    ensures
        base64_text(bytes).len() == (bytes.len() + 2) / 3 * 4,
    decreases bytes.len(),
{
    if bytes.len() > 3 {
        law_base64_length(bytes.skip(3));
    }
}

/// A thumbnail is a link to a WebP file of the image itself, scaled so that its longer side has the size
/// asked for, or 48 where none is, and its other side is the nearest pixel in step.
pub proof fn law_thumbnails_show_the_image(
    img: &image::DynamicImage,
    size: Option<u32>,
    link: Option<Result<String, String>>,
)
    requires
        call_ensures(generate_thumbnail, (img, size), link),
    ensures
        link matches Some(Ok(url)) ==> (resize::image_width(*img) > 0 && resize::image_height(*img)
            > 0 && side_asked_for(size) > 0 ==> exists|thumb: image::DynamicImage| #[trigger]
            shows(thumb, *img, side_asked_for(size)) && url@ == "data:image/webp;base64,"@
                + base64_text(image_webp(thumb))),
        resize::image_width(*img) > 0 && resize::image_height(*img) > 0 && side_asked_for(size)
            <= 16384 ==> link is None || link->0 is Ok,
        link matches Some(Err(message)) ==> "encode_fail:"@.is_prefix_of(message@),
{
    let side = thumbnail_size(size);
    let (w, h) = (resize::image_width(*img), resize::image_height(*img));
    if let Some(Ok(url)) = link {
        let thumb = choose|thumb: image::DynamicImage|
            #[trigger] thumbnail_of(thumb, *img, side) && url@ == data_link(image_webp(thumb));
        let (tw, th) = (resize::image_width(thumb), resize::image_height(thumb));
        resize::lemma_in_step(th, h, tw, w);
        resize::lemma_in_step(tw, w, th, h);
        if w > 0 && h > 0 && side > 0 {
            assert(shows(thumb, *img, side as int));
        }
    }
    if let Some(Err(message)) = link {
        let (thumb, error) = choose|thumb: image::DynamicImage, error: String|
            thumbnail_of(thumb, *img, side) && !writable(thumb)
                && #[trigger] encoding_failed(thumb, error) && message@ == "encode_fail:"@
                + error@;
        assert("encode_fail:"@ =~= message@.subrange(0, "encode_fail:"@.len() as int));
    }
}

/// The side that a thumbnail is to have.
pub open spec fn side_asked_for(size: Option<u32>) -> int {
    match size {
        Some(n) => n as int,
        None => 48,
    }
}

/// Whether an image is another one with its longer side at a size.
pub open spec fn shows(thumb: image::DynamicImage, img: image::DynamicImage, side: int) -> bool {
    let (w, h) = (resize::image_width(img) as int, resize::image_height(img) as int);
    let (tw, th) = (resize::image_width(thumb) as int, resize::image_height(thumb) as int);
    &&& 0 < tw <= side && 0 < th <= side
    &&& (tw == side && resize::in_step(th, h, tw, w)) || (th == side && resize::in_step(
        tw,
        w,
        th,
        h,
    ))
    &&& resize::image_alpha(thumb) == resize::image_alpha(img)
}

/// Thumbnails of ordinary images are always made: where the sides of the image are below sixteen million
/// pixels, the buffers are within the memory of the machine, and the image holds no more bytes than it
/// needs, there is a link, unless the thumbnail takes more bytes than can be turned into text.
pub proof fn law_ordinary_images_have_thumbnails(
    img: &image::DynamicImage,
    size: Option<u32>,
    link: Option<Result<String, String>>,
)
    requires
        call_ensures(generate_thumbnail, (img, size), link),
        0 < resize::image_width(*img) < 16_000_000,
        0 < resize::image_height(*img) < 16_000_000,
        0 < side_asked_for(size) <= 16384,
        resize::image_width(*img) * side_asked_for(size) * 16 <= isize::MAX,
        side_asked_for(size) * side_asked_for(size) * 16 <= isize::MAX,
        resize::image_bytes(*img) == resize::image_width(*img) * resize::image_height(*img)
            * resize::image_pixel_bytes(*img),
        forall|thumb: image::DynamicImage|
            (#[trigger] image_webp(thumb)).len() <= usize::MAX / 4,
    ensures
        link matches Some(Ok(_)),
{
    let side = thumbnail_size(size);
    resize::lemma_ordinary_fits(
        resize::Resize::Within { width: side, height: side },
        resize::image_width(*img),
        resize::image_height(*img),
        (0, 0),
    );
    assert(can_be_made(*img, side));
}

/// The six bits that a character of base64's standard alphabet stands for.
pub open spec fn base64_bits(c: char) -> int {
    if 'A' <= c <= 'Z' {
        c as int - 'A' as int
    } else if 'a' <= c <= 'z' {
        c as int - 'a' as int + 26
    } else if '0' <= c <= '9' {
        c as int - '0' as int + 52
    } else if c == '+' {
        62
    } else {
        63
    }
}

/// Links can be read back: bytes are told three at a time, by four characters whose bits are theirs, and
/// a last group of fewer is filled up with `=`; so what is behind a whole number of groups is told by
/// itself.
pub proof fn law_base64_can_be_read_back(bytes: Seq<u8>, more: Seq<u8>)
    requires
        bytes.len() == 3,
    ensures
        base64_text(bytes + more) == base64_text(bytes) + base64_text(more),
        ({
            let t = base64_text(bytes);
            &&& t.len() == 4
            &&& base64_bits(t[0]) * 262144 + base64_bits(t[1]) * 4096 + base64_bits(t[2]) * 64
                + base64_bits(t[3]) == bytes[0] * 65536 + bytes[1] * 256 + bytes[2]
        }),
        ({
            let t = base64_text(bytes.take(2));
            &&& t.len() == 4 && t[3] == '='
            &&& base64_bits(t[0]) * 4096 + base64_bits(t[1]) * 64 + base64_bits(t[2]) == (bytes[0]
                * 256 + bytes[1]) * 4
        }),
        ({
            let t = base64_text(bytes.take(1));
            &&& t.len() == 4 && t[2] == '=' && t[3] == '='
            &&& base64_bits(t[0]) * 64 + base64_bits(t[1]) == bytes[0] * 16
        }),
        base64_text(seq![]).len() == 0,
{
    let (a, b, c) = (bytes[0] as int, bytes[1] as int, bytes[2] as int);
    lemma_bits(a / 4);
    lemma_bits(a % 4 * 16 + b / 16);
    lemma_bits(b % 16 * 4 + c / 64);
    lemma_bits(c % 64);
    lemma_bits(a % 4 * 16);
    lemma_bits(b % 16 * 4);
    assert((bytes + more).skip(3) =~= more);
    if more.len() == 0 {
        assert(bytes + more =~= bytes);
        assert(base64_text(bytes) + base64_text(more) =~= base64_text(bytes));
    }
}

/// A character stands for the bits that it was chosen for.
proof fn lemma_bits(bits: int)
    requires
        0 <= bits < 64,
    ensures
        base64_bits(base64_char(bits)) == bits,
{
}

/// A link to a file is one fixed beginning and the file in base64.
pub proof fn law_links_hold_the_file(webp: &[u8], url: String)
    requires
        call_ensures(data_url, (webp,), url),
    ensures
        url@ == "data:image/webp;base64,"@ + base64_text(webp@),
{
}

} // verus!
