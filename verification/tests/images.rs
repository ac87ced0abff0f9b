use image::{DynamicImage, ImageBuffer, Luma, Rgb, RgbImage, Rgba, RgbaImage};
use pic2webp::encode;
use pic2webp::encode::{Picture, SizeSearch};
use pic2webp::render;
use pic2webp::request;
use pic2webp::request::ConvertRequest;
use pic2webp::resize;
use pic2webp::resize::Resize;
use webp::WebPEncodingError;

fn request() -> ConvertRequest {
    ConvertRequest {
        files: Vec::new(),
        quality: 80,
        recursive: false,
        delete_source: false,
        output_dir: None,
        naming_mode: "overwrite".to_string(),
        lossless: false,
        strip_exif: false,
        preserve_structure: false,
        target_size_kb: None,
        resize_enabled: false,
        resize_width: None,
        resize_height: None,
        resize_mode: request::default_resize_mode(),
        base_dir: None,
    }
}

fn resizing(mode: &str, width: Option<u32>, height: Option<u32>) -> ConvertRequest {
    let mut r = request();
    r.resize_enabled = true;
    r.resize_mode = mode.to_string();
    r.resize_width = width;
    r.resize_height = height;
    r
}

/// A picture with enough detail for its size to depend on the quality.
fn noisy(width: u32, height: u32) -> DynamicImage {
    let mut state: u32 = 12345;
    let mut next = move || {
        state = state.wrapping_mul(1664525).wrapping_add(1013904223);
        (state >> 24) as u8
    };
    DynamicImage::ImageRgb8(RgbImage::from_fn(width, height, |_, _| Rgb([next(), next(), next()])))
}

fn translucent(width: u32, height: u32) -> DynamicImage {
    DynamicImage::ImageRgba8(RgbaImage::from_fn(width, height, |x, y| {
        Rgba([(x * 7) as u8, (y * 5) as u8, 90, if x < width / 2 { 255 } else { 40 }])
    }))
}

fn decoded(bytes: &[u8]) -> DynamicImage {
    image::load_from_memory_with_format(bytes, image::ImageFormat::WebP).unwrap()
}

/// The dimensions that a fraction comes to in floating point.
fn shrunk(width: u32, height: u32, numerator: u32, denominator: u32) -> (u32, u32) {
    let scale = numerator as f64 / denominator as f64;
    ((width as f64 * scale) as u32, (height as f64 * scale) as u32)
}

#[test]
fn pictures_take_over_the_pixels() {
    let img = noisy(3, 2);
    let picture = Picture::from_image(&img);
    assert_eq!((picture.width, picture.height, picture.alpha), (3, 2, false));
    assert_eq!(picture.pixels, img.to_rgb8().into_raw());
    assert_eq!(picture.pixels.len(), 18);

    let img = translucent(4, 2);
    let picture = Picture::from_image(&img);
    assert_eq!((picture.width, picture.height, picture.alpha), (4, 2, true));
    assert_eq!(picture.pixels, img.to_rgba8().into_raw());

    let grey = DynamicImage::new_luma8(2, 2);
    assert_eq!(Picture::from_image(&grey).pixels, vec![0; 12]);
    let grey = DynamicImage::new_luma_a8(2, 2);
    assert_eq!(Picture::from_image(&grey).pixels, vec![0; 16]);
}

#[test]
fn lossless_results_decode_to_the_same_pixels() {
    let img = noisy(20, 10);
    let bytes = encode::encode_webp(&Picture::from_image(&img), 1, true).unwrap();
    assert_eq!(&bytes[..4], b"RIFF");
    assert_eq!(&bytes[8..12], b"WEBP");
    assert_eq!(decoded(&bytes).to_rgb8(), img.to_rgb8());
    let shown = webp::Decoder::new(&bytes).decode().unwrap();
    assert_eq!((shown.width(), shown.height()), (20, 10));
    assert_eq!(shown.to_vec(), img.to_rgb8().into_raw());
    assert_eq!(encode::encode_webp(&Picture::from_image(&img), 99, true).unwrap(), bytes);

    let img = translucent(20, 10);
    let bytes = encode::encode_webp(&Picture::from_image(&img), 1, true).unwrap();
    assert_eq!(decoded(&bytes).to_rgba8(), img.to_rgba8());
}

#[test]
fn lossy_results_are_what_the_encoder_makes() {
    let img = noisy(40, 30);
    let picture = Picture::from_image(&img);
    for quality in [0i32, 10, 55, 100] {
        let bytes = encode::encode_webp(&picture, quality, false).unwrap();
        let rgb = img.to_rgb8();
        let expected = webp::Encoder::from_rgb(rgb.as_raw(), 40, 30)
            .encode_simple(false, quality as f32)
            .unwrap();
        assert_eq!(bytes, expected.to_vec());
        let back = decoded(&bytes);
        assert_eq!((back.width(), back.height()), (40, 30));
    }
    let img = translucent(40, 30);
    let bytes = encode::encode_lossy(&Picture::from_image(&img), 80).unwrap();
    let rgba = img.to_rgba8();
    let expected =
        webp::Encoder::from_rgba(rgba.as_raw(), 40, 30).encode_simple(false, 80.0).unwrap();
    assert_eq!(bytes, expected.to_vec());
    assert!(decoded(&bytes).color().has_alpha());
}

#[test]
fn qualities_out_of_range_are_refused() {
    for img in [noisy(4, 4), translucent(4, 4)] {
        let picture = Picture::from_image(&img);
        for quality in [-1, 101, i32::MIN, i32::MAX, 65536, -65536 + 50] {
            assert_eq!(encode::encode_lossy(&picture, quality), Err(4));
            assert_eq!(
                encode::encode_webp(&picture, quality, false),
                Err("encode_fail:VP8_ENC_ERROR_INVALID_CONFIGURATION".to_string())
            );
        }
    }
}

#[test]
fn dimensions_out_of_range_are_refused() {
    for img in [DynamicImage::new_rgb8(16384, 1), DynamicImage::new_rgba8(1, 16384)] {
        let picture = Picture::from_image(&img);
        assert_eq!(
            encode::encode_webp(&picture, 80, false),
            Err("encode_fail:VP8_ENC_ERROR_BAD_DIMENSION".to_string())
        );
        assert!(encode::encode_target_size(&picture, 10, false).is_err());
    }
    let edge = Picture::from_image(&DynamicImage::new_rgb8(16383, 1));
    assert!(encode::encode_webp(&edge, 80, false).is_ok());
    assert!(encode::encode_webp(&edge, 80, true).is_ok());
    let empty = Picture::from_image(&DynamicImage::new_rgb8(0, 5));
    assert!(encode::encode_webp(&empty, 80, false).is_err());
}

#[test]
fn the_encoder_s_errors_are_named_as_it_names_them() {
    let all = [
        WebPEncodingError::VP8_ENC_OK,
        WebPEncodingError::VP8_ENC_ERROR_OUT_OF_MEMORY,
        WebPEncodingError::VP8_ENC_ERROR_BITSTREAM_OUT_OF_MEMORY,
        WebPEncodingError::VP8_ENC_ERROR_NULL_PARAMETER,
        WebPEncodingError::VP8_ENC_ERROR_INVALID_CONFIGURATION,
        WebPEncodingError::VP8_ENC_ERROR_BAD_DIMENSION,
        WebPEncodingError::VP8_ENC_ERROR_PARTITION0_OVERFLOW,
        WebPEncodingError::VP8_ENC_ERROR_PARTITION_OVERFLOW,
        WebPEncodingError::VP8_ENC_ERROR_BAD_WRITE,
        WebPEncodingError::VP8_ENC_ERROR_FILE_TOO_BIG,
        WebPEncodingError::VP8_ENC_ERROR_USER_ABORT,
        WebPEncodingError::VP8_ENC_ERROR_LAST,
    ];
    for error in all {
        let name = format!("{:?}", error);
        assert_eq!(encode::encoder_error_name(error as i32), name);
        assert_eq!(encode::encode_failure(error as i32), format!("encode_fail:{}", name));
    }
}

#[test]
fn a_search_halves_the_open_qualities() {
    let mut search = SizeSearch::new(1);
    let mut tried: Vec<i32> = Vec::new();
    // Everything up to quality 62 is within the limit of 1024 bytes.
    loop {
        let quality = match search.next_quality() {
            Some(q) => q,
            None => break,
        };
        tried.push(quality);
        search.record(vec![0; if quality <= 62 { 1024 } else { 1025 }]);
    }
    assert_eq!(tried, vec![55, 78, 66, 60, 63, 61, 62]);
    let (bytes, met) = search.outcome().unwrap();
    assert_eq!((bytes.len(), met), (1024, true));
}

#[test]
fn a_search_out_of_reach_gives_the_smallest_trial() {
    let mut search = SizeSearch::new(0);
    let mut tried: Vec<i32> = Vec::new();
    loop {
        let quality = match search.next_quality() {
            Some(q) => q,
            None => break,
        };
        tried.push(quality);
        search.record(vec![0; 10 + quality as usize]);
    }
    assert_eq!(tried, vec![55, 32, 20, 14, 11, 10]);
    let (bytes, met) = search.outcome().unwrap();
    assert_eq!((bytes.len(), met), (20, false));
    assert!(SizeSearch::new(5).outcome().is_none());
}

#[test]
fn a_target_size_gets_the_highest_quality_within_it() {
    let img = noisy(120, 90);
    let picture = Picture::from_image(&img);
    let size = |q: i32| encode::encode_lossy(&picture, q).unwrap().len();
    let target_kb = (size(60) / 1024 + 1) as u32;
    let (bytes, met) = encode::encode_target_size(&picture, target_kb, false).unwrap();
    assert!(met);
    assert!(bytes.len() <= target_kb as usize * 1024);
    // Neighbouring qualities may come to the same bytes: the highest of them counts.
    let chosen =
        (10..=100).rev().find(|q| encode::encode_lossy(&picture, *q).unwrap() == bytes).unwrap();
    assert!(chosen == 100 || size(chosen + 1) > target_kb as usize * 1024);
}

#[test]
fn a_target_size_out_of_reach_gives_the_smallest_result() {
    let picture = Picture::from_image(&noisy(120, 90));
    let (bytes, met) = encode::encode_target_size(&picture, 0, false).unwrap();
    assert!(!met);
    assert_eq!(bytes, encode::encode_lossy(&picture, 10).unwrap());

    let (bytes, met) = encode::encode_target_size(&picture, u32::MAX, false).unwrap();
    assert!(met);
    assert_eq!(bytes, encode::encode_lossy(&picture, 100).unwrap());
}

#[test]
fn a_lossless_result_meets_a_target_size_or_does_not() {
    let picture = Picture::from_image(&noisy(40, 40));
    let lossless = encode::encode_webp(&picture, 100, true).unwrap();
    assert!(lossless.len() > 2048);
    let kb = (lossless.len() + 1023) / 1024;
    for (target_kb, within) in [(1000, true), (kb, true), (kb - 1, false), (0, false)] {
        let (bytes, met) =
            encode::encode_target_size(&picture, target_kb as u32, true).unwrap();
        assert_eq!(met, within);
        assert_eq!(bytes, lossless);
    }
}

#[test]
fn requests_without_sizes_keep_pictures() {
    let mut r = resizing("fill", Some(10), Some(10));
    r.resize_enabled = false;
    assert_eq!(resize::plan_resize(&r, 100, 80), Resize::Keep);
    for mode in ["fit", "fill", "shrink"] {
        assert_eq!(resize::plan_resize(&resizing(mode, None, None), 100, 80), Resize::Keep);
        assert_eq!(resize::plan_resize(&resizing(mode, Some(0), Some(0)), 100, 80), Resize::Keep);
    }
}

#[test]
fn shrinking_never_enlarges() {
    let plan = |w, h| resize::plan_resize(&resizing("shrink", w, h), 100, 80);
    assert_eq!(plan(Some(200), Some(160)), Resize::Keep);
    assert_eq!(plan(Some(100), Some(80)), Resize::Keep);
    assert_eq!(plan(Some(100), None), Resize::Keep);
    assert_eq!(plan(Some(50), None), Resize::Shrink { numerator: 50, denominator: 100 });
    assert_eq!(plan(None, Some(20)), Resize::Shrink { numerator: 20, denominator: 80 });
    assert_eq!(plan(Some(50), Some(60)), Resize::Shrink { numerator: 50, denominator: 100 });
    assert_eq!(plan(Some(90), Some(20)), Resize::Shrink { numerator: 20, denominator: 80 });
    assert_eq!(plan(Some(200), Some(20)), Resize::Shrink { numerator: 20, denominator: 80 });
    assert_eq!(plan(Some(50), Some(40)), Resize::Shrink { numerator: 50, denominator: 100 });
}

#[test]
fn shrinking_goes_by_the_smaller_ratio_in_floating_point() {
    let sizes: [u32; 9] = [1, 2, 3, 7, 99, 100, 1001, 4096, u32::MAX];
    for w in sizes {
        for h in sizes {
            for tw in [0, 1, 3, 50, 100, 5000, u32::MAX - 1, u32::MAX] {
                for th in [0u32, 1, 2, 77, 100, 4095, u32::MAX] {
                    let scale_w = if tw > 0 { tw as f64 / w as f64 } else { 1.0 };
                    let scale_h = if th > 0 { th as f64 / h as f64 } else { 1.0 };
                    let scale = scale_w.min(scale_h);
                    match resize::plan_resize(&resizing("shrink", Some(tw), Some(th)), w, h) {
                        Resize::Keep => assert!(scale >= 1.0 || (tw == 0 && th == 0)),
                        Resize::Shrink { numerator, denominator } => {
                            assert!(scale < 1.0);
                            assert_eq!(numerator as f64 / denominator as f64, scale);
                            let (sw, sh) = shrunk(w, h, numerator, denominator);
                            assert!(sw <= w && sh <= h);
                            assert!((tw == 0 || sw <= tw) && (th == 0 || sh <= th));
                            let plan = Resize::Shrink { numerator, denominator };
                            let allocated = w as u64 * sh as u64 <= 1 << 40;
                            let sampled = |old: u32, new: u32| old < 1 << 24 || new <= 1 << 20;
                            if allocated && sampled(w, sw) && sampled(h, sh) {
                                assert!(plan.can_run(w, h, (sw, sh)));
                            }
                        }
                        other => panic!("{:?}", other),
                    }
                }
            }
        }
    }
}

#[test]
fn filling_is_exact_or_nothing() {
    let plan = |w, h| resize::plan_resize(&resizing("fill", w, h), 100, 80);
    assert_eq!(plan(Some(30), Some(90)), Resize::Exact { width: 30, height: 90 });
    assert_eq!(plan(Some(30), None), Resize::Keep);
    assert_eq!(plan(Some(0), Some(90)), Resize::Keep);
}

#[test]
fn every_other_mode_fits() {
    for mode in ["fit", "", "FILL", "cover"] {
        let plan = |w, h| resize::plan_resize(&resizing(mode, w, h), 100, 80);
        assert_eq!(plan(Some(30), Some(90)), Resize::Within { width: 30, height: 90 });
        assert_eq!(plan(Some(30), None), Resize::Within { width: 30, height: u32::MAX });
        assert_eq!(plan(Some(0), Some(9)), Resize::Within { width: u32::MAX, height: 9 });
    }
}

#[test]
fn images_are_scaled_as_planned() {
    let size = |img: DynamicImage| (img.width(), img.height());
    let scale = |r: &ConvertRequest| size(resize::apply_resize(noisy(100, 80), r, (0, 0)));
    assert_eq!(scale(&request()), (100, 80));
    assert_eq!(scale(&resizing("fill", Some(30), Some(90))), (30, 90));
    assert_eq!(scale(&resizing("fit", Some(50), Some(50))), (50, 40));
    assert_eq!(scale(&resizing("fit", Some(200), None)), (200, 160));
    assert_eq!(scale(&resizing("fit", None, Some(20))), (25, 20));
    assert_eq!(scale(&resizing("fit", Some(1), None)), (1, 1));
    assert_eq!(scale(&resizing("fit", Some(7), None)), (7, 6));
    let wide = resize::apply_resize(noisy(100, 50), &resizing("fit", Some(200), Some(200)), (0, 0));
    assert_eq!(size(wide), (200, 100));
    let flat = resize::apply_resize(noisy(100, 1), &resizing("fit", Some(5), None), (0, 0));
    assert_eq!(size(flat), (5, 1));
    let tall = resize::apply_resize(noisy(10, 1000), &resizing("fit", Some(5), None), (0, 0));
    assert_eq!(size(tall), (5, 500));
    let square = resize::apply_resize(noisy(100, 100), &resizing("fit", Some(48), Some(48)), (0, 0));
    assert_eq!(size(square), (48, 48));
    let r = resizing("shrink", Some(33), None);
    let scaled = shrunk(100, 80, 33, 100);
    assert_eq!(scaled, (33, 26));
    assert_eq!(size(resize::apply_resize(noisy(100, 80), &r, scaled)), (33, 26));
}

#[test]
fn scaling_keeps_transparency() {
    let out = resize::apply_resize(translucent(40, 40), &resizing("fit", Some(10), None), (0, 0));
    assert!(out.color().has_alpha());
    assert_ne!(out, translucent(10, 10));
    let out = resize::apply_resize(noisy(40, 40), &resizing("fill", Some(9), Some(3)), (0, 0));
    assert!(!out.color().has_alpha());
}

#[test]
fn scaling_to_the_same_size_keeps_the_pixels() {
    let img = noisy(30, 20);
    for r in [
        resizing("fill", Some(30), Some(20)),
        resizing("fit", Some(30), Some(20)),
        resizing("fit", Some(30), None),
        resizing("shrink", Some(30), Some(20)),
    ] {
        assert_eq!(resize::apply_resize(img.clone(), &r, (30, 20)), img);
    }
}

#[test]
fn fitted_images_reach_a_bound_and_keep_their_ratio() {
    for (w, h) in [(1u32, 1u32), (7, 3), (3, 100), (100, 3), (64, 48)] {
        for (mw, mh) in [(1u32, 1u32), (5, 200), (200, 5), (33, 33), (10, u32::MAX)] {
            if !resize::can_scale_within(w, h, mw, mh) || h as u64 * mw as u64 / w as u64 > 5000 {
                continue;
            }
            let r = resizing("fit", Some(mw), Some(mh));
            let out = resize::apply_resize(noisy(w, h), &r, (0, 0));
            let (ow, oh) = (out.width(), out.height());
            assert!(ow <= mw && oh <= mh);
            assert!(ow == mw || oh == mh);
            let (a, b) = (ow as u64 * h as u64, oh as u64 * w as u64);
            let high = ow == mw
                && ((oh == 1 && 2 * a <= 3 * w as u64) || 2 * a.abs_diff(b) <= w as u64);
            let wide = oh == mh
                && ((ow == 1 && 2 * b <= 3 * h as u64) || 2 * a.abs_diff(b) <= h as u64);
            assert!(high || wide, "{}x{} within {}x{}: {}x{}", w, h, mw, mh, ow, oh);
        }
    }
}

#[test]
fn what_cannot_be_allocated_is_not_scaled() {
    let huge = Resize::Exact { width: u32::MAX, height: u32::MAX };
    assert!(!huge.can_run(1, 1, (0, 0)));
    assert!(Resize::Exact { width: 100, height: 100 }.can_run(1, 1, (0, 0)));
    assert!(Resize::Keep.can_run(u32::MAX, u32::MAX, (0, 0)));
    let shrink = Resize::Shrink { numerator: 1, denominator: 2 };
    assert!(shrink.can_run(10, 10, (5, 5)));
    assert!(!shrink.can_run(10, 10, (u32::MAX, u32::MAX)));
    assert!(shrink.can_run(10, 10, (4, 5)));
    assert!(!shrink.can_run(10, 10, (6, 5)));
    assert!(!shrink.can_run(10, 10, (5, 3)));
    assert!(resize::can_scale_within(100, 80, 50, u32::MAX));
    assert!(!resize::can_scale_within(u32::MAX, u32::MAX, u32::MAX, u32::MAX));
    assert!(resize::can_scale_within(1, 2_500_000, u32::MAX, 15_000_000));
    assert!(!resize::can_scale_within(1, 1, u32::MAX, u32::MAX));
    let r = resizing("fill", Some(u32::MAX), Some(u32::MAX));
    assert!(render::render(noisy(2, 2), &r, 80, (0, 0)).is_none());
}

#[test]
fn sides_too_long_to_be_sampled_from_are_not_scaled() {
    let exact = |width, height| Resize::Exact { width, height };
    assert!(!exact(33_554_434, 1).can_run(33_554_435, 1, (0, 0)));
    assert!(exact(33_554_435, 1).can_run(33_554_435, 1, (0, 0)));
    assert!(exact(1_048_576, 1).can_run(33_554_435, 1, (0, 0)));
    assert!(!exact(1_048_577, 1).can_run(16_777_216, 1, (0, 0)));
    assert!(exact(16_777_214, 1).can_run(16_777_215, 1, (0, 0)));
    assert!(!exact(1, 2_000_000).can_run(1, 16_777_216, (0, 0)));
    assert!(!resize::can_scale_within(33_554_435, 1, 33_554_434, 1));
    assert!(resize::can_scale_within(33_554_435, 1, 33_554_435, 7));
    assert!(resize::can_scale_within(33_554_435, 1, 48, 48));
}

#[test]
fn long_sides_are_scaled() {
    let long = DynamicImage::new_luma8(2_100_000, 1);
    let r = resizing("fill", Some(2_099_999), Some(1));
    let out = resize::apply_resize(long, &r, (0, 0));
    assert_eq!((out.width(), out.height()), (2_099_999, 1));
}

/// An image that holds more bytes than its dimensions need.
fn roomy(width: u32, height: u32) -> DynamicImage {
    let mut bytes: Vec<u8> = vec![7; (width * height * 3) as usize];
    bytes.extend_from_slice(&[1, 2, 3]);
    DynamicImage::ImageRgb8(RgbImage::from_raw(width, height, bytes).unwrap())
}

#[test]
fn what_an_image_holds_beyond_its_pixels_is_cut_off() {
    let img = roomy(4, 3);
    assert!(!resize::is_tight(&img));
    assert!(resize::is_tight(&noisy(4, 3)));
    let picture = Picture::from_image(&img);
    assert_eq!(picture.pixels, vec![7; 36]);
    let exact = DynamicImage::ImageRgb8(RgbImage::from_pixel(4, 3, Rgb([7, 7, 7])));
    assert_eq!(
        encode::encode_webp(&picture, 80, true).unwrap(),
        encode::encode_webp(&Picture::from_image(&exact), 80, true).unwrap()
    );
    let r = resizing("fill", Some(4), Some(3));
    let out = resize::apply_resize(img, &r, (0, 0));
    assert_eq!(Picture::from_image(&out).pixels, vec![7; 36]);

    let mut bytes: Vec<u8> = vec![9; 16];
    bytes.push(1);
    let img = DynamicImage::ImageRgba8(RgbaImage::from_raw(2, 2, bytes).unwrap());
    assert_eq!(Picture::from_image(&img).pixels, vec![9; 16]);
    let deep = ImageBuffer::<Luma<u16>, Vec<u16>>::from_raw(2, 2, vec![0; 9]).unwrap();
    assert!(resize::is_tight(&DynamicImage::ImageLuma16(deep)));
}

#[test]
fn an_invalid_quality_is_refused_before_bad_dimensions() {
    let wide = Picture::from_image(&DynamicImage::new_rgb8(16384, 1));
    assert_eq!(encode::encode_lossy(&wide, 101), Err(4));
    assert_eq!(encode::encode_lossy(&wide, 100), Err(5));
    assert_eq!(encode::encode_lossy(&wide, 0), Err(5));
    assert_eq!(
        encode::encode_target_size(&wide, 10, false),
        Err("encode_fail:VP8_ENC_ERROR_BAD_DIMENSION".to_string())
    );
    let mut r = request();
    r.target_size_kb = Some(5);
    let small = Picture::from_image(&noisy(4, 4));
    assert!(render::encode_for(&small, &r, 1000).is_ok());
    r.target_size_kb = None;
    assert_eq!(
        render::encode_for(&small, &r, 1000),
        Err("encode_fail:VP8_ENC_ERROR_INVALID_CONFIGURATION".to_string())
    );
    assert_eq!(encode::encode_lossy(&Picture::from_image(&DynamicImage::new_rgb8(0, 5)), 80), Err(5));
}

#[test]
fn requests_are_rendered() {
    let img = noisy(60, 40);
    let picture = Picture::from_image(&img);
    let mut r = request();
    let out = render::render(img.clone(), &r, 70, (0, 0)).unwrap().unwrap();
    assert_eq!(out, (encode::encode_lossy(&picture, 70).unwrap(), true));

    r.lossless = true;
    let out = render::render(img.clone(), &r, 70, (0, 0)).unwrap().unwrap();
    assert_eq!(out, (encode::encode_webp(&picture, 70, true).unwrap(), true));

    r.target_size_kb = Some(1000);
    let out = render::render(img.clone(), &r, 70, (0, 0)).unwrap().unwrap();
    assert_eq!(out, (encode::encode_webp(&picture, 70, true).unwrap(), true));

    r.target_size_kb = Some(0);
    let out = render::render(img.clone(), &r, 70, (0, 0)).unwrap().unwrap();
    assert_eq!(out, (encode::encode_webp(&picture, 70, true).unwrap(), false));
    r.target_size_kb = Some(1000);

    r.lossless = false;
    let out = render::render(img.clone(), &r, 70, (0, 0)).unwrap().unwrap();
    assert_eq!(out, (encode::encode_lossy(&picture, 100).unwrap(), true));
    assert_eq!(render::encode_for(&picture, &r, 70).unwrap(), out);

    let r = resizing("fill", Some(12), Some(5));
    let out = render::render(img, &r, 70, (0, 0)).unwrap().unwrap();
    assert_eq!((decoded(&out.0).width(), decoded(&out.0).height()), (12, 5));
}

#[test]
fn what_the_encoder_refuses_is_a_message_and_what_it_cannot_take_is_none() {
    let wide = DynamicImage::new_rgb8(16384, 1);
    let mut r = request();
    assert_eq!(
        render::render(wide.clone(), &r, 80, (0, 0)),
        Some(Err("encode_fail:VP8_ENC_ERROR_BAD_DIMENSION".to_string()))
    );
    r.lossless = true;
    assert_eq!(render::render(wide, &r, 80, (0, 0)), None);
    assert_eq!(render::render(DynamicImage::new_rgb8(0, 0), &r, 80, (0, 0)), None);
}
