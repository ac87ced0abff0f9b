use image::DynamicImage;
use pic2webp::encode;
use pic2webp::encode::Picture;
use pic2webp::job::{Action, FileJob, Reply, Stage};
use pic2webp::paths::NativePaths;
use pic2webp::request;
use pic2webp::request::{ConvertRequest, ConvertResult};

fn request() -> ConvertRequest {
    ConvertRequest {
        files: Vec::new(),
        quality: 80,
        recursive: false,
        delete_source: false,
        output_dir: None,
        naming_mode: "webp-suffix".to_string(),
        lossless: false,
        strip_exif: false,
        preserve_structure: false,
        target_size_kb: None,
        resize_enabled: false,
        resize_width: None,
        resize_height: None,
        resize_mode: request::default_resize_mode(),
        base_dir: None,
    }
}

fn reports(reply: &Reply) -> Vec<(String, String, i64, i32, Option<String>)> {
    reply
        .progress
        .iter()
        .map(|p| {
            (p.status.clone(), p.message.clone(), p.saved_bytes, p.saved_pct, p.output_path.clone())
        })
        .collect()
}

fn plain(status: &str, message: &str) -> (String, String, i64, i32, Option<String>) {
    (status.to_string(), message.to_string(), 0, 0, None)
}

fn begin(source: &str, r: &ConvertRequest, tool: Option<&str>) -> (FileJob, Reply) {
    let tool = tool.map(|t| t.to_string());
    FileJob::start(&NativePaths::new(), source, r, &tool, 80, 5)
}

/// A job that waits for its decoded source of 5000 bytes.
fn decoding(r: &ConvertRequest, stats: &mut ConvertResult) -> FileJob {
    let (mut job, _) = begin("a.png", r, None);
    job.compared(stats, 5000, false);
    job.measured(stats, Some((10, 10)));
    assert_eq!(job.stage, Stage::Decoding);
    job
}

/// A job whose result of so many bytes is to be written.
fn writing(r: &ConvertRequest, stats: &mut ConvertResult, size: usize, met: bool) -> FileJob {
    let mut job = decoding(r, stats);
    let reply = job.rendered(stats, r, Ok((vec![1; size], met)));
    assert!(matches!(reply.action, Action::Write(bytes) if bytes.len() == size));
    assert_eq!(job.stage, Stage::Writing);
    job
}

fn counts(stats: &ConvertResult) -> (u32, u32, u32, i64, i64) {
    (
        stats.success_count,
        stats.skip_count,
        stats.fail_count,
        stats.total_original,
        stats.total_converted,
    )
}

#[test]
fn still_images_are_compared_first() {
    let (job, reply) = begin("a.png", &request(), Some("ffmpeg"));
    assert_eq!(job.stage, Stage::Comparing);
    assert_eq!(job.output.path, "a-webp.webp");
    assert!(reply.progress.is_empty());
    assert!(!reply.send_stats);
    assert!(matches!(reply.action, Action::CompareFiles));
}

#[test]
fn animations_go_to_the_tool() {
    let mut r = request();
    r.lossless = true;
    let (job, reply) = begin("a.GIF", &r, Some("/bin/ffmpeg"));
    assert_eq!(job.stage, Stage::Animating);
    assert_eq!(reports(&reply), vec![plain("converting", "converting")]);
    match reply.action {
        Action::RunTool { program, args } => {
            assert_eq!(program, "/bin/ffmpeg");
            assert_eq!(
                args,
                vec![
                    "-y", "-i", "a.GIF", "-c:v", "libwebp", "-lossless", "1", "-q:v", "80", "-loop",
                    "0", "a-webp.webp"
                ]
            );
        }
        _ => panic!("no tool"),
    }
    let (job, reply) = begin("a.gif", &r, None);
    assert_eq!(job.stage, Stage::Comparing);
    assert_eq!(reports(&reply), vec![plain("converting", "converting_no_anim")]);
    assert!(matches!(reply.action, Action::CompareFiles));
}

#[test]
fn an_animation_that_was_made_counts_as_a_success() {
    let mut r = request();
    r.delete_source = true;
    let mut stats = ConvertResult::new();
    let (mut job, _) = begin("a.gif", &r, Some("ffmpeg"));
    let reply = job.animated(&mut stats, &r, 10_000, false, 0, Some(2500), false);
    assert_eq!(
        reports(&reply),
        vec![("done".to_string(), "saved:2kb".to_string(), 7500, 75, Some("a-webp.webp".to_string()))]
    );
    assert!(matches!(reply.action, Action::Delete));
    assert_eq!(counts(&stats), (1, 0, 0, 10_000, 2500));
    let reply = job.deleted(Err("denied".to_string()));
    assert_eq!(
        reports(&reply),
        vec![(
            "done".to_string(),
            "delete_fail:denied".to_string(),
            7500,
            75,
            Some("a-webp.webp".to_string())
        )]
    );
    assert!(reply.send_stats);
    assert_eq!(job.stage, Stage::Finished);
}

#[test]
fn an_animation_that_grew_reports_no_savings() {
    let r = request();
    let mut stats = ConvertResult::new();
    let (mut job, _) = begin("a.gif", &r, Some("ffmpeg"));
    let reply = job.animated(&mut stats, &r, 1000, false, 0, Some(3500), true);
    assert_eq!(
        reports(&reply),
        vec![("done".to_string(), "saved:3kb".to_string(), 0, 0, Some("a-webp.webp".to_string()))]
    );
    assert_eq!(counts(&stats), (1, 0, 0, 1000, 3500));
    assert!(matches!(reply.action, Action::Stop));
    assert!(reply.send_stats);
}

#[test]
fn an_animation_without_a_result_fails() {
    let r = request();
    for (code, made) in [(1, Some(5)), (0, None), (-1, None)] {
        let mut stats = ConvertResult::new();
        let (mut job, _) = begin("a.gif", &r, Some("ffmpeg"));
        let reply = job.animated(&mut stats, &r, 1000, false, code, made, false);
        assert_eq!(reports(&reply), vec![plain("failed", "gif_convert_fail")]);
        assert_eq!(counts(&stats), (0, 0, 1, 0, 0));
        assert!(reply.send_stats);
    }
}

#[test]
fn a_cancelled_animation_counts_as_nothing() {
    let r = request();
    let mut stats = ConvertResult::new();
    let (mut job, _) = begin("a.gif", &r, Some("ffmpeg"));
    let reply = job.animated(&mut stats, &r, 1000, true, 0, Some(10), false);
    assert!(reply.progress.is_empty());
    assert!(!reply.send_stats);
    assert!(matches!(reply.action, Action::Stop));
    assert_eq!(counts(&stats), (0, 0, 0, 0, 0));
    assert_eq!(job.stage, Stage::Abandoned);
}

#[test]
fn a_source_at_the_output_path_is_left_alone() {
    let mut stats = ConvertResult::new();
    let (mut job, _) = begin("a.webp", &request(), None);
    let reply = job.compared(&mut stats, 700, true);
    assert_eq!(reports(&reply), vec![plain("skipped", "skipped")]);
    assert!(reply.send_stats);
    assert!(matches!(reply.action, Action::Stop));
    assert_eq!(counts(&stats), (0, 1, 0, 700, 700));
    assert_eq!(job.stage, Stage::Finished);
}

#[test]
fn sources_of_too_many_bytes_are_passed_over() {
    let mut stats = ConvertResult::new();
    let (mut job, _) = begin("a.png", &request(), None);
    let reply = job.compared(&mut stats, 123_456_789, false);
    assert_eq!(
        reports(&reply),
        vec![plain("converting", "converting"), plain("skipped", "too_large:123MB")]
    );
    assert!(reply.send_stats);
    assert_eq!(counts(&stats), (0, 1, 0, 0, 0));

    let (mut job, _) = begin("a.png", &request(), None);
    let reply = job.compared(&mut stats, 100_000_000, false);
    assert_eq!(reports(&reply), vec![plain("converting", "converting")]);
    assert!(!reply.send_stats);
    assert!(matches!(reply.action, Action::ReadDimensions));
}

#[test]
fn sources_of_too_many_pixels_are_passed_over() {
    let r = request();
    let mut stats = ConvertResult::new();
    let (mut job, _) = begin("a.png", &r, None);
    job.compared(&mut stats, 5000, false);
    let reply = job.measured(&mut stats, Some((5001, 5000)));
    assert_eq!(reports(&reply), vec![plain("skipped", "too_large:5001x5000")]);
    assert!(reply.send_stats);
    assert_eq!(counts(&stats), (0, 1, 0, 0, 0));

    for dimensions in [Some((5000, 5000)), None] {
        let (mut job, _) = begin("a.png", &r, None);
        job.compared(&mut stats, 5000, false);
        let reply = job.measured(&mut stats, dimensions);
        assert!(matches!(reply.action, Action::Decode));
        assert!(reply.progress.is_empty());
    }
    let (mut job, _) = begin("a.png", &r, None);
    job.compared(&mut stats, 5000, false);
    let reply = job.measured(&mut stats, Some((u32::MAX, u32::MAX)));
    assert_eq!(reports(&reply)[0].1, "too_large:4294967295x4294967295");
}

#[test]
fn sources_that_cannot_be_decoded_fail() {
    let mut stats = ConvertResult::new();
    let mut job = decoding(&request(), &mut stats);
    let reply = job.decode_failed(&mut stats, "decode_fail:broken");
    assert_eq!(reports(&reply), vec![plain("failed", "decode_fail:broken")]);
    assert!(reply.send_stats);
    assert_eq!(counts(&stats), (0, 0, 1, 0, 0));
}

#[test]
fn sources_that_cannot_be_encoded_fail() {
    let r = request();
    let mut stats = ConvertResult::new();
    let mut job = decoding(&r, &mut stats);
    let reply = job.rendered(&mut stats, &r, Err("encode_fail:X".to_string()));
    assert_eq!(reports(&reply), vec![plain("failed", "encode_fail:X")]);
    assert_eq!(counts(&stats), (0, 0, 1, 0, 0));
}

#[test]
fn results_that_are_no_smaller_are_dropped() {
    let mut r = request();
    let mut stats = ConvertResult::new();
    let mut job = decoding(&r, &mut stats);
    let reply = job.rendered(&mut stats, &r, Ok((vec![0; 5000], true)));
    assert_eq!(reports(&reply), vec![plain("skipped", "skipped")]);
    assert_eq!(counts(&stats), (0, 1, 0, 5000, 5000));
    assert!(reply.send_stats);

    r.target_size_kb = Some(1);
    let mut job = decoding(&r, &mut stats);
    let reply = job.rendered(&mut stats, &r, Ok((vec![0; 6000], false)));
    assert!(matches!(reply.action, Action::Write(_)));

    let r = request();
    let (mut job, _) = begin("a.png", &r, None);
    job.compared(&mut stats, 0, false);
    job.measured(&mut stats, None);
    let reply = job.rendered(&mut stats, &r, Ok((vec![0; 1], true)));
    assert!(matches!(reply.action, Action::Write(_)));
}

#[test]
fn results_that_were_written_count_as_successes() {
    let r = request();
    let mut stats = ConvertResult::new();
    let mut job = writing(&r, &mut stats, 2048, true);
    let reply = job.written(&mut stats, &r, Ok(()), false);
    assert_eq!(
        reports(&reply),
        vec![("done".to_string(), "saved:2kb".to_string(), 2952, 59, Some("a-webp.webp".to_string()))]
    );
    assert!(reply.send_stats);
    assert!(matches!(reply.action, Action::Stop));
    assert_eq!(counts(&stats), (1, 0, 0, 5000, 2048));
}

#[test]
fn results_beyond_the_target_say_so() {
    let mut r = request();
    r.target_size_kb = Some(1);
    let mut stats = ConvertResult::new();
    let mut job = writing(&r, &mut stats, 7000, false);
    let reply = job.written(&mut stats, &r, Ok(()), false);
    assert_eq!(
        reports(&reply),
        vec![(
            "done".to_string(),
            "target_unreachable:6kb".to_string(),
            0,
            0,
            Some("a-webp.webp".to_string())
        )]
    );
    assert_eq!(counts(&stats), (1, 0, 0, 5000, 7000));
}

#[test]
fn results_that_cannot_be_written_fail() {
    let mut r = request();
    r.delete_source = true;
    let mut stats = ConvertResult::new();
    let mut job = writing(&r, &mut stats, 10, true);
    let reply = job.written(&mut stats, &r, Err("disk full".to_string()), false);
    assert_eq!(reports(&reply), vec![plain("failed", "write_fail:disk full")]);
    assert!(matches!(reply.action, Action::Stop));
    assert_eq!(counts(&stats), (0, 0, 1, 0, 0));
}

#[test]
fn sources_are_deleted_where_asked_for() {
    let mut r = request();
    r.delete_source = true;
    let mut stats = ConvertResult::new();
    let mut job = writing(&r, &mut stats, 10, true);
    let reply = job.written(&mut stats, &r, Ok(()), false);
    assert!(matches!(reply.action, Action::Delete));
    assert!(!reply.send_stats);
    assert_eq!(job.stage, Stage::Deleting);
    let reply = job.deleted(Ok(()));
    assert!(reply.progress.is_empty());
    assert!(reply.send_stats);
    assert!(matches!(reply.action, Action::Stop));
    assert_eq!(counts(&stats), (1, 0, 0, 5000, 10));

    let mut job = writing(&r, &mut stats, 10, true);
    job.written(&mut stats, &r, Ok(()), false);
    let reply = job.deleted(Err("locked".to_string()));
    assert_eq!(
        reports(&reply),
        vec![(
            "done".to_string(),
            "delete_fail:locked".to_string(),
            4990,
            99,
            Some("a-webp.webp".to_string())
        )]
    );

    let mut job = writing(&r, &mut stats, 10, true);
    let reply = job.written(&mut stats, &r, Ok(()), true);
    assert!(matches!(reply.action, Action::Stop));

    r.delete_source = false;
    let mut job = writing(&r, &mut stats, 10, true);
    let reply = job.written(&mut stats, &r, Ok(()), false);
    assert!(matches!(reply.action, Action::Stop));
}

#[test]
fn decoded_sources_are_scaled_and_encoded() {
    let mut r = request();
    r.lossless = true;
    r.resize_enabled = true;
    r.resize_mode = "shrink".to_string();
    r.resize_width = Some(4);
    let mut stats = ConvertResult::new();
    let mut job = decoding(&r, &mut stats);
    let reply = job.decoded(&mut stats, &r, 80, DynamicImage::new_rgb8(8, 6), (4, 3));
    let expected = Picture::from_image(&DynamicImage::new_rgb8(4, 3));
    match reply.action {
        Action::Write(bytes) => {
            assert_eq!(bytes, encode::encode_webp(&expected, 80, true).unwrap());
        }
        _ => panic!("nothing to write"),
    }
    assert!(job.target_met);
}

#[test]
fn decoded_sources_beyond_all_bounds_are_given_up() {
    let mut r = request();
    r.lossless = true;
    let mut stats = ConvertResult::new();
    let mut job = decoding(&r, &mut stats);
    let reply = job.decoded(&mut stats, &r, 80, DynamicImage::new_rgb8(16384, 1), (0, 0));
    assert!(matches!(reply.action, Action::Panic));
    assert!(reply.progress.is_empty());
    assert_eq!(job.stage, Stage::Abandoned);
    assert_eq!(counts(&stats), (0, 0, 0, 0, 0));

    r.lossless = false;
    let mut job = decoding(&r, &mut stats);
    let reply = job.decoded(&mut stats, &r, 80, DynamicImage::new_rgb8(16384, 1), (0, 0));
    assert_eq!(
        reports(&reply),
        vec![plain("failed", "encode_fail:VP8_ENC_ERROR_BAD_DIMENSION")]
    );
}

#[test]
fn percentages_are_shares_of_the_original() {
    assert_eq!(request::percent_of(250, 1000), 25);
    assert_eq!(request::percent_of(999, 1000), 99);
    assert_eq!(request::percent_of(-1, 1000), 0);
    assert_eq!(request::percent_of(-15, 1000), -1);
    assert_eq!(request::percent_of(5, 0), 0);
    assert_eq!(request::percent_of(0, 10), 0);
}

#[test]
fn tallies_add_up() {
    let mut stats = ConvertResult::new();
    stats.count_success(1000, 400);
    stats.count_kept(300);
    stats.count_skip();
    stats.count_failure();
    assert_eq!(counts(&stats), (1, 2, 1, 1300, 700));
    stats.settle();
    assert_eq!((stats.saved, stats.saved_pct), (600, 46));
    assert_eq!(counts(&stats), (1, 2, 1, 1300, 700));
}

#[test]
fn savings_are_never_negative() {
    let mut stats = ConvertResult::new();
    stats.count_success(100, 900);
    stats.settle();
    assert_eq!((stats.saved, stats.saved_pct), (0, 0));
    let mut stats = ConvertResult::new();
    stats.settle();
    assert_eq!((stats.saved, stats.saved_pct), (0, 0));
}

#[test]
fn the_counts_of_a_batch_add_up_to_its_files() {
    let r = request();
    let mut stats = ConvertResult::new();
    let mut job = writing(&r, &mut stats, 10, true);
    job.written(&mut stats, &r, Ok(()), false);
    let (mut job, _) = begin("b.webp", &r, None);
    job.compared(&mut stats, 700, true);
    let mut job = decoding(&r, &mut stats);
    job.decode_failed(&mut stats, "decode_fail:x");
    let (mut job, _) = begin("c.gif", &r, Some("ffmpeg"));
    job.animated(&mut stats, &r, 900, false, 0, Some(300), false);
    assert_eq!(stats.success_count + stats.skip_count + stats.fail_count, 4);
    assert_eq!(counts(&stats), (2, 1, 1, 6600, 1010));
    assert_eq!((stats.saved, stats.saved_pct), (0, 0));
}

#[test]
fn lossless_results_within_the_target_say_so() {
    let mut r = request();
    r.lossless = true;
    for (kb, message) in [(1, "saved:0kb"), (0, "target_unreachable:0kb")] {
        r.target_size_kb = Some(kb);
        let mut stats = ConvertResult::new();
        let mut job = decoding(&r, &mut stats);
        let reply = job.decoded(&mut stats, &r, 80, DynamicImage::new_rgb8(8, 6), (0, 0));
        assert!(matches!(reply.action, Action::Write(_)));
        let reply = job.written(&mut stats, &r, Ok(()), false);
        assert_eq!(reports(&reply)[0].1, message);
    }
}

#[test]
fn shrunken_dimensions_that_the_fraction_does_not_give_are_refused() {
    let mut r = request();
    r.resize_enabled = true;
    r.resize_mode = "shrink".to_string();
    r.resize_width = Some(4);
    for scaled in [(8, 6), (5, 3), (4, 4), (1, 3)] {
        let mut stats = ConvertResult::new();
        let mut job = decoding(&r, &mut stats);
        let reply = job.decoded(&mut stats, &r, 80, DynamicImage::new_rgb8(8, 6), scaled);
        assert!(matches!(reply.action, Action::Panic), "{:?}", scaled);
    }
}

#[test]
fn tallies_know_when_they_are_full() {
    let mut stats = ConvertResult::new();
    assert!(stats.can_count(100, 50));
    assert!(!stats.can_count(i64::MAX, 0));
    assert!(!stats.can_count(0, i64::MAX));
    assert!(stats.can_count(i64::MAX / 100, 0));
    assert!(!stats.can_count(i64::MAX / 100 + 1, 0));
    assert!(stats.can_count(i64::MAX, i64::MAX));
    stats.total_original = i64::MAX;
    assert!(!stats.can_count(1, 1));
    stats.total_original = i64::MIN;
    assert!(!stats.can_count(-1, -1));
    stats.total_original = 0;
    stats.fail_count = u32::MAX;
    assert!(!stats.can_count(1, 1));
}

#[test]
fn files_that_cannot_be_read_have_messages() {
    assert_eq!(request::open_failure("gone"), "open_fail:gone");
    assert_eq!(request::format_failure("odd"), "format_fail:odd");
    assert_eq!(request::decode_failure("cut off"), "decode_fail:cut off");
}

#[test]
fn reports_hold_what_they_were_given() {
    let p = request::progress_with_output("f", "done", "m", 5, 6, Some("o".to_string()));
    assert_eq!(
        (p.file.as_str(), p.status.as_str(), p.message.as_str(), p.saved_bytes, p.saved_pct),
        ("f", "done", "m", 5, 6)
    );
    assert_eq!(p.output_path, Some("o".to_string()));
    let p = request::progress("f", "s", "m");
    assert_eq!((p.saved_bytes, p.saved_pct, p.output_path), (0, 0, None));
}
