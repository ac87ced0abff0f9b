use image::DynamicImage;
use pic2webp::cli;
use pic2webp::cli::{CliCommand, CliOptions, CliTally};
use pic2webp::encode;
use pic2webp::encode::Picture;
use pic2webp::paths::NativePaths;

fn native(path: &str) -> String {
    path.replace('/', std::path::MAIN_SEPARATOR_STR)
}

fn parse(args: &[&str]) -> CliCommand {
    cli::parse_args(&args.iter().map(|a| a.to_string()).collect())
}

fn options(args: &[&str]) -> CliOptions {
    match parse(args) {
        CliCommand::Convert(options) => options,
        other => panic!("{:?}", other),
    }
}

#[test]
fn options_have_defaults() {
    let o = options(&["a.png"]);
    assert_eq!(o.files, vec!["a.png"]);
    assert_eq!((o.quality, o.lossless, o.recursive), (80, false, false));
    assert_eq!((o.resize_width, o.output_dir), (None, None));
}

#[test]
fn options_come_in_two_spellings() {
    let long = options(&[
        "--quality", "60", "a", "--lossless", "--resize", "1920", "--output-dir", "out", "b",
    ]);
    let short = options(&["-q", "60", "a", "-l", "-r", "1920", "-o", "out", "b"]);
    for o in [long, short] {
        assert_eq!(o.files, vec!["a", "b"]);
        assert_eq!((o.quality, o.lossless, o.recursive), (60, true, false));
        assert_eq!(o.resize_width, Some(1920));
        assert_eq!(o.output_dir, Some("out".to_string()));
    }
    assert!(options(&["a", "--recursive"]).recursive);
}

#[test]
fn values_that_are_no_numbers_are_dropped() {
    let o = options(&["-q", "high", "-r", "wide", "a"]);
    assert_eq!((o.quality, o.resize_width), (80, None));
    let o = options(&["-q", "-5", "-r", "-5", "a"]);
    assert_eq!((o.quality, o.resize_width), (-5, None));
    let o = options(&["-q", "50", "-q", "x", "-r", "5", "-r", "x", "a"]);
    assert_eq!((o.quality, o.resize_width), (80, None));
    assert_eq!(options(&["-q", "1000", "a"]).quality, 1000);
}

#[test]
fn values_are_taken_whatever_they_look_like() {
    let o = options(&["-o", "--help", "a", "-q", "b"]);
    assert_eq!(o.output_dir, Some("--help".to_string()));
    assert_eq!(o.files, vec!["a"]);
    assert_eq!(o.quality, 80);
}

#[test]
fn options_without_a_value_do_nothing() {
    for last in ["-q", "-r", "-o"] {
        let o = options(&["a", last]);
        assert_eq!((o.quality, o.resize_width, o.output_dir), (80, None, None));
    }
}

#[test]
fn dashed_arguments_name_no_file() {
    let o = options(&["-x", "--unknown", "a-b", "-", ""]);
    assert_eq!(o.files, vec!["a-b", ""]);
    assert!(matches!(parse(&["-x", "--unknown"]), CliCommand::NoInput));
}

#[test]
fn help_comes_first() {
    assert!(matches!(parse(&["a", "--help", "b"]), CliCommand::Help));
    assert!(matches!(parse(&["-h"]), CliCommand::Help));
    assert!(matches!(parse(&[]), CliCommand::NoInput));
    assert!(matches!(parse(&["--quality", "80"]), CliCommand::NoInput));
}

#[test]
fn command_line_results_have_a_suffix() {
    let paths = NativePaths::new();
    assert_eq!(cli::cli_output_name("pic"), "pic-webp.webp");
    let out = cli::cli_output_path(&paths, &options(&["x"]), &native("pics/a.b.png"));
    assert_eq!(out.path, native("pics/a.b-webp.webp"));
    assert!(out.dirs.is_empty());
    let out = cli::cli_output_path(&paths, &options(&["x", "-o", "out"]), &native("pics/a.png"));
    assert_eq!(out.path, native("out/a-webp.webp"));
    assert_eq!(out.dirs, vec!["out".to_string()]);
    let out = cli::cli_output_path(&paths, &options(&["x"]), &native("pics/.."));
    assert_eq!(out.path, native("pics/output-webp.webp"));
}

#[test]
fn command_line_results_are_scaled_and_encoded() {
    let img = DynamicImage::new_rgb8(40, 20);
    let picture = Picture::from_image(&img);
    let made = cli::cli_render(img.clone(), &options(&["x", "-q", "3"])).unwrap().unwrap();
    assert_eq!(made, encode::encode_lossy(&picture, 3).unwrap());
    let made = cli::cli_render(img.clone(), &options(&["x", "-l"])).unwrap().unwrap();
    assert_eq!(made, encode::encode_webp(&picture, 80, true).unwrap());
    assert_eq!(cli::cli_encode(&picture, &options(&["x", "-l"])).unwrap(), made);
    let made = cli::cli_render(img, &options(&["x", "-r", "10"])).unwrap().unwrap();
    let back = image::load_from_memory_with_format(&made, image::ImageFormat::WebP).unwrap();
    assert_eq!((back.width(), back.height()), (10, 5));
    let tall = DynamicImage::new_rgb8(10, 1000);
    let made = cli::cli_render(tall, &options(&["x", "-r", "5"])).unwrap().unwrap();
    let back = image::load_from_memory_with_format(&made, image::ImageFormat::WebP).unwrap();
    assert_eq!((back.width(), back.height()), (5, 500));
    let flat = DynamicImage::new_rgb8(100, 1);
    let made = cli::cli_render(flat, &options(&["x", "-r", "250", "-l"])).unwrap().unwrap();
    let back = image::load_from_memory_with_format(&made, image::ImageFormat::WebP).unwrap();
    assert_eq!((back.width(), back.height()), (250, 3));
}

#[test]
fn command_line_failures_have_reasons() {
    let img = DynamicImage::new_rgba8(4, 4);
    for quality in ["-1", "101"] {
        assert_eq!(
            cli::cli_render(img.clone(), &options(&["x", "-q", quality])),
            Some(Err("encode error: VP8_ENC_ERROR_INVALID_CONFIGURATION".to_string()))
        );
    }
    let wide = DynamicImage::new_rgb8(16384, 1);
    assert_eq!(
        cli::cli_render(wide.clone(), &options(&["x"])),
        Some(Err("encode error: VP8_ENC_ERROR_BAD_DIMENSION".to_string()))
    );
    assert_eq!(cli::cli_render(wide, &options(&["x", "-l"])), None);
    assert_eq!(cli::cli_render(img, &options(&["x", "-r", "4294967295"])), None);
    assert_eq!(cli::write_reason("disk full"), "write error: disk full");
}

#[test]
fn every_file_is_tallied_and_told() {
    assert_eq!(cli::processing_line(3), "Processing 3 files...");
    let mut tally = CliTally::new();
    assert_eq!(
        tally.converted("a.png", "a-webp.webp", 10_000, 3000),
        "  OK: a.png → a-webp.webp (9KB → 2KB, saved 6KB)"
    );
    assert_eq!(
        tally.converted("b.png", "b-webp.webp", 1000, 4000),
        "  OK: b.png → b-webp.webp (0KB → 3KB, saved -2KB)"
    );
    assert_eq!(tally.failed("c.png", "open_fail:gone"), "  FAIL: c.png — open_fail:gone");
    assert_eq!((tally.success, tally.fail, tally.total_saved), (2, 1, 4000));
    assert_eq!(tally.closing(), "\nDone: 2 success, 1 failed, total saved: 3KB");
    assert_eq!(
        CliTally::new().closing(),
        "\nDone: 0 success, 0 failed, total saved: 0KB"
    );
}

#[test]
fn the_command_line_tally_knows_when_it_is_full() {
    let mut tally = CliTally::new();
    assert!(tally.can_count(i64::MAX, 0));
    assert!(!tally.can_count(i64::MAX, -1));
    tally.total_saved = i64::MAX;
    assert!(!tally.can_count(1, 0));
    assert!(tally.can_count(0, 1));
    tally.total_saved = 0;
    tally.success = u32::MAX;
    assert!(!tally.can_count(0, 0));
}
