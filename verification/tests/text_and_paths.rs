use pic2webp::naming;
use pic2webp::paths;
use pic2webp::paths::NativePaths;
use pic2webp::request;
use pic2webp::request::ConvertRequest;
use pic2webp::text;
use std::path::Path;

fn request() -> ConvertRequest {
    ConvertRequest {
        files: Vec::new(),
        quality: 80,
        recursive: false,
        delete_source: false,
        output_dir: None,
        naming_mode: "overwrite".to_string(),
        lossless: false,
        strip_exif: false,
        preserve_structure: false,
        target_size_kb: None,
        resize_enabled: false,
        resize_width: None,
        resize_height: None,
        resize_mode: request::default_resize_mode(),
        base_dir: None,
    }
}

/// A path in the platform's own notation.
fn native(path: &str) -> String {
    path.replace('/', std::path::MAIN_SEPARATOR_STR)
}

#[test]
fn numbers_are_written_in_decimal() {
    let mut s = String::from("n=");
    text::push_digits(&mut s, u128::MAX);
    assert_eq!(s, format!("n={}", u128::MAX));
    for i in [0i64, 7, -1, 10, -100, 1024, i64::MAX, i64::MIN] {
        let mut s = String::new();
        text::push_decimal(&mut s, i);
        assert_eq!(s, i.to_string());
    }
}

#[test]
fn numbers_are_read_as_std_reads_them() {
    let texts = [
        "", "0", "80", "+80", "-80", "-0", "+", "-", "--1", "8 0", " 80", "0080", "4294967295",
        "4294967296", "2147483647", "2147483648", "-2147483648", "-2147483649",
        "99999999999999999999999999", "1e3", "12a", "٣",
    ];
    for t in texts {
        assert_eq!(text::parse_u32(t), t.parse::<u32>().ok(), "{}", t);
        assert_eq!(text::parse_i32(t), t.parse::<i32>().ok(), "{}", t);
    }
}

#[test]
fn division_cuts_off_towards_zero() {
    assert_eq!(text::divide(1023, 1024), 0);
    assert_eq!(text::divide(-1023, 1024), 0);
    assert_eq!(text::divide(-1025, 1024), -1);
    assert_eq!(text::divide(7, 2), 3);
    assert_eq!(text::divide(-7, 2), -3);
    assert_eq!(text::divide(i64::MIN, 1), i64::MIN);
    assert_eq!(text::divide(i64::MIN, 1024), i64::MIN / 1024);
}

#[test]
fn texts_are_compared_and_rewritten() {
    assert!(text::same_text("a", "a"));
    assert!(!text::same_text("a", "A"));
    assert!(text::begins_with("zh-CN", "zh"));
    assert!(!text::begins_with("z", "zh"));
    assert!(text::begins_with("zh", ""));
    assert_eq!(text::to_backslashes("a/b\\c/"), "a\\b\\c\\");
}

#[test]
fn extensions_and_stems_are_std_s() {
    for name in [
        "a.png", "a", ".hidden", "a.b.c", "archive.tar.gz", "a.", "..a", ".a.b", "图片.JPG",
    ] {
        let path = Path::new(name);
        assert_eq!(
            paths::extension_of(name),
            path.extension().map(|e| e.to_str().unwrap().to_string()),
            "{}",
            name
        );
        assert_eq!(paths::stem_of(name), path.file_stem().unwrap().to_str().unwrap(), "{}", name);
    }
}

#[test]
fn paths_are_taken_apart() {
    let paths = NativePaths::new();
    assert_eq!(paths.extension(&native("dir/Photo.JPG")), "jpg");
    assert_eq!(paths.extension(&native("dir.d/photo")), "");
    assert_eq!(paths.extension(&native("dir/x.ÄPF")), "äpf");
    assert_eq!(paths.stem(&native("dir/Photo.JPG")), "Photo");
    assert_eq!(paths.stem(&native("dir/..")), "output");
    assert_eq!(paths.stem(""), "output");
    assert_eq!(paths.directory(&native("dir/sub/Photo.JPG")), native("dir/sub"));
    assert_eq!(paths.directory("Photo.JPG"), "");
    assert_eq!(paths.directory(""), "");
}

#[test]
fn names_follow_the_naming_mode() {
    let name = |mode: &str| naming::build_output_name("pic", "webp", mode, 75, 1700000000123);
    assert_eq!(name("overwrite"), "pic.webp");
    assert_eq!(name("webp-suffix"), "pic-webp.webp");
    assert_eq!(name("q-suffix"), "pic-q75.webp");
    assert_eq!(name("ts-suffix"), "pic-1700000000123.webp");
    assert_eq!(name("anything else"), "pic.webp");
    assert_eq!(name(""), "pic.webp");
    assert_eq!(naming::build_output_name("p", "x", "q-suffix", -5, 0), "p-q-5.x");
    assert_eq!(naming::build_output_name("p", "x", "ts-suffix", 1, 0), "p-0.x");
}

#[test]
fn suffixes_set_results_apart_from_each_other() {
    let name = |mode: &str, stem: &str| naming::build_output_name(stem, "webp", mode, 80, 80);
    for mode in ["webp-suffix", "q-suffix", "ts-suffix"] {
        assert_ne!(name(mode, "a"), name("overwrite", "a"));
        assert_ne!(name(mode, "a"), name(mode, "b"));
    }
}

#[test]
fn results_go_beside_their_source() {
    let paths = NativePaths::new();
    let out = naming::build_output_path(
        &paths,
        "a.webp",
        &request(),
        &native("pics"),
        &native("pics/a.png"),
    );
    assert_eq!(out.path, native("pics/a.webp"));
    assert!(out.dirs.is_empty());
    let out = naming::build_output_path(&paths, "a.webp", &request(), "", "a.png");
    assert_eq!(out.path, "a.webp");
}

#[test]
fn results_go_to_the_output_directory() {
    let paths = NativePaths::new();
    let mut r = request();
    r.output_dir = Some("out".to_string());
    r.base_dir = Some("pics".to_string());
    let parent = native("pics/2024/may");
    let source = native("pics/2024/may/a.png");
    let out = naming::build_output_path(&paths, "a.webp", &r, &parent, &source);
    assert_eq!(out.path, native("out/a.webp"));
    assert_eq!(out.dirs, vec!["out".to_string()]);

    r.preserve_structure = true;
    let out = naming::build_output_path(&paths, "a.webp", &r, &parent, &source);
    assert_eq!(out.path, native("out/2024/may/a.webp"));
    assert_eq!(out.dirs, vec!["out".to_string(), native("out/2024/may")]);

    r.base_dir = Some("elsewhere".to_string());
    let out = naming::build_output_path(&paths, "a.webp", &r, &parent, &source);
    assert_eq!(out.path, native("out/a.webp"));
    assert_eq!(out.dirs, vec!["out".to_string()]);

    r.base_dir = None;
    let out = naming::build_output_path(&paths, "a.webp", &r, &parent, &source);
    assert_eq!(out.path, native("out/pics/2024/may/a.webp"));
}

#[test]
fn results_are_arranged_in_directories() {
    let some = |t: &str| Some(t.to_string());
    assert_eq!(naming::result_directory(&some("o"), &some("o/k"), "p"), "o/k");
    assert_eq!(naming::result_directory(&some("o"), &None, "p"), "o");
    assert_eq!(naming::result_directory(&None, &None, "p"), "p");
    let out = naming::arranged_output(&some("o"), some("o/k"), "o/k/a".to_string());
    assert_eq!((out.dirs, out.path), (vec!["o".to_string(), "o/k".to_string()], "o/k/a".to_string()));
    let out = naming::arranged_output(&None, None, "a".to_string());
    assert!(out.dirs.is_empty());
    let out = naming::arranged_output(&some("o"), None, "o/a".to_string());
    assert_eq!(out.dirs, vec!["o".to_string()]);
}

#[test]
fn sameness_of_files_goes_by_what_was_resolved() {
    assert!(naming::is_same_file(Some(true), "a", "b", false));
    assert!(!naming::is_same_file(Some(false), "a", "a", false));
    assert!(naming::is_same_file(None, "d/a", "d\\a", false));
    assert!(!naming::is_same_file(None, "d/A", "d\\a", false));
    assert!(naming::is_same_file(None, "d/A", "d\\a", true));
    assert!(naming::is_same_file(None, "Ä.webp", "ä.WEBP", true));
    assert!(!naming::is_same_file(None, "a", "b", true));
}

#[test]
fn the_default_resize_mode_is_fit() {
    assert_eq!(request::default_resize_mode(), "fit");
}
