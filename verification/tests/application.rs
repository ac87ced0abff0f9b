use image::{DynamicImage, RgbImage};
use pic2webp::atomic;
use pic2webp::atomic::{AtomicWrite, TempSerials, WriteStep};
use pic2webp::collect::{Found, Input};
use pic2webp::command;
use pic2webp::command::{Child, Ending, Notice, Signal, Watch};
use pic2webp::menu;
use pic2webp::menu::{MenuEntry, Standard};
use pic2webp::paths::NativePaths;
use pic2webp::request;
use pic2webp::request::ConvertRequest;
use pic2webp::state;
use pic2webp::state::AppState;
use pic2webp::thumbnail;
use pic2webp::tools;
use std::collections::HashMap;

fn native(path: &str) -> String {
    path.replace('/', std::path::MAIN_SEPARATOR_STR)
}

fn request(quality: i32) -> ConvertRequest {
    ConvertRequest {
        files: Vec::new(),
        quality,
        recursive: true,
        delete_source: false,
        output_dir: None,
        naming_mode: "overwrite".to_string(),
        lossless: false,
        strip_exif: false,
        preserve_structure: false,
        target_size_kb: None,
        resize_enabled: false,
        resize_width: None,
        resize_height: None,
        resize_mode: request::default_resize_mode(),
        base_dir: None,
    }
}

fn files(names: &[&str]) -> Vec<Input> {
    names.iter().map(|n| Input { path: n.to_string(), found: Found::File }).collect()
}

fn texts(list: &[&str]) -> Vec<String> {
    list.iter().map(|t| t.to_string()).collect()
}

fn state_with(tool: Option<&str>) -> AppState {
    let tools =
        tools::resolve_tools(&Vec::new(), &Vec::new(), tool.map(|t| t.to_string()));
    AppState::new(tools)
}

#[test]
fn programs_end_in_exe_on_windows() {
    assert_eq!(tools::tool_exe_name("ffmpeg", true), "ffmpeg.exe");
    assert_eq!(tools::tool_exe_name("ffmpeg", false), "ffmpeg");
}

#[test]
fn programs_are_looked_for_in_order() {
    let paths = NativePaths::new();
    let resources = Some(native("res"));
    let program = Some(native("app/bin/pic2webp"));
    assert_eq!(
        tools::tool_search_dirs(&paths, &resources, &program, false),
        vec![native("res"), native("res/tools"), native("app/bin/tools")]
    );
    assert_eq!(
        tools::tool_candidates(&paths, "ffmpeg", &resources, &program, true, false),
        vec![
            native("res/ffmpeg.exe"),
            native("res/tools/ffmpeg.exe"),
            native("app/bin/tools/ffmpeg.exe")
        ]
    );
    assert_eq!(
        tools::tool_search_dirs(&paths, &None, &None, true),
        texts(&["/opt/homebrew/bin", "/usr/local/bin"])
    );
    assert!(tools::tool_candidates(&paths, "x", &None, &None, false, false).is_empty());
    assert!(tools::tool_search_dirs(&paths, &None, &Some(String::new()), false).is_empty());
}

#[test]
fn directories_for_programs_are_listed_in_order() {
    let some = |t: &str| Some(t.to_string());
    assert_eq!(
        tools::listed_dirs(&some("r"), some("r/t"), some("b/t"), true),
        texts(&["r", "r/t", "b/t", "/opt/homebrew/bin", "/usr/local/bin"])
    );
    assert_eq!(tools::listed_dirs(&None, None, some("b/t"), false), texts(&["b/t"]));
    assert!(tools::listed_dirs(&None, None, None, false).is_empty());
}

#[test]
fn the_first_program_that_exists_is_taken() {
    let list = texts(&["a", "b", "c"]);
    let on_path = Some("p".to_string());
    let locate = |exists: Vec<bool>| tools::locate_tool(&list, &exists, on_path.clone());
    assert_eq!(locate(vec![false, true, true]), Some("b".to_string()));
    assert_eq!(locate(vec![true, true, true]), Some("a".to_string()));
    assert_eq!(locate(vec![false, false, false]), Some("p".to_string()));
    assert_eq!(tools::locate_tool(&list, &vec![false; 3], None), None);
}

#[test]
fn resolved_programs_are_found_in_the_state() {
    let state = state_with(Some("/usr/bin/ffmpeg"));
    assert_eq!(state.tool("ffmpeg"), Some("/usr/bin/ffmpeg".to_string()));
    assert_eq!(state.tool("cwebp"), None);
    assert_eq!(state_with(None).tool("ffmpeg"), None);
    let tools = tools::resolve_tools(&texts(&["x"]), &vec![true], Some("y".to_string()));
    assert_eq!(tools.len(), 1);
    assert_eq!(tools[0].name, "ffmpeg");
    assert_eq!(tools[0].path, Some("x".to_string()));
}

#[test]
fn one_batch_runs_at_a_time() {
    let paths = NativePaths::new();
    let mut state = state_with(None);
    assert_eq!(state.begin_convert(), Ok(()));
    assert_eq!(state.begin_convert(), Err("ERR_ALREADY_CONVERTING".to_string()));
    assert!(state.start_convert(&paths, &request(80), &files(&["a.png"])).is_ok());
    assert!(state.is_converting);
    assert_eq!(state.begin_convert(), Err("ERR_ALREADY_CONVERTING".to_string()));
    state.finish_convert();
    assert_eq!(state.begin_convert(), Ok(()));
}

#[test]
fn a_batch_without_files_is_refused() {
    let paths = NativePaths::new();
    let mut state = state_with(None);
    state.begin_convert().unwrap();
    state.cancel_flag = true;
    let refused = state.start_convert(&paths, &request(80), &files(&["a.txt"]));
    assert_eq!(refused.err(), Some("ERR_NO_FILES".to_string()));
    assert!(!state.is_converting);
    assert!(state.cancel_flag);
}

#[test]
fn a_batch_goes_through_its_files() {
    let paths = NativePaths::new();
    let mut state = state_with(Some("ff"));
    state.begin_convert().unwrap();
    state.cancel_convert();
    let inputs = files(&["b.png", "a.png", "b.png"]);
    let mut batch = state.start_convert(&paths, &request(7), &inputs).unwrap();
    assert!(!state.cancel_flag);
    assert_eq!(batch.total(), 2);
    assert_eq!(batch.quality, 10);
    assert_eq!(batch.tool, Some("ff".to_string()));
    assert_eq!(batch.next_file(false), Some("b.png".to_string()));
    assert_eq!(batch.next_file(true), None);
    assert_eq!(batch.next_file(false), Some("a.png".to_string()));
    assert_eq!(batch.next_file(false), None);
    batch.stats.count_success(1000, 300);
    assert!(batch.can_settle());
    batch.settle();
    assert_eq!((batch.stats.saved, batch.stats.saved_pct), (700, 70));
    let report = batch.crashed();
    assert_eq!(batch.stats.fail_count, 1);
    assert_eq!(
        (report.file.as_str(), report.status.as_str(), report.message.as_str()),
        ("", "failed", "ERR_INTERNAL_PANIC")
    );
    batch.stats.total_original = i64::MAX;
    assert!(!batch.can_settle());
}

#[test]
fn a_batch_that_crashed_does_not_keep_the_next_one_away() {
    let paths = NativePaths::new();
    let mut state = state_with(None);
    state.begin_convert().unwrap();
    let mut batch = state.start_convert(&paths, &request(80), &files(&["a.png"])).unwrap();
    batch.stats.count_failure();
    let report = batch.crashed();
    assert_eq!(report.message, "ERR_INTERNAL_PANIC");
    assert_eq!(batch.stats.fail_count, 2);
    assert_eq!(batch.total(), 1);
    state.finish_convert();
    assert_eq!(state.begin_convert(), Ok(()));
}

#[test]
fn qualities_are_moved_into_range() {
    assert_eq!(state::clamp_quality(9), 10);
    assert_eq!(state::clamp_quality(10), 10);
    assert_eq!(state::clamp_quality(77), 77);
    assert_eq!(state::clamp_quality(100), 100);
    assert_eq!(state::clamp_quality(101), 100);
    assert_eq!(state::clamp_quality(i32::MIN), 10);
}

#[test]
fn the_window_waits_for_a_batch_unless_insisted_on() {
    let mut state = state_with(None);
    assert!(!state.prevents_close());
    state.begin_convert().unwrap();
    assert!(state.prevents_close());
    state.cancel_convert();
    assert!(state.prevents_close());
    state.force_close();
    assert!(state.cancel_flag && state.should_close);
    assert!(!state.prevents_close());
    state.finish_convert();
    state.begin_convert().unwrap();
    assert!(!state.prevents_close());
}

#[test]
fn animations_are_made_with_these_arguments() {
    assert_eq!(
        command::animation_args("in.gif", "out.webp", false, 55),
        texts(&[
            "-y", "-i", "in.gif", "-c:v", "libwebp", "-lossless", "0", "-q:v", "55", "-loop", "0",
            "out.webp"
        ])
    );
}

#[test]
fn programs_are_watched() {
    assert_eq!(command::watch_signals(&Signal::Kill, false), Watch::KillAndLeave);
    assert_eq!(command::watch_signals(&Signal::Gone, true), Watch::Leave);
    assert_eq!(command::watch_signals(&Signal::Quiet, true), Watch::KillAndLeave);
    assert_eq!(command::watch_signals(&Signal::Quiet, false), Watch::Look);
    assert_eq!(command::watch_child(&Child::Exited), Watch::ReportExit);
    assert_eq!(command::watch_child(&Child::Running), Watch::Sleep);
    assert_eq!(command::watch_child(&Child::Unknown), Watch::ReportError);
}

#[test]
fn waits_end() {
    let wait = |n: Notice, cancelled, elapsed| command::wait_on(&n, cancelled, elapsed, 120);
    assert_eq!(wait(Notice::Exited(Some(3)), true, 500), Some(Ending::Exited(Some(3))));
    assert_eq!(wait(Notice::Failed, false, 0), Some(Ending::Failed));
    assert_eq!(wait(Notice::Gone, false, 0), Some(Ending::Gone));
    assert_eq!(wait(Notice::Quiet, true, 500), Some(Ending::Cancelled));
    assert_eq!(wait(Notice::Quiet, false, 120), Some(Ending::TimedOut));
    assert_eq!(wait(Notice::Quiet, false, 119), None);
    assert!(Ending::Cancelled.stops_program());
    assert!(Ending::TimedOut.stops_program());
    assert!(!Ending::Gone.stops_program());
    assert!(!Ending::Exited(None).stops_program());
}

#[test]
fn only_programs_that_end_can_succeed() {
    let result = |end: Ending| command::command_result(&end, "out", "err", 120);
    assert_eq!(result(Ending::Exited(Some(0))), (0, "outerr".to_string()));
    assert_eq!(result(Ending::Exited(Some(7))), (7, "outerr".to_string()));
    assert_eq!(result(Ending::Exited(None)), (-1, "outerr".to_string()));
    assert_eq!(result(Ending::Failed), (-1, "ERR_PROCESS".to_string()));
    assert_eq!(result(Ending::Cancelled), (-1, "cancelled".to_string()));
    assert_eq!(result(Ending::TimedOut), (-1, "timeout:120s".to_string()));
    assert_eq!(result(Ending::Gone), (-1, "ERR_CHANNEL".to_string()));
    assert_eq!(command::spawn_failure("no"), (-1, "spawn_fail:no".to_string()));
}

#[test]
fn files_are_put_together_beside_their_target() {
    let paths = NativePaths::new();
    let temp = atomic::temp_file(&paths, &native("out/a.webp"), 42, 7).unwrap();
    assert_eq!(temp.dir, "out");
    assert_eq!(temp.path, native("out/.a.webp.42.7.tmp"));
    let temp = atomic::temp_file(&paths, "a.webp", 42, 8).unwrap();
    assert_eq!((temp.dir.as_str(), temp.path.as_str()), ("", ".a.webp.42.8.tmp"));
    let none = |path: &str| atomic::temp_file(&paths, path, 1, 1).err();
    assert_eq!(none(""), Some("invalid path".to_string()));
    assert_eq!(none("/"), Some("invalid path".to_string()));
    assert_eq!(none(&native("a/..")), Some("invalid file name".to_string()));
}

#[test]
fn temporary_files_need_a_directory_and_a_name() {
    let some = |t: &str| Some(t.to_string());
    assert_eq!(
        atomic::temp_parts(some("d"), some("a.webp"), 4, 9),
        Ok(("d".to_string(), ".a.webp.4.9.tmp".to_string()))
    );
    assert_eq!(atomic::temp_parts(None, None, 4, 9), Err("invalid path".to_string()));
    assert_eq!(atomic::temp_parts(None, some("a"), 4, 9), Err("invalid path".to_string()));
    assert_eq!(atomic::temp_parts(some("d"), None, 4, 9), Err("invalid file name".to_string()));
}

#[test]
fn temporary_names_do_not_collide() {
    let paths = NativePaths::new();
    let path = |name: &str, p, s| atomic::temp_file(&paths, name, p, s).unwrap().path;
    assert_ne!(path("a", 1, 12), path("a", 11, 2));
    assert_ne!(path("a", 1, 1), path("a", 1, 2));
    assert_ne!(path("a.1", 2, 3), path("a", 12, 3));
    assert_ne!(path("a", 1, 1), path("b", 1, 1));
}

#[test]
fn numbers_for_temporary_files_are_used_once() {
    let mut serials = TempSerials { next: 0 };
    assert_eq!((serials.take(), serials.take(), serials.take()), (0, 1, 2));
    let mut serials = TempSerials { next: u64::MAX };
    assert_eq!((serials.take(), serials.take()), (u64::MAX, 0));
}

#[test]
fn concurrent_writers_never_tear_a_file() {
    let paths = NativePaths::new();
    let bytes: [&[u8]; 2] = [b"first", b"second"];
    // Every order in which two writers can take their five steps.
    for order in 0u32..1 << 10 {
        if order.count_ones() != 5 {
            continue;
        }
        let mut serials = TempSerials { next: 0 };
        let temps: Vec<String> = (0..2)
            .map(|_| atomic::temp_file(&paths, "t", 1, serials.take()).unwrap().path)
            .collect();
        let mut files: HashMap<String, Vec<u8>> = HashMap::new();
        files.insert("t".to_string(), b"before".to_vec());
        let mut writes = [AtomicWrite::new(), AtomicWrite::new()];
        for turn in 0..10 {
            let i = (order >> turn & 1) as usize;
            match writes[i].step {
                WriteStep::Create => {
                    files.insert(temps[i].clone(), Vec::new());
                }
                WriteStep::Fill => {
                    files.insert(temps[i].clone(), bytes[i].to_vec());
                }
                WriteStep::Rename => {
                    let filled = files.remove(&temps[i]).unwrap();
                    files.insert("t".to_string(), filled);
                }
                _ => {}
            }
            writes[i].advance(Ok(()));
            let held = files["t"].as_slice();
            assert!(held == b"before" || held == bytes[0] || held == bytes[1]);
        }
        assert_ne!(files["t"], b"before");
        assert_eq!(files.len(), 1);
        for write in writes {
            assert_eq!(write.result(), Ok(()));
        }
    }
}

#[test]
fn a_file_is_written_in_five_steps() {
    let mut write = AtomicWrite::new();
    let steps = [
        WriteStep::Create,
        WriteStep::Fill,
        WriteStep::Sync,
        WriteStep::Rename,
        WriteStep::SyncDirectory,
        WriteStep::Done,
    ];
    for step in steps {
        assert_eq!(write.step, step);
        write.advance(Ok(()));
    }
    assert_eq!(write.step, WriteStep::Done);
    assert_eq!(write.result(), Ok(()));
}

#[test]
fn a_file_that_cannot_be_written_is_an_error() {
    for good in 0..3 {
        let mut write = AtomicWrite::new();
        for _ in 0..good {
            write.advance(Ok(()));
        }
        write.advance(Err("full".to_string()));
        assert_eq!(write.step, WriteStep::Done);
        assert_eq!(write.result(), Err("full".to_string()));
    }
    let mut write = AtomicWrite::new();
    for _ in 0..3 {
        write.advance(Ok(()));
    }
    write.advance(Err("locked".to_string()));
    assert_eq!(write.step, WriteStep::Remove);
    write.advance(Err("locked too".to_string()));
    assert_eq!(write.step, WriteStep::Done);
    assert_eq!(write.result(), Err("locked".to_string()));
}

#[test]
fn a_directory_that_cannot_be_put_on_the_disk_makes_no_difference() {
    let mut write = AtomicWrite::new();
    for _ in 0..4 {
        write.advance(Ok(()));
    }
    write.advance(Err("no".to_string()));
    assert_eq!(write.step, WriteStep::Done);
    assert_eq!(write.result(), Ok(()));
}

#[test]
fn links_hold_base64() {
    let head = "data:image/webp;base64,";
    let url = |bytes: &[u8]| thumbnail::data_url(bytes);
    assert_eq!(url(b""), head);
    assert_eq!(url(b"f"), format!("{}Zg==", head));
    assert_eq!(url(b"fo"), format!("{}Zm8=", head));
    assert_eq!(url(b"foo"), format!("{}Zm9v", head));
    assert_eq!(url(b"foobar"), format!("{}Zm9vYmFy", head));
    assert_eq!(url(&[0xfb, 0xff, 0xfe]), format!("{}+//+", head));
    for n in 0..20usize {
        assert_eq!(url(&vec![9; n]).len() - head.len(), (n + 2) / 3 * 4);
    }
}

#[test]
fn thumbnails_are_webp_pictures() {
    let img = DynamicImage::new_rgba8(100, 50);
    let url = thumbnail::generate_thumbnail(&img, None).unwrap().unwrap();
    let head = "data:image/webp;base64,";
    assert!(url.starts_with(head));
    let bytes = base64::Engine::decode(
        &base64::engine::general_purpose::STANDARD,
        &url[head.len()..],
    )
    .unwrap();
    let thumb = image::load_from_memory_with_format(&bytes, image::ImageFormat::WebP).unwrap();
    assert_eq!((thumb.width(), thumb.height()), (48, 24));
    assert!(thumb.color().has_alpha());

    let url = thumbnail::generate_thumbnail(&img, Some(10)).unwrap().unwrap();
    let bytes = base64::Engine::decode(
        &base64::engine::general_purpose::STANDARD,
        &url[head.len()..],
    )
    .unwrap();
    let thumb = image::load_from_memory_with_format(&bytes, image::ImageFormat::WebP).unwrap();
    assert_eq!((thumb.width(), thumb.height()), (10, 5));

    let square = DynamicImage::new_rgb8(100, 100);
    let url = thumbnail::generate_thumbnail(&square, None).unwrap().unwrap();
    let bytes = base64::Engine::decode(
        &base64::engine::general_purpose::STANDARD,
        &url[head.len()..],
    )
    .unwrap();
    let thumb = image::load_from_memory_with_format(&bytes, image::ImageFormat::WebP).unwrap();
    assert_eq!((thumb.width(), thumb.height()), (48, 48));
}

#[test]
fn thumbnails_that_cannot_be_made_are_none() {
    let img = DynamicImage::new_rgb8(2, 2);
    assert_eq!(thumbnail::generate_thumbnail(&img, Some(u32::MAX)), None);

    // A copy of an image that holds more bytes than it needs cannot be encoded.
    let roomy = RgbImage::from_raw(48, 48, vec![0; 48 * 48 * 3 + 1]).unwrap();
    let roomy = DynamicImage::ImageRgb8(roomy);
    assert_eq!(thumbnail::generate_thumbnail(&roomy, None), None);
    assert!(matches!(thumbnail::generate_thumbnail(&roomy, Some(47)), Some(Ok(_))));
    let exact = DynamicImage::new_rgb8(48, 48);
    assert!(matches!(thumbnail::generate_thumbnail(&exact, None), Some(Ok(_))));
}

#[test]
fn thumbnails_succeed_up_to_the_format_s_largest_side() {
    let img = DynamicImage::new_luma16(1000, 1);
    assert!(matches!(thumbnail::generate_thumbnail(&img, Some(16384)), Some(Ok(_))));
    match thumbnail::generate_thumbnail(&img, Some(16385)) {
        Some(Err(message)) => assert!(message.starts_with("encode_fail:")),
        other => panic!("{:?}", other),
    }
    let empty = DynamicImage::new_rgb8(0, 0);
    assert!(matches!(thumbnail::generate_thumbnail(&empty, Some(0)), Some(Err(_))));
}

#[test]
fn thumbnails_that_cannot_be_encoded_are_a_message() {
    assert_eq!(
        thumbnail::thumbnail_link(Err("broken".to_string())),
        Some(Err("encode_fail:broken".to_string()))
    );
    assert_eq!(
        thumbnail::thumbnail_link(Ok(vec![0, 0, 0])),
        Some(Ok("data:image/webp;base64,AAAA".to_string()))
    );
}

#[test]
fn the_menu_speaks_two_languages() {
    let titles = |lang: &str| -> Vec<String> {
        menu::build(lang).into_iter().map(|g| g.title).collect()
    };
    assert_eq!(titles("en"), texts(&["Pic2WebP", "File", "Edit", "View", "Window", "Help"]));
    assert_eq!(titles(""), titles("en"));
    assert_eq!(titles("zh-CN"), texts(&["Pic2WebP", "文件", "编辑", "显示", "窗口", "帮助"]));
    assert_eq!(titles("zh"), titles("zh-TW"));
    assert_eq!(titles("ZH"), titles("en"));
}

#[test]
fn the_menu_holds_the_application_s_entries() {
    let mut items: Vec<(String, String, Option<String>)> = Vec::new();
    for group in menu::build("en") {
        for entry in group.entries {
            if let MenuEntry::Item { id, label, key } = entry {
                items.push((id, label, key));
            }
        }
    }
    let item = |id: &str, label: &str, key: Option<&str>| {
        (id.to_string(), label.to_string(), key.map(|k| k.to_string()))
    };
    assert_eq!(
        items,
        vec![
            item("open", "Open Images…", Some("CmdOrCtrl+O")),
            item("clear", "Clear List", None),
            item("theme", "Toggle Theme", None),
            item("website", "Website", None),
        ]
    );
    assert_eq!(menu::WEBSITE, "https://rocktier.com/pic2webp.html");
}

#[test]
fn the_menu_is_the_same_in_both_languages_but_for_its_words() {
    let shape = |lang: &str| -> Vec<String> {
        let mut out: Vec<String> = Vec::new();
        for group in menu::build(lang) {
            for entry in group.entries {
                out.push(match entry {
                    MenuEntry::Item { id, key, .. } => format!("{} {:?}", id, key),
                    MenuEntry::About { .. } => "about".to_string(),
                    MenuEntry::Standard(kind) => format!("{:?}", kind),
                });
            }
        }
        out
    };
    assert_eq!(shape("zh"), shape("en"));
    assert_eq!(shape("en").len(), 22);
    assert!(shape("en").contains(&format!("{:?}", Standard::SelectAll)));
}
