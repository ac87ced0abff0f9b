use pic2webp::collect;
use pic2webp::collect::{Found, Input};
use pic2webp::paths::NativePaths;

fn input(path: &str, found: Found) -> Input {
    Input { path: path.to_string(), found }
}

fn below(files: &[&str]) -> Found {
    Found::Directory(files.iter().map(|f| f.to_string()).collect())
}

#[test]
fn eight_formats_are_supported() {
    for ext in ["jpg", "jpeg", "png", "webp", "avif", "gif", "bmp", "tiff"] {
        assert!(collect::is_supported(ext), "{}", ext);
    }
    for ext in ["", "tif", "JPG", "svg", "webp2", "heic"] {
        assert!(!collect::is_supported(ext), "{}", ext);
    }
}

#[test]
fn formats_are_told_by_the_extension_in_any_case() {
    let paths = NativePaths::new();
    assert!(collect::is_convertible(&paths, "a.JPeG"));
    assert!(collect::is_convertible(&paths, "b.c.Tiff"));
    assert!(!collect::is_convertible(&paths, "png"));
    assert!(!collect::is_convertible(&paths, ".png"));
    assert!(!collect::is_convertible(&paths, "a.txt"));
}

#[test]
fn a_request_takes_what_can_be_converted() {
    let paths = NativePaths::new();
    let inputs = vec![
        input("gone.png", Found::Missing),
        input("b.png", Found::File),
        input("dir", below(&["dir/x.JPG", "dir/notes.txt", "dir/sub/y.gif"])),
        input("readme.md", Found::File),
        input("pipe.png", Found::Other),
        input("a.png", Found::File),
    ];
    assert_eq!(
        collect::collect_convert_files(&paths, &inputs, true),
        vec!["b.png", "dir/x.JPG", "dir/sub/y.gif", "a.png"]
    );
    assert_eq!(
        collect::collect_convert_files(&paths, &inputs, false),
        vec!["b.png", "a.png"]
    );
}

#[test]
fn a_request_takes_each_file_once_where_it_came_first() {
    let paths = NativePaths::new();
    let inputs = vec![
        input("b.png", Found::File),
        input("a.png", Found::File),
        input("b.png", Found::File),
        input("dir", below(&["a.png", "c.png"])),
        input("a.png", Found::File),
    ];
    assert_eq!(
        collect::collect_convert_files(&paths, &inputs, true),
        vec!["b.png", "a.png", "c.png"]
    );
}

#[test]
fn the_command_line_takes_named_files_of_any_format() {
    let paths = NativePaths::new();
    let inputs = vec![
        input("readme.md", Found::File),
        input("a.png", Found::File),
        input("a.png", Found::File),
        input("dir", below(&["dir/x.bmp", "dir/notes.txt"])),
        input("gone.png", Found::Missing),
        input("pipe.png", Found::Other),
    ];
    assert_eq!(
        collect::collect_cli_files(&paths, &inputs, true),
        vec!["readme.md", "a.png", "a.png", "dir/x.bmp"]
    );
    assert_eq!(
        collect::collect_cli_files(&paths, &inputs, false),
        vec!["readme.md", "a.png", "a.png"]
    );
}

#[test]
fn collecting_again_changes_nothing() {
    let paths = NativePaths::new();
    let inputs = || {
        vec![
            input("b.png", Found::File),
            input("dir", below(&["dir/x.jpg", "dir/n.txt", "b.png"])),
            input("a.gif", Found::File),
        ]
    };
    let once = collect::collect_convert_files(&paths, &inputs(), true);
    assert_eq!(once, vec!["b.png", "dir/x.jpg", "a.gif"]);
    let mut doubled = inputs();
    doubled.extend(inputs());
    assert_eq!(collect::collect_convert_files(&paths, &doubled, true), once);
    for recursive in [false, true] {
        let again: Vec<Input> = once.iter().map(|f| input(f, Found::File)).collect();
        assert_eq!(collect::collect_convert_files(&paths, &again, recursive), once);
    }
}

#[test]
fn nothing_comes_of_nothing() {
    let paths = NativePaths::new();
    assert!(collect::collect_convert_files(&paths, &Vec::new(), true).is_empty());
    assert!(collect::collect_cli_files(&paths, &Vec::new(), true).is_empty());
}
