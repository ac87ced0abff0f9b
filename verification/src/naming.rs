//! Where the result of a conversion goes.
use vstd::prelude::*;
use crate::paths;
use crate::paths::NativePaths;
use crate::request::ConvertRequest;
use crate::text;

verus! {

/// The file name of a result under a naming mode. `now` is the time in milliseconds since 1970.
pub open spec fn output_name(
    stem: Seq<char>,
    ext: Seq<char>,
    naming_mode: Seq<char>,
    quality: int,
    now: nat,
) -> Seq<char> {
    if naming_mode == "webp-suffix"@ {
        stem + "-webp."@ + ext
    } else if naming_mode == "q-suffix"@ {
        stem + "-q"@ + text::decimal(quality) + "."@ + ext
    } else if naming_mode == "ts-suffix"@ {
        stem + "-"@ + text::digits(now) + "."@ + ext
    } else {
        stem + "."@ + ext
    }
}

/// The file name of a result. The modes `webp-suffix`, `q-suffix` and `ts-suffix` put a suffix
/// behind the stem; every other mode, `overwrite` among them, keeps the stem as it is.
pub fn build_output_name(stem: &str, ext: &str, naming_mode: &str, quality: i32, now: u128) -> (name:
    String)
    ensures
        name@ == output_name(stem@, ext@, naming_mode@, quality as int, now as nat),
{
    let mut name = stem.to_owned();
    if text::same_text(naming_mode, "webp-suffix") {
        name.append("-webp.");
    } else if text::same_text(naming_mode, "q-suffix") {
        name.append("-q");
        text::push_decimal(&mut name, quality as i64);
        name.append(".");
    } else if text::same_text(naming_mode, "ts-suffix") {
        name.append("-");
        text::push_digits(&mut name, now);
        name.append(".");
    } else {
        name.append(".");
    }
    name.append(ext);
    name
}

/// The file that a result is written to, and the directories to make for it, outermost first.
#[derive(Debug)]
pub struct OutputPath {
    pub dirs: Vec<String>,
    pub path: String,
}

/// The content of an [`OutputPath`].
pub struct OutputView {
    pub dirs: Seq<Seq<char>>,
    pub path: Seq<char>,
}

/// The texts of a list.
pub open spec fn texts(list: Seq<String>) -> Seq<Seq<char>> {
    list.map_values(|s: String| s@)
}

impl View for OutputPath {
    type V = OutputView;

    open spec fn view(&self) -> OutputView {
        OutputView { dirs: texts(self.dirs@), path: self.path@ }
    }
}

/// Where a source lies below the base directory of a request that keeps its structure, if it does.
pub open spec fn kept_structure(sep: char, request: ConvertRequest, source: Seq<char>) -> Option<
    Seq<char>,
> {
    if request.preserve_structure {
        paths::below(
            sep,
            paths::path_directory(sep, source),
            paths::or_text(paths::text_of(request.base_dir), seq![]),
        )
    } else {
        None
    }
}

/// Where a result named `filename` goes: beside its source where the request names no output
/// directory; else into that directory, or where the request keeps the structure and the source
/// lies below the base directory, into the same place below the output directory.
pub open spec fn output_path(
    sep: char,
    filename: Seq<char>,
    request: ConvertRequest,
    parent: Seq<char>,
    source: Seq<char>,
) -> OutputView {
    match paths::text_of(request.output_dir) {
        None => OutputView { dirs: seq![], path: paths::joined(sep, parent, filename) },
        Some(dir) => match kept_structure(sep, request, source) {
            Some(rest) => {
                let full = paths::joined(sep, dir, rest);
                OutputView { dirs: seq![dir, full], path: paths::joined(sep, full, filename) }
            },
            None => OutputView { dirs: seq![dir], path: paths::joined(sep, dir, filename) },
        },
    }
}

/// The directory that a result goes into: the one that keeps the structure where there is one, else
/// the output directory, else that of the source.
pub fn result_directory(
    output_dir: &Option<String>,
    kept: &Option<String>,
    parent: &str,
) -> (dir: String)
    ensures
        dir@ == paths::or_text(
            paths::text_of(*kept),
            paths::or_text(paths::text_of(*output_dir), parent@),
        ),
{
    match (kept, output_dir) {
        (Some(dir), _) => dir.clone(),
        (None, Some(dir)) => dir.clone(),
        (None, None) => parent.to_owned(),
    }
}

/// A result at a path, with the directories to make for it: the output directory, and the one in it
/// that keeps the structure.
pub fn arranged_output(
    output_dir: &Option<String>,
    kept: Option<String>,
    path: String,
) -> (out: OutputPath)
    ensures
        out@.path == path@,
        out@.dirs == (match (paths::text_of(*output_dir), paths::text_of(kept)) {
            (None, None) => seq![],
            (None, Some(full)) => seq![full],
            (Some(dir), None) => seq![dir],
            (Some(dir), Some(full)) => seq![dir, full],
        }),
{
    let ghost full = paths::text_of(kept);
    let mut dirs: Vec<String> = Vec::new();
    if let Some(dir) = output_dir {
        dirs.push(dir.clone());
    }
    if let Some(dir) = kept {
        dirs.push(dir);
    }
    assert(texts(dirs@) =~= (match (paths::text_of(*output_dir), full) {
        (None, None) => seq![],
        (None, Some(full)) => seq![full],
        (Some(dir), None) => seq![dir],
        (Some(dir), Some(full)) => seq![dir, full],
    }));
    OutputPath { dirs, path }
}

/// Where a result named `filename` goes.
pub fn build_output_path(
    paths: &NativePaths,
    filename: &str,
    request: &ConvertRequest,
    parent: &str,
    source: &str,
) -> (out: OutputPath)
    ensures
        out@ == output_path(paths.sep(), filename@, *request, parent@, source@),
{
    let mut kept: Option<String> = None;
    if let Some(dir) = &request.output_dir {
        if request.preserve_structure {
            let base = match &request.base_dir {
                Some(base) => base.clone(),
                None => String::new(),
            };
            let source_dir = paths.directory(source);
            if let Some(rest) = paths.strip_prefix(source_dir.as_str(), base.as_str()) {
                kept = Some(paths.join(dir.as_str(), rest.as_str()));
            }
        }
    }
    let directory = result_directory(&request.output_dir, &kept, parent);
    let path = paths.join(directory.as_str(), filename);
    arranged_output(&request.output_dir, kept, path)
}

/// A path in the form in which two paths that could not be looked up are compared.
pub open spec fn comparable(path: Seq<char>, windows: bool) -> Seq<char> {
    if windows {
        text::lowered(text::backslashed(path))
    } else {
        text::backslashed(path)
    }
}

/// A path in the form in which two paths that could not be looked up are compared.
fn to_comparable(path: &str, windows: bool) -> (out: String)
    ensures
        out@ == comparable(path@, windows),
{
    let slashed = text::to_backslashes(path);
    if windows {
        text::to_lower(slashed.as_str())
    } else {
        slashed
    }
}

/// Whether two paths lead to the same file. `resolved` tells whether their canonical forms are
/// equal, where the file system has given both; else the texts decide, with either kind of slash,
/// and on Windows in either case.
pub fn is_same_file(resolved: Option<bool>, a: &str, b: &str, windows: bool) -> (same: bool)
    ensures
        same == (match resolved {
            Some(equal) => equal,
            None => comparable(a@, windows) == comparable(b@, windows),
        }),
{
    match resolved {
        Some(equal) => equal,
        None => to_comparable(a, windows) == to_comparable(b, windows),
    }
}

/// The naming modes with a suffix never give a result the name that its stem has without one: they
/// cannot name a result like a source of the same stem and extension.
pub proof fn law_suffixes_set_results_apart(
    stem: Seq<char>,
    ext: Seq<char>,
    naming_mode: Seq<char>,
    quality: int,
    now: nat,
)
    requires
        naming_mode == "webp-suffix"@ || naming_mode == "q-suffix"@ || naming_mode == "ts-suffix"@,
    ensures
        output_name(stem, ext, naming_mode, quality, now) != stem + "."@ + ext,
{
    reveal_strlit("-webp.");
    reveal_strlit("-q");
    reveal_strlit("-");
    reveal_strlit(".");
    assert((stem + "."@ + ext).len() == stem.len() + 1 + ext.len());
    lemma_digits_not_empty(now);
}

/// Under one naming mode, at one quality and one time, results of different stems get different
/// names.
pub proof fn law_output_names_keep_stems_apart(
    a: Seq<char>,
    b: Seq<char>,
    ext: Seq<char>,
    naming_mode: Seq<char>,
    quality: int,
    now: nat,
)
    requires
        output_name(a, ext, naming_mode, quality, now) == output_name(
            b,
            ext,
            naming_mode,
            quality,
            now,
        ),
    ensures
        a == b,
{
    let name = output_name(a, ext, naming_mode, quality, now);
    assert(name.len() - a.len() == output_name(b, ext, naming_mode, quality, now).len() - b.len());
    assert(name.take(a.len() as int) =~= a);
    assert(output_name(b, ext, naming_mode, quality, now).take(b.len() as int) =~= b);
}

/// A number has at least one digit.
proof fn lemma_digits_not_empty(n: nat)
    ensures
        text::digits(n).len() > 0,
    decreases n,
{
    if n >= 10 {
        lemma_digits_not_empty(n / 10);
    }
}

/// Whether a file name is that of a result: the stem, a suffix that the naming mode puts behind it, a
/// dot and the extension. Only three modes have a suffix.
pub open spec fn named_as_asked(
    name: Seq<char>,
    stem: Seq<char>,
    ext: Seq<char>,
    naming_mode: Seq<char>,
    quality: int,
    now: nat,
) -> bool {
    let suffixed = |suffix: Seq<char>| name =~= stem + suffix + seq!['.'] + ext;
    let webp = naming_mode == "webp-suffix"@;
    let quality_mode = naming_mode == "q-suffix"@;
    let time = naming_mode == "ts-suffix"@;
    &&& webp ==> suffixed("-webp"@)
    &&& quality_mode ==> suffixed("-q"@ + text::decimal(quality))
    &&& time ==> suffixed("-"@ + text::digits(now))
    &&& !webp && !quality_mode && !time ==> suffixed(seq![])
}

/// Results are named as the naming mode says, whatever the stem, the extension, the quality and the
/// time are.
pub proof fn law_results_are_named_as_asked(
    stem: &str,
    ext: &str,
    naming_mode: &str,
    quality: i32,
    now: u128,
    name: String,
)
    requires
        call_ensures(build_output_name, (stem, ext, naming_mode, quality, now), name),
    ensures
        named_as_asked(name@, stem@, ext@, naming_mode@, quality as int, now as nat),
{
    lemma_named_as_asked(stem@, ext@, naming_mode@, quality as int, now as nat);
}

/// The file name of a result is as the naming mode says.
pub(crate) proof fn lemma_named_as_asked(
    stem: Seq<char>,
    ext: Seq<char>,
    naming_mode: Seq<char>,
    quality: int,
    now: nat,
)
    ensures
        named_as_asked(
            output_name(stem, ext, naming_mode, quality, now),
            stem,
            ext,
            naming_mode,
            quality,
            now,
        ),
{
    reveal_strlit("-webp.");
    reveal_strlit("-webp");
    reveal_strlit("-q");
    reveal_strlit("-");
    reveal_strlit(".");
    reveal_strlit("webp-suffix");
    reveal_strlit("q-suffix");
    reveal_strlit("ts-suffix");
    assert("webp-suffix"@.len() == 11 && "q-suffix"@.len() == 8 && "ts-suffix"@.len() == 9);
    assert("-webp."@ =~= "-webp"@ + seq!['.']);
    assert("."@ =~= seq!['.']);
    let name = output_name(stem, ext, naming_mode, quality, now);
    if naming_mode == "webp-suffix"@ {
        assert(name =~= stem + "-webp"@ + seq!['.'] + ext);
    } else if naming_mode == "q-suffix"@ {
        assert(name =~= stem + ("-q"@ + text::decimal(quality)) + seq!['.'] + ext);
    } else if naming_mode == "ts-suffix"@ {
        assert(name =~= stem + ("-"@ + text::digits(now)) + seq!['.'] + ext);
    } else {
        assert(name =~= stem + Seq::<char>::empty() + seq!['.'] + ext);
    }
}

/// Whether a result is where it has to be: beside its source where no output directory is given, and
/// then no directory is made. With one, in it, or in the place below it that the source has below the
/// base directory where the structure is kept and the source does lie below it; what is made is exactly
/// the directories that the result is in, down from the output directory.
pub open spec fn placed_as_asked(
    out: OutputView,
    sep: char,
    filename: Seq<char>,
    request: ConvertRequest,
    parent: Seq<char>,
    source: Seq<char>,
) -> bool {
    let source_dir = (match paths::parent_of(sep, source) {
        Some(dir) => dir,
        None => seq![],
    });
    let base = (match request.base_dir {
        Some(base) => base@,
        None => seq![],
    });
    let rest = paths::below(sep, source_dir, base);
    match request.output_dir {
        None => out.path == paths::joined(sep, parent, filename) && out.dirs.len() == 0,
        Some(dir) => {
            let keeps = request.preserve_structure && rest is Some;
            let full = paths::joined(sep, dir@, rest->0);
            &&& keeps ==> out.path == paths::joined(sep, full, filename) && out.dirs =~= seq![
                dir@,
                full,
            ]
            &&& !keeps ==> out.path == paths::joined(sep, dir@, filename) && out.dirs =~= seq![
                dir@,
            ]
        },
    }
}

/// Results are where they have to be, whatever the request says.
pub proof fn law_results_are_placed_as_asked(
    paths: &NativePaths,
    filename: &str,
    request: &ConvertRequest,
    parent: &str,
    source: &str,
    out: OutputPath,
)
    requires
        call_ensures(build_output_path, (paths, filename, request, parent, source), out),
    ensures
        placed_as_asked(out@, paths.sep(), filename@, *request, parent@, source@),
{
}

/// Two paths lead to the same file where the file system says so, whatever they are, and only there.
/// Where it says nothing, every path leads to the same file as itself, which of the two comes first
/// makes no difference, nor does the kind of slash, and off Windows nothing else is passed over.
pub proof fn law_sameness_of_files(
    resolved: Option<bool>,
    a: &str,
    b: &str,
    windows: bool,
    same: bool,
    turned: bool,
)
    requires
        call_ensures(is_same_file, (resolved, a, b, windows), same),
        call_ensures(is_same_file, (resolved, b, a, windows), turned),
    ensures
        same == turned,
        resolved matches Some(equal) ==> same == equal,
        resolved is None && a@ == b@ ==> same,
        resolved is None && a@.len() == b@.len() && (forall|i: int|
            0 <= i < a@.len() ==> #[trigger] a@[i] == b@[i] || (a@[i] == '/' && b@[i] == '\\') || (
            a@[i] == '\\' && b@[i] == '/')) ==> same,
        resolved is None && !windows && same ==> a@.len() == b@.len() && forall|i: int|
            0 <= i < a@.len() ==> #[trigger] a@[i] == b@[i] || (a@[i] == '/' && b@[i] == '\\') || (
            a@[i] == '\\' && b@[i] == '/'),
{
    let (x, y) = (text::backslashed(a@), text::backslashed(b@));
    if a@.len() == b@.len() && (forall|i: int|
        0 <= i < a@.len() ==> #[trigger] a@[i] == b@[i] || (a@[i] == '/' && b@[i] == '\\') || (
        a@[i] == '\\' && b@[i] == '/')) {
        assert forall|i: int| 0 <= i < x.len() implies x[i] == y[i] by {
            assert(a@[i] == b@[i] || (a@[i] == '/' && b@[i] == '\\') || (a@[i] == '\\' && b@[i]
                == '/'));
        }
        assert(x =~= y);
    }
    if resolved is None && !windows && same {
        assert(x == y);
        assert(x.len() == a@.len() && y.len() == b@.len());
        assert forall|i: int| 0 <= i < a@.len() implies #[trigger] a@[i] == b@[i] || (a@[i] == '/'
            && b@[i] == '\\') || (a@[i] == '\\' && b@[i] == '/') by {
            assert(x[i] == y[i]);
        }
    }
}

/// On Windows, where the file system says nothing, letters are the same in either case, and nothing else
/// is: paths of ASCII characters lead to the same file exactly where they are equal but for the case of
/// letters and the kind of slash.
pub proof fn law_windows_passes_over_case(a: &str, b: &str, same: bool)
    requires
        call_ensures(is_same_file, (None, a, b, true), same),
        forall|i: int| 0 <= i < a@.len() ==> '\0' <= #[trigger] a@[i] <= '\u{7f}',
        forall|i: int| 0 <= i < b@.len() ==> '\0' <= #[trigger] b@[i] <= '\u{7f}',
    ensures
        same <==> a@.len() == b@.len() && forall|i: int|
            0 <= i < a@.len() ==> plain(#[trigger] a@[i]) == plain(b@[i]),
{
    let (x, y) = (text::backslashed(a@), text::backslashed(b@));
    assert(vstd::utf8::is_ascii_chars(x));
    assert(vstd::utf8::is_ascii_chars(y));
    let (p, q) = (text::lowered(x), text::lowered(y));
    assert(p.len() == a@.len() && q.len() == b@.len());
    assert forall|i: int| 0 <= i < a@.len() implies p[i] == plain(#[trigger] a@[i]) by {}
    assert forall|i: int| 0 <= i < b@.len() implies q[i] == plain(#[trigger] b@[i]) by {}
    if same {
        assert(p == q);
        assert forall|i: int| 0 <= i < a@.len() implies plain(#[trigger] a@[i]) == plain(
            b@[i],
        ) by {
            assert(p[i] == q[i]);
        }
    }
    if a@.len() == b@.len() && (forall|i: int|
        0 <= i < a@.len() ==> plain(#[trigger] a@[i]) == plain(b@[i])) {
        assert forall|i: int| 0 <= i < p.len() implies p[i] == q[i] by {
            assert(plain(a@[i]) == plain(b@[i]));
        }
        assert(p =~= q);
    }
}

/// A character without what Windows passes over: as a small letter, and a slash as a backslash.
pub open spec fn plain(c: char) -> char {
    if c == '/' {
        '\\'
    } else if 'A' <= c <= 'Z' {
        (c as int + 32) as char
    } else {
        c
    }
}

} // verus!
