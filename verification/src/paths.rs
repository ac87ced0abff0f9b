//! Paths as text, under the conventions of the platform that the code runs on.
use vstd::prelude::*;
use crate::text;

verus! {

/// The final component of `path` where `sep` is the platform's separator, as `Path::file_name`
/// finds it.
pub uninterp spec fn file_name_of(sep: char, path: Seq<char>) -> Option<Seq<char>>;

/// `path` without its final component where `sep` is the platform's separator, as `Path::parent`
/// finds it.
pub uninterp spec fn parent_of(sep: char, path: Seq<char>) -> Option<Seq<char>>;

/// `name` below `dir` where `sep` is the platform's separator, as `Path::join` puts them together.
pub uninterp spec fn joined(sep: char, dir: Seq<char>, name: Seq<char>) -> Seq<char>;

/// The way from `base` down to `path` where `sep` is the platform's separator, as
/// `Path::strip_prefix` finds it.
pub uninterp spec fn below(sep: char, path: Seq<char>, base: Seq<char>) -> Option<Seq<char>>;

/// Where the last dot of `name` stands, if that is not the first character.
pub open spec fn dot_position(name: Seq<char>) -> Option<int>
    decreases name.len(),
{
    if name.len() <= 1 {
        None
    } else if name.last() == '.' {
        Some(name.len() - 1)
    } else {
        dot_position(name.drop_last())
    }
}

/// The part of a file name behind its last dot. A name without a dot has none, nor has one whose
/// only dot stands in front.
pub open spec fn extension(name: Seq<char>) -> Option<Seq<char>> {
    match dot_position(name) {
        Some(dot) => Some(name.skip(dot + 1)),
        None => None,
    }
}

/// A file name without its extension and the dot in front of that.
pub open spec fn stem(name: Seq<char>) -> Seq<char> {
    match dot_position(name) {
        Some(dot) => name.take(dot),
        None => name,
    }
}

/// The text that an optional text holds.
pub open spec fn text_of(s: Option<String>) -> Option<Seq<char>> {
    match s {
        Some(t) => Some(t@),
        None => None,
    }
}

/// `s`, or `default` where there is none.
pub open spec fn or_text(s: Option<Seq<char>>, default: Seq<char>) -> Seq<char> {
    match s {
        Some(t) => t,
        None => default,
    }
}

/// Reads `std::path::MAIN_SEPARATOR`. Trusted: it is a slash or a backslash.
#[verifier::external_body]
fn main_separator() -> (sep: char)
    ensures
        sep == '/' || sep == '\\',
{
    std::path::MAIN_SEPARATOR
}

/// The path conventions of the platform that the code runs on.
///
/// A value can only be made by [`NativePaths::new`], so the separator it holds is always the
/// platform's own. The results of std's path methods differ between platforms; they are named
/// as functions of that separator and the texts involved.
#[derive(Clone, Copy)]
pub struct NativePaths {
    sep: char,
}

impl NativePaths {
    /// The platform's separator.
    pub closed spec fn sep(self) -> char {
        self.sep
    }

    /// The conventions of this platform.
    pub fn new() -> (paths: NativePaths)
        ensures
            paths.sep() == '/' || paths.sep() == '\\',
    {
        NativePaths { sep: main_separator() }
    }

    /// Calls `Path::file_name`. Trusted: the result depends on the platform and the path alone.
    #[verifier::external_body]
    pub(crate) fn file_name(&self, path: &str) -> (name: Option<String>)
        ensures
            text_of(name) == file_name_of(self.sep(), path@),
    {
        std::path::Path::new(path).file_name().map(|n| n.to_string_lossy().into_owned())
    }

    /// Calls `Path::parent`. Trusted: the result depends on the platform and the path alone.
    #[verifier::external_body]
    pub(crate) fn parent(&self, path: &str) -> (parent: Option<String>)
        ensures
            text_of(parent) == parent_of(self.sep(), path@),
    {
        std::path::Path::new(path).parent().map(|p| p.to_string_lossy().into_owned())
    }

    /// Calls `Path::join`. Trusted: the result depends on the platform and the two texts alone.
    #[verifier::external_body]
    pub(crate) fn join(&self, dir: &str, name: &str) -> (path: String)
        ensures
            path@ == joined(self.sep(), dir@, name@),
    {
        std::path::Path::new(dir).join(name).to_string_lossy().into_owned()
    }

    /// Calls `Path::strip_prefix`. Trusted: the result depends on the platform and the two texts
    /// alone.
    #[verifier::external_body]
    pub(crate) fn strip_prefix(&self, path: &str, base: &str) -> (rest: Option<String>)
        ensures
            text_of(rest) == below(self.sep(), path@, base@),
    {
        std::path::Path::new(path).strip_prefix(base).ok().map(|p| p.to_string_lossy().into_owned())
    }
}

/// Where the last dot of `name` stands, if that is not the first character.
fn find_dot(name: &str) -> (dot: Option<usize>)
    ensures
        match dot {
            Some(i) => 0 < i < name@.len() && dot_position(name@) == Some(i as int),
            None => dot_position(name@) is None,
        },
{
    let len: usize = name.unicode_len();
    let mut last: Option<usize> = None;
    let mut i: usize = 0;
    while i < len
        invariant
            i <= len == name@.len(),
            match last {
                Some(k) => 0 < k < i && dot_position(name@.take(i as int)) == Some(k as int),
                None => dot_position(name@.take(i as int)) is None,
            },
        decreases len - i,
    {
        assert(name@.take(i + 1).drop_last() =~= name@.take(i as int));
        if i > 0 && name.get_char(i) == '.' {
            last = Some(i);
        }
        i += 1;
    }
    assert(name@.take(len as int) =~= name@);
    last
}

/// The extension of a file name.
pub fn extension_of(name: &str) -> (ext: Option<String>)
    ensures
        text_of(ext) == extension(name@),
{
    match find_dot(name) {
        Some(dot) => {
            let len: usize = name.unicode_len();
            let ext = name.substring_char(dot + 1, len);
            assert(ext@ =~= name@.skip(dot + 1));
            Some(ext.to_owned())
        },
        None => None,
    }
}

/// A file name without its extension.
pub fn stem_of(name: &str) -> (s: String)
    ensures
        s@ == stem(name@),
{
    match find_dot(name) {
        Some(dot) => {
            let head = name.substring_char(0, dot);
            assert(head@ =~= name@.take(dot as int));
            head.to_owned()
        },
        None => name.to_owned(),
    }
}

/// The extension of the file at `path` in lower case, empty where it has none.
pub open spec fn path_extension(sep: char, path: Seq<char>) -> Seq<char> {
    text::lowered(
        match file_name_of(sep, path) {
            Some(name) => or_text(extension(name), seq![]),
            None => seq![],
        },
    )
}

/// The name of the file at `path` without its extension; `output` where the path names no file.
pub open spec fn path_stem(sep: char, path: Seq<char>) -> Seq<char> {
    match file_name_of(sep, path) {
        Some(name) => stem(name),
        None => "output"@,
    }
}

/// The directory of the file at `path`, empty where the path has none.
pub open spec fn path_directory(sep: char, path: Seq<char>) -> Seq<char> {
    or_text(parent_of(sep, path), seq![])
}

impl NativePaths {
    /// The extension of the file at `path` in lower case, empty where it has none.
    pub fn extension(&self, path: &str) -> (ext: String)
        ensures
            ext@ == path_extension(self.sep(), path@),
    {
        let ext = match self.file_name(path) {
            Some(name) => match extension_of(name.as_str()) {
                Some(ext) => ext,
                None => String::new(),
            },
            None => String::new(),
        };
        text::to_lower(ext.as_str())
    }

    /// The name of the file at `path` without its extension; `output` where the path names no
    /// file.
    pub fn stem(&self, path: &str) -> (s: String)
        ensures
            s@ == path_stem(self.sep(), path@),
    {
        match self.file_name(path) {
            Some(name) => stem_of(name.as_str()),
            None => "output".to_owned(),
        }
    }

    /// The directory of the file at `path`, empty where the path has none.
    pub fn directory(&self, path: &str) -> (dir: String)
        ensures
            dir@ == path_directory(self.sep(), path@),
    {
        match self.parent(path) {
            Some(dir) => dir,
            None => String::new(),
        }
    }
}

/// A file name is split at its last dot, unless that is its first character: what is behind it is the
/// extension, and what is before it the stem. A name without such a dot has no extension and is its own
/// stem.
pub proof fn law_names_are_split_at_the_last_dot(
    name: &str,
    ext: Option<String>,
    own_stem: String,
    front: Seq<char>,
    back: Seq<char>,
)
    requires
        call_ensures(extension_of, (name,), ext),
        call_ensures(stem_of, (name,), own_stem),
    ensures
        name@ == front + seq!['.'] + back && front.len() > 0 && !back.contains('.') ==> text_of(ext)
            == Some(back) && own_stem@ == front,
        (forall|i: int| 0 < i < name@.len() ==> #[trigger] name@[i] != '.') ==> ext is None
            && own_stem@ == name@,
{
    if name@ == front + seq!['.'] + back && front.len() > 0 && !back.contains('.') {
        lemma_dot_position(front, back);
        assert(name@.skip(front.len() as int + 1) =~= back);
        assert(name@.take(front.len() as int) =~= front);
        assert(name@.subrange(front.len() as int + 1, name@.len() as int) =~= back);
        assert(name@.subrange(0, front.len() as int) =~= front);
    }
    if forall|i: int| 0 < i < name@.len() ==> #[trigger] name@[i] != '.' {
        lemma_no_dot(name@);
    }
}

/// Where the last dot of a name stands that is put together with one.
proof fn lemma_dot_position(front: Seq<char>, back: Seq<char>)
    requires
        front.len() > 0,
        !back.contains('.'),
    ensures
        dot_position(front + seq!['.'] + back) == Some(front.len() as int),
    decreases back.len(),
{
    let name = front + seq!['.'] + back;
    if back.len() > 0 {
        let short = back.drop_last();
        assert(!short.contains('.')) by {
            if short.contains('.') {
                let i = choose|i: int| 0 <= i < short.len() && short[i] == '.';
                assert(back[i] == '.');
            }
        }
        lemma_dot_position(front, short);
        assert(name.drop_last() =~= front + seq!['.'] + short);
        assert(name.last() == back.last());
        assert(back[back.len() - 1] != '.');
    } else {
        assert(name.last() == '.');
    }
}

/// A name without a dot behind its first character has no place to be split.
proof fn lemma_no_dot(name: Seq<char>)
    requires
        forall|i: int| 0 < i < name.len() ==> #[trigger] name[i] != '.',
    ensures
        dot_position(name) is None,
    decreases name.len(),
{
    if name.len() > 0 {
        let short = name.drop_last();
        assert forall|i: int| 0 < i < short.len() implies #[trigger] short[i] != '.' by {
            assert(short[i] == name[i]);
        }
        lemma_no_dot(short);
        if name.len() > 1 {
            assert(name[name.len() - 1] != '.');
        }
    }
}

/// Extensions are the same in either case: those of two paths whose extensions differ only in the case
/// of ASCII letters are equal.
pub proof fn law_extensions_ignore_case(
    paths: &NativePaths,
    path: &str,
    ext: String,
    raw: Seq<char>,
)
    requires
        call_ensures(NativePaths::extension, (paths, path), ext),
        file_name_of(paths.sep(), path@) matches Some(name) && extension(name) == Some(raw),
        forall|i: int| 0 <= i < raw.len() ==> '\0' <= #[trigger] raw[i] <= '\u{7f}',
    ensures
        ext@.len() == raw.len(),
        forall|i: int|
            0 <= i < raw.len() ==> #[trigger] ext@[i] == if 'A' <= raw[i] <= 'Z' {
                (raw[i] as int + 32) as char
            } else {
                raw[i]
            },
{
    assert(vstd::utf8::is_ascii_chars(raw));
}

/// The directory and the stem of a path are those that its parts have: an empty directory where it has
/// none, and `output` as the stem where it names no file.
pub proof fn law_paths_are_taken_apart(
    paths: &NativePaths,
    path: &str,
    dir: String,
    own_stem: String,
)
    requires
        call_ensures(NativePaths::directory, (paths, path), dir),
        call_ensures(NativePaths::stem, (paths, path), own_stem),
    ensures
        match parent_of(paths.sep(), path@) {
            Some(parent) => dir@ == parent,
            None => dir@.len() == 0,
        },
        match file_name_of(paths.sep(), path@) {
            Some(name) => own_stem@.is_prefix_of(name) && (own_stem@ == name || (name.len()
                > own_stem@.len() > 0 && name[own_stem@.len() as int] == '.')),
            None => own_stem@ == "output"@,
        },
{
    if let Some(name) = file_name_of(paths.sep(), path@) {
        lemma_dot_is_there(name);
        if let Some(i) = dot_position(name) {
            assert(own_stem@ =~= name.take(i));
        }
    }
}

/// There is a dot where the last one stands.
proof fn lemma_dot_is_there(name: Seq<char>)
    ensures
        dot_position(name) matches Some(i) ==> 0 < i < name.len() && name[i] == '.',
    decreases name.len(),
{
    if name.len() > 0 {
        lemma_dot_is_there(name.drop_last());
    }
}

} // verus!
