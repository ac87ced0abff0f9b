//! Which files a conversion works on.
use vstd::prelude::*;
use crate::naming;
use crate::paths;
use crate::paths::NativePaths;
use crate::text;

verus! {

/// What the file system has at a path.
pub enum Found {
    /// Nothing.
    Missing,
    /// A directory, with the files at any depth below it in the order in which they are met.
    Directory(Vec<String>),
    /// A file.
    File,
    /// Something else.
    Other,
}

/// A path that a conversion was asked for, and what is there.
pub struct Input {
    pub path: String,
    pub found: Found,
}

/// Whether `ext` is the extension, in lower case, of a format that can be converted.
pub open spec fn supported(ext: Seq<char>) -> bool {
    ||| ext == "jpg"@
    ||| ext == "jpeg"@
    ||| ext == "png"@
    ||| ext == "webp"@
    ||| ext == "avif"@
    ||| ext == "gif"@
    ||| ext == "bmp"@
    ||| ext == "tiff"@
}

/// Whether the file at `path` is of a format that can be converted.
pub open spec fn convertible(sep: char, path: Seq<char>) -> bool {
    supported(paths::path_extension(sep, path))
}

/// The files that an input stands for: itself, or where directories are searched, what lies below
/// it. Only formats that can be converted are taken from a directory; `any_format` tells whether
/// that goes for a file that was named as well.
pub open spec fn input_files(sep: char, input: Input, recursive: bool, any_format: bool) -> Seq<
    Seq<char>,
> {
    match input.found {
        Found::Directory(files) => if recursive {
            naming::texts(files@).filter(|path: Seq<char>| convertible(sep, path))
        } else {
            seq![]
        },
        Found::File => if any_format || convertible(sep, input.path@) {
            seq![input.path@]
        } else {
            seq![]
        },
        _ => seq![],
    }
}

/// The files that all the inputs stand for, in order.
pub open spec fn all_files(sep: char, inputs: Seq<Input>, recursive: bool, any_format: bool) -> Seq<
    Seq<char>,
>
    decreases inputs.len(),
{
    if inputs.len() == 0 {
        seq![]
    } else {
        all_files(sep, inputs.drop_last(), recursive, any_format) + input_files(
            sep,
            inputs.last(),
            recursive,
            any_format,
        )
    }
}

/// `list` without what stands further up in it already.
pub open spec fn first_occurrences(list: Seq<Seq<char>>) -> Seq<Seq<char>>
    decreases list.len(),
{
    if list.len() == 0 {
        seq![]
    } else {
        let head = first_occurrences(list.drop_last());
        if head.contains(list.last()) {
            head
        } else {
            head.push(list.last())
        }
    }
}

/// Whether `ext` is the extension, in lower case, of a format that can be converted.
pub fn is_supported(ext: &str) -> (yes: bool)
    ensures
        yes == supported(ext@),
{
    text::same_text(ext, "jpg") || text::same_text(ext, "jpeg") || text::same_text(ext, "png")
        || text::same_text(ext, "webp") || text::same_text(ext, "avif") || text::same_text(
        ext,
        "gif",
    ) || text::same_text(ext, "bmp") || text::same_text(ext, "tiff")
}

/// Whether the file at `path` is of a format that can be converted.
pub fn is_convertible(paths: &NativePaths, path: &str) -> (yes: bool)
    ensures
        yes == convertible(paths.sep(), path@),
{
    is_supported(paths.extension(path).as_str())
}

/// Appends the files that an input stands for to a list.
fn add_files(
    paths: &NativePaths,
    list: &mut Vec<String>,
    input: &Input,
    recursive: bool,
    any_format: bool,
)
    ensures
        naming::texts(final(list)@) == naming::texts(old(list)@) + input_files(
            paths.sep(),
            *input,
            recursive,
            any_format,
        ),
{
    let ghost before = naming::texts(list@);
    match &input.found {
        Found::Directory(files) => {
            if recursive {
                let ghost pred = |path: Seq<char>| convertible(paths.sep(), path);
                let ghost all = naming::texts(files@);
                let mut i: usize = 0;
                while i < files.len()
                    invariant
                        i <= files@.len(),
                        all == naming::texts(files@),
                        pred == (|path: Seq<char>| convertible(paths.sep(), path)),
                        naming::texts(list@) == before + all.take(i as int).filter(pred),
                    decreases files@.len() - i,
                {
                    let ghost next = all.take(i + 1);
                    let ghost kept = list@;
                    proof {
                        assert(next.drop_last() =~= all.take(i as int));
                        reveal(Seq::filter);
                    }
                    if is_convertible(paths, files[i].as_str()) {
                        list.push(files[i].clone());
                        assert(naming::texts(list@) =~= naming::texts(kept).push(files[i as int]@));
                    }
                    assert(naming::texts(list@) =~= before + next.filter(pred));
                    i += 1;
                }
                assert(all.take(files@.len() as int) =~= all);
            }
        },
        Found::File => {
            if any_format || is_convertible(paths, input.path.as_str()) {
                list.push(input.path.clone());
                assert(naming::texts(list@) =~= before + seq![input.path@]);
            }
        },
        _ => {},
    }
    assert(naming::texts(list@) =~= before + input_files(
        paths.sep(),
        *input,
        recursive,
        any_format,
    ));
}

/// The files that all the inputs stand for, in order.
fn gather(paths: &NativePaths, inputs: &Vec<Input>, recursive: bool, any_format: bool) -> (files:
    Vec<String>)
    ensures
        naming::texts(files@) == all_files(paths.sep(), inputs@, recursive, any_format),
{
    let mut files: Vec<String> = Vec::new();
    assert(naming::texts(files@) =~= seq![]);
    let mut i: usize = 0;
    while i < inputs.len()
        invariant
            i <= inputs@.len(),
            naming::texts(files@) == all_files(
                paths.sep(),
                inputs@.take(i as int),
                recursive,
                any_format,
            ),
        decreases inputs@.len() - i,
    {
        assert(inputs@.take(i + 1).drop_last() =~= inputs@.take(i as int));
        add_files(paths, &mut files, &inputs[i], recursive, any_format);
        i += 1;
    }
    assert(inputs@.take(inputs@.len() as int) =~= inputs@);
    files
}

/// Whether a text is in a list.
fn holds(list: &Vec<String>, item: &String) -> (found: bool)
    ensures
        found == naming::texts(list@).contains(item@),
{
    let mut i: usize = 0;
    while i < list.len()
        invariant
            i <= list@.len(),
            forall|j: int| 0 <= j < i ==> naming::texts(list@)[j] != item@,
        decreases list@.len() - i,
    {
        if list[i] == *item {
            assert(naming::texts(list@)[i as int] == item@);
            return true;
        }
        i += 1;
    }
    false
}

/// A list without what stands further up in it already.
fn without_repeats(list: &Vec<String>) -> (kept: Vec<String>)
    ensures
        naming::texts(kept@) == first_occurrences(naming::texts(list@)),
{
    let ghost all = naming::texts(list@);
    let mut kept: Vec<String> = Vec::new();
    assert(naming::texts(kept@) =~= seq![]);
    let mut i: usize = 0;
    while i < list.len()
        invariant
            i <= list@.len(),
            all == naming::texts(list@),
            naming::texts(kept@) == first_occurrences(all.take(i as int)),
        decreases list@.len() - i,
    {
        let ghost before = kept@;
        assert(all.take(i + 1).drop_last() =~= all.take(i as int));
        if !holds(&kept, &list[i]) {
            kept.push(list[i].clone());
            assert(naming::texts(kept@) =~= naming::texts(before).push(list[i as int]@));
        }
        i += 1;
    }
    assert(all.take(list@.len() as int) =~= all);
    kept
}

/// The files that a request works on: those of a format that can be converted among the inputs and,
/// where it is recursive, below them; each of them once, where it came first.
pub fn collect_convert_files(paths: &NativePaths, inputs: &Vec<Input>, recursive: bool) -> (files:
    Vec<String>)
    ensures
        naming::texts(files@) == first_occurrences(
            all_files(paths.sep(), inputs@, recursive, false),
        ),
{
    without_repeats(&gather(paths, inputs, recursive, false))
}

/// The files that the command line works on: those named, whatever their format, and where
/// directories are searched, those below them that can be converted.
pub fn collect_cli_files(paths: &NativePaths, inputs: &Vec<Input>, recursive: bool) -> (files: Vec<
    String,
>)
    ensures
        naming::texts(files@) == all_files(paths.sep(), inputs@, recursive, true),
{
    gather(paths, inputs, recursive, true)
}

/// Taking first occurrences leaves no text twice, loses none and adds none.
pub proof fn law_first_occurrences_are_unique(list: Seq<Seq<char>>)
    ensures
        first_occurrences(list).no_duplicates(),
        forall|t: Seq<char>|
            #![trigger first_occurrences(list).contains(t)]
            #![trigger list.contains(t)]
            first_occurrences(list).contains(t) <==> list.contains(t),
    decreases list.len(),
{
    if list.len() > 0 {
        let head = first_occurrences(list.drop_last());
        let result = first_occurrences(list);
        law_first_occurrences_are_unique(list.drop_last());
        assert(list =~= list.drop_last().push(list.last()));
        assert forall|t: Seq<char>|
            #![trigger result.contains(t)]
            #![trigger list.contains(t)]
            result.contains(t) <==> list.contains(t) by {
            if list.contains(t) {
                let i = choose|i: int| 0 <= i < list.len() && list[i] == t;
                if i < list.len() - 1 {
                    assert(list.drop_last()[i] == t);
                    assert(list.drop_last().contains(t));
                    assert(head.contains(t));
                    let j = choose|j: int| 0 <= j < head.len() && head[j] == t;
                    assert(result[j] == t);
                } else if !head.contains(t) {
                    assert(result[head.len() as int] == t);
                }
            }
            if result.contains(t) {
                let j = choose|j: int| 0 <= j < result.len() && result[j] == t;
                if j < head.len() {
                    assert(head[j] == t);
                    assert(list.drop_last().contains(t));
                    let i = choose|i: int|
                        0 <= i < list.drop_last().len() && list.drop_last()[i] == t;
                    assert(list[i] == t);
                } else {
                    assert(list[list.len() - 1] == t);
                }
            }
        }
    }
}

/// Taking first occurrences keeps the order: of two texts that are kept, the one that came first
/// still does.
pub proof fn law_first_occurrences_keep_order(list: Seq<Seq<char>>, i: int, j: int)
    requires
        0 <= i < j < first_occurrences(list).len(),
    ensures
        list.index_of_first(first_occurrences(list)[i])->0 < list.index_of_first(
            first_occurrences(list)[j],
        )->0,
    decreases list.len(),
{
    let head = first_occurrences(list.drop_last());
    let result = first_occurrences(list);
    let short = list.drop_last();
    law_first_occurrences_are_unique(list);
    law_first_occurrences_are_unique(short);
    let a = result[i];
    let b = result[j];
    assert(result.contains(a) && result.contains(b));
    assert(head.contains(head[i]));
    lemma_first_index(list, a);
    lemma_first_index(list, b);
    lemma_first_index(short, a);
    let ia = list.index_of_first(a)->0;
    let ib = list.index_of_first(b)->0;
    if j < head.len() {
        law_first_occurrences_keep_order(short, i, j);
        assert(head.contains(b));
        lemma_first_index(short, b);
        assert(list[short.index_of_first(a)->0] == a);
        assert(list[short.index_of_first(b)->0] == b);
        assert(ib < short.len());
        assert(short[ib] == b);
        assert(ia < short.len());
        assert(short[ia] == a);
    } else {
        assert(list[short.index_of_first(a)->0] == a);
        assert(ia < short.len());
        if ib < short.len() {
            assert(short[ib] == b);
            assert(short.contains(b));
        }
    }
}

/// What the index of a first occurrence is.
proof fn lemma_first_index(list: Seq<Seq<char>>, t: Seq<char>)
    requires
        list.contains(t),
    ensures
        list.index_of_first(t) matches Some(i) && 0 <= i < list.len() && list[i] == t && forall|k: int|
            0 <= k < i ==> list[k] != t,
{
    list.index_of_first_ensures(t);
}

/// Everything that a request works on is of a format that can be converted, and a file that was
/// named, exists and is of such a format is among it.
pub proof fn law_collected_files_are_convertible(sep: char, inputs: Seq<Input>, recursive: bool)
    ensures
        forall|t: Seq<char>| #[trigger]
            first_occurrences(all_files(sep, inputs, recursive, false)).contains(t) ==> convertible(
                sep,
                t,
            ),
        forall|k: int|
            0 <= k < inputs.len() && (#[trigger] inputs[k]).found is File && convertible(
                sep,
                inputs[k].path@,
            ) ==> first_occurrences(all_files(sep, inputs, recursive, false)).contains(
                inputs[k].path@,
            ),
{
    let all = all_files(sep, inputs, recursive, false);
    law_first_occurrences_are_unique(all);
    lemma_all_files(sep, inputs, recursive);
    assert forall|t: Seq<char>| #[trigger] first_occurrences(all).contains(t) implies convertible(
        sep,
        t,
    ) by {
        assert(all.contains(t));
    }
    assert forall|k: int|
        0 <= k < inputs.len() && (#[trigger] inputs[k]).found is File && convertible(
            sep,
            inputs[k].path@,
        ) implies first_occurrences(all).contains(inputs[k].path@) by {
        assert(all.contains(inputs[k].path@));
    }
}

/// What is among the files of all inputs.
proof fn lemma_all_files(sep: char, inputs: Seq<Input>, recursive: bool)
    ensures
        forall|t: Seq<char>| #[trigger]
            all_files(sep, inputs, recursive, false).contains(t) ==> convertible(sep, t),
        forall|k: int|
            0 <= k < inputs.len() && (#[trigger] inputs[k]).found is File && convertible(
                sep,
                inputs[k].path@,
            ) ==> all_files(sep, inputs, recursive, false).contains(inputs[k].path@),
    decreases inputs.len(),
{
    if inputs.len() > 0 {
        let before = all_files(sep, inputs.drop_last(), recursive, false);
        let new = input_files(sep, inputs.last(), recursive, false);
        let all = all_files(sep, inputs, recursive, false);
        lemma_all_files(sep, inputs.drop_last(), recursive);
        assert forall|t: Seq<char>| #[trigger] all.contains(t) implies convertible(sep, t) by {
            let i = choose|i: int| 0 <= i < all.len() && all[i] == t;
            if i < before.len() {
                assert(before.contains(before[i]));
            } else {
                assert(new[i - before.len()] == t);
                if let Found::Directory(files) = inputs.last().found {
                    if recursive {
                        let pred = |path: Seq<char>| convertible(sep, path);
                        naming::texts(files@).lemma_filter_pred(pred, i - before.len());
                        assert(pred(new[i - before.len()]));
                    }
                }
            }
        }
        assert forall|k: int|
            0 <= k < inputs.len() && (#[trigger] inputs[k]).found is File && convertible(
                sep,
                inputs[k].path@,
            ) implies all.contains(inputs[k].path@) by {
            if k < inputs.len() - 1 {
                assert(inputs.drop_last()[k] == inputs[k]);
                let i = choose|i: int| 0 <= i < before.len() && before[i] == inputs[k].path@;
                assert(all[i] == inputs[k].path@);
            } else {
                assert(all[before.len() as int] == inputs[k].path@);
            }
        }
    }
}

/// First occurrences of a list without repeats are the list.
proof fn lemma_unique_stays(list: Seq<Seq<char>>)
    requires
        list.no_duplicates(),
    ensures
        first_occurrences(list) == list,
    decreases list.len(),
{
    if list.len() > 0 {
        let short = list.drop_last();
        lemma_unique_stays(short);
        if short.contains(list.last()) {
            let i = choose|i: int| 0 <= i < short.len() && short[i] == list.last();
            assert(list[i] == list[list.len() - 1]);
        }
        assert(short.push(list.last()) =~= list);
    } else {
        assert(list =~= seq![]);
    }
}

/// What is in a list already adds no first occurrence behind it.
proof fn lemma_known_adds_nothing(list: Seq<Seq<char>>, more: Seq<Seq<char>>)
    requires
        forall|i: int| 0 <= i < more.len() ==> list.contains(#[trigger] more[i]),
    ensures
        first_occurrences(list + more) == first_occurrences(list),
    decreases more.len(),
{
    if more.len() > 0 {
        let short = more.drop_last();
        assert forall|i: int| 0 <= i < short.len() implies list.contains(#[trigger] short[i]) by {
            assert(short[i] == more[i]);
        }
        lemma_known_adds_nothing(list, short);
        assert((list + more).drop_last() =~= list + short);
        assert((list + more).last() == more[more.len() - 1]);
        law_first_occurrences_are_unique(list);
        assert(list.contains(more[more.len() - 1]));
        assert(first_occurrences(list).contains(more[more.len() - 1]));
    } else {
        assert(list + more =~= list);
    }
}

/// The files of inputs behind others stand behind those of the others.
proof fn lemma_files_add_up(
    sep: char,
    inputs: Seq<Input>,
    more: Seq<Input>,
    recursive: bool,
    any_format: bool,
)
    ensures
        all_files(sep, inputs + more, recursive, any_format) == all_files(
            sep,
            inputs,
            recursive,
            any_format,
        ) + all_files(sep, more, recursive, any_format),
    decreases more.len(),
{
    let first = all_files(sep, inputs, recursive, any_format);
    if more.len() > 0 {
        lemma_files_add_up(sep, inputs, more.drop_last(), recursive, any_format);
        assert((inputs + more).drop_last() =~= inputs + more.drop_last());
        assert((inputs + more).last() == more.last());
        let rest = all_files(sep, more.drop_last(), recursive, any_format);
        let last = input_files(sep, more.last(), recursive, any_format);
        assert(first + (rest + last) =~= first + rest + last);
    } else {
        assert(inputs + more =~= inputs);
        assert(first + Seq::<Seq<char>>::empty() =~= first);
    }
}

/// Asking for the same inputs twice in a row gives the files that asking once does.
pub proof fn law_doubled_inputs_change_nothing(sep: char, inputs: Seq<Input>, recursive: bool)
    ensures
        first_occurrences(all_files(sep, inputs + inputs, recursive, false)) == first_occurrences(
            all_files(sep, inputs, recursive, false),
        ),
{
    let all = all_files(sep, inputs, recursive, false);
    lemma_files_add_up(sep, inputs, inputs, recursive, false);
    assert forall|i: int| 0 <= i < all.len() implies all.contains(#[trigger] all[i]) by {}
    lemma_known_adds_nothing(all, all);
}

/// The files of inputs that are all files to be converted are the inputs themselves.
proof fn lemma_named_files(sep: char, inputs: Seq<Input>, files: Seq<Seq<char>>, recursive: bool)
    requires
        inputs.len() == files.len(),
        forall|i: int|
            0 <= i < inputs.len() ==> (#[trigger] inputs[i]).found is File && inputs[i].path@
                == files[i] && convertible(sep, files[i]),
    ensures
        all_files(sep, inputs, recursive, false) == files,
    decreases inputs.len(),
{
    if inputs.len() > 0 {
        let (before, short) = (inputs.drop_last(), files.drop_last());
        assert forall|i: int| 0 <= i < before.len() implies (#[trigger] before[i]).found is File
            && before[i].path@ == short[i] && convertible(sep, short[i]) by {
            assert(before[i] == inputs[i]);
        }
        lemma_named_files(sep, before, short, recursive);
        assert(inputs.last() == inputs[inputs.len() - 1]);
        assert(short + seq![files.last()] =~= files);
    } else {
        assert(files =~= seq![]);
    }
}

/// Collecting what was collected, where the files are still there, gives the same files in the same
/// order, whether directories are searched or not.
pub proof fn law_collecting_again_changes_nothing(
    sep: char,
    inputs: Seq<Input>,
    recursive: bool,
    again: Seq<Input>,
    recursive_again: bool,
)
    requires
        ({
            let files = first_occurrences(all_files(sep, inputs, recursive, false));
            &&& again.len() == files.len()
            &&& forall|i: int|
                0 <= i < again.len() ==> (#[trigger] again[i]).found is File && again[i].path@
                    == files[i]
        }),
    ensures
        first_occurrences(all_files(sep, again, recursive_again, false)) == first_occurrences(
            all_files(sep, inputs, recursive, false),
        ),
{
    let files = first_occurrences(all_files(sep, inputs, recursive, false));
    law_collected_files_are_convertible(sep, inputs, recursive);
    law_first_occurrences_are_unique(all_files(sep, inputs, recursive, false));
    assert forall|i: int| 0 <= i < again.len() implies (#[trigger] again[i]).found is File
        && again[i].path@ == files[i] && convertible(sep, files[i]) by {
        assert(files.contains(files[i]));
    }
    lemma_named_files(sep, again, files, recursive_again);
    lemma_unique_stays(files);
}

/// Whether an input offers a file: it is that file, or where directories are searched, it is a directory
/// with that file somewhere below it.
pub open spec fn offers(input: Input, recursive: bool, path: Seq<char>) -> bool {
    match input.found {
        Found::File => input.path@ == path,
        Found::Directory(files) => recursive && exists|i: int|
            0 <= i < files@.len() && (#[trigger] files@[i])@ == path,
        _ => false,
    }
}

/// Whether a path has one of the eight extensions, in either case, of what can be converted.
pub open spec fn has_known_format(sep: char, path: Seq<char>) -> bool {
    let ext = paths::path_extension(sep, path);
    ext == "jpg"@ || ext == "jpeg"@ || ext == "png"@ || ext == "webp"@ || ext == "avif"@ || ext
        == "gif"@ || ext == "bmp"@ || ext == "tiff"@
}

/// A request works on exactly the files that its inputs offer and that have a known format, on each of
/// them once.
pub proof fn law_requests_take_what_is_offered(
    paths: &NativePaths,
    inputs: &Vec<Input>,
    recursive: bool,
    files: Vec<String>,
)
    requires
        call_ensures(collect_convert_files, (paths, inputs, recursive), files),
    ensures
        forall|path: Seq<char>| #[trigger]
            naming::texts(files@).contains(path) <==> has_known_format(paths.sep(), path) && exists|
                k: int,
            |
                0 <= k < inputs@.len() && #[trigger] offers(inputs@[k], recursive, path),
        naming::texts(files@).no_duplicates(),
{
    let all = all_files(paths.sep(), inputs@, recursive, false);
    law_first_occurrences_are_unique(all);
    assert forall|path: Seq<char>| #[trigger]
        naming::texts(files@).contains(path) <==> has_known_format(paths.sep(), path) && exists|
            k: int,
        |
            0 <= k < inputs@.len() && #[trigger] offers(inputs@[k], recursive, path) by {
        lemma_offered(paths.sep(), inputs@, recursive, false, path);
        assert(all.contains(path) <==> first_occurrences(all).contains(path));
    }
}

/// The command line works on exactly the files that its inputs offer, those below a directory only where
/// they have a known format. It takes its inputs one after the other, in their order: what it takes of
/// some of them does not depend on the others.
pub proof fn law_the_command_line_takes_what_is_offered(
    paths: &NativePaths,
    inputs: &Vec<Input>,
    more: &Vec<Input>,
    both: &Vec<Input>,
    recursive: bool,
    files: Vec<String>,
    more_files: Vec<String>,
    both_files: Vec<String>,
)
    requires
        call_ensures(collect_cli_files, (paths, inputs, recursive), files),
        call_ensures(collect_cli_files, (paths, more, recursive), more_files),
        call_ensures(collect_cli_files, (paths, both, recursive), both_files),
        both@ == inputs@ + more@,
    ensures
        naming::texts(both_files@) == naming::texts(files@) + naming::texts(more_files@),
        forall|path: Seq<char>| #[trigger]
            naming::texts(files@).contains(path) <==> exists|k: int|
                0 <= k < inputs@.len() && #[trigger] offers(inputs@[k], recursive, path) && (
                inputs@[k].found is File || has_known_format(paths.sep(), path)),
        inputs@.len() == 1 && inputs@[0].found is File ==> naming::texts(files@) == seq![
            inputs@[0].path@,
        ],
        inputs@.len() == 1 && recursive ==> (inputs@[0].found matches Found::Directory(list) ==> (
        forall|i: int|
            0 <= i < list@.len() ==> has_known_format(paths.sep(), (#[trigger] list@[i])@))
            ==> naming::texts(files@) == naming::texts(list@)),
{
    lemma_files_add_up(paths.sep(), inputs@, more@, recursive, true);
    assert forall|path: Seq<char>| #[trigger]
        naming::texts(files@).contains(path) <==> exists|k: int|
            0 <= k < inputs@.len() && #[trigger] offers(inputs@[k], recursive, path) && (
            inputs@[k].found is File || has_known_format(paths.sep(), path)) by {
        lemma_offered(paths.sep(), inputs@, recursive, true, path);
    }
    if inputs@.len() == 1 {
        reveal_with_fuel(all_files, 2);
        assert(inputs@.drop_last() =~= seq![]);
        assert(inputs@.last() == inputs@[0]);
        let own = input_files(paths.sep(), inputs@[0], recursive, true);
        assert(Seq::<Seq<char>>::empty() + own =~= own);
        if let Found::Directory(list) = inputs@[0].found {
            if recursive && (forall|i: int|
                0 <= i < list@.len() ==> has_known_format(paths.sep(), (#[trigger] list@[i])@)) {
                let pred = |path: Seq<char>| convertible(paths.sep(), path);
                let names = naming::texts(list@);
                assert forall|i: int| 0 <= i < names.len() implies pred(#[trigger] names[i]) by {
                    assert(has_known_format(paths.sep(), list@[i]@));
                }
                lemma_filter_keeps_all(names, pred);
            }
        }
    }
}

/// A filter that nothing fails leaves a list as it is.
proof fn lemma_filter_keeps_all(list: Seq<Seq<char>>, pred: spec_fn(Seq<char>) -> bool)
    requires
        forall|i: int| 0 <= i < list.len() ==> pred(#[trigger] list[i]),
    ensures
        list.filter(pred) == list,
    decreases list.len(),
{
    reveal(Seq::filter);
    if list.len() > 0 {
        let short = list.drop_last();
        assert forall|i: int| 0 <= i < short.len() implies pred(#[trigger] short[i]) by {
            assert(short[i] == list[i]);
        }
        lemma_filter_keeps_all(short, pred);
        assert(pred(list[list.len() - 1]));
        assert(short.push(list.last()) =~= list);
    } else {
        assert(list.filter(pred) =~= list);
    }
}

/// What is among the files of all inputs is what one of them offers.
proof fn lemma_offered(
    sep: char,
    inputs: Seq<Input>,
    recursive: bool,
    any_format: bool,
    path: Seq<char>,
)
    ensures
        all_files(sep, inputs, recursive, any_format).contains(path) <==> exists|k: int|
            0 <= k < inputs.len() && #[trigger] offers(inputs[k], recursive, path) && ((any_format
                && inputs[k].found is File) || convertible(sep, path)),
    decreases inputs.len(),
{
    if inputs.len() > 0 {
        let before = inputs.drop_last();
        lemma_offered(sep, before, recursive, any_format, path);
        let head = all_files(sep, before, recursive, any_format);
        let last = input_files(sep, inputs.last(), recursive, any_format);
        let all = all_files(sep, inputs, recursive, any_format);
        lemma_offered_by_one(sep, inputs.last(), recursive, any_format, path);
        if head.contains(path) {
            let i = choose|i: int| 0 <= i < head.len() && head[i] == path;
            assert(all[i] == path);
            let k = choose|k: int|
                0 <= k < before.len() && #[trigger] offers(before[k], recursive, path) && ((
                any_format && before[k].found is File) || convertible(sep, path));
            assert(inputs[k] == before[k]);
            assert(offers(inputs[k], recursive, path));
        }
        if last.contains(path) {
            let i = choose|i: int| 0 <= i < last.len() && last[i] == path;
            assert(all[head.len() + i] == path);
            assert(offers(inputs[inputs.len() - 1], recursive, path));
        }
        if all.contains(path) {
            let i = choose|i: int| 0 <= i < all.len() && all[i] == path;
            if i < head.len() {
                assert(head[i] == path);
            } else {
                assert(last[i - head.len()] == path);
            }
        }
        if exists|k: int|
            0 <= k < inputs.len() && #[trigger] offers(inputs[k], recursive, path) && ((any_format
                && inputs[k].found is File) || convertible(sep, path)) {
            let k = choose|k: int|
                0 <= k < inputs.len() && #[trigger] offers(inputs[k], recursive, path) && ((
                any_format && inputs[k].found is File) || convertible(sep, path));
            if k < before.len() {
                assert(before[k] == inputs[k]);
                assert(offers(before[k], recursive, path));
                assert(head.contains(path));
            } else {
                assert(last.contains(path));
            }
        }
    }
}

/// What is among the files of an input is what it offers.
proof fn lemma_offered_by_one(
    sep: char,
    input: Input,
    recursive: bool,
    any_format: bool,
    path: Seq<char>,
)
    ensures
        input_files(sep, input, recursive, any_format).contains(path) <==> offers(
            input,
            recursive,
            path,
        ) && ((any_format && input.found is File) || convertible(sep, path)),
{
    let own = input_files(sep, input, recursive, any_format);
    match input.found {
        Found::Directory(files) => {
            if recursive {
                let pred = |p: Seq<char>| convertible(sep, p);
                let names = naming::texts(files@);
                if own.contains(path) {
                    let i = choose|i: int| 0 <= i < own.len() && own[i] == path;
                    names.lemma_filter_pred(pred, i);
                    assert(pred(own[i]));
                    names.lemma_filter_contains_rev(pred, path);
                    let j = choose|j: int| 0 <= j < names.len() && names[j] == path;
                    assert(files@[j]@ == path);
                }
                if offers(input, recursive, path) && convertible(sep, path) {
                    let j = choose|j: int| 0 <= j < files@.len() && (#[trigger] files@[j])@ == path;
                    assert(names[j] == path);
                    names.lemma_filter_contains(pred, j);
                    assert(own.contains(path));
                }
            }
        },
        Found::File => {
            if own.len() > 0 {
                assert(own[0] == input.path@);
            }
        },
        _ => {},
    }
}

/// An extension is supported exactly where it is one of eight.
pub proof fn law_eight_formats_are_supported(ext: &str, yes: bool)
    requires
        call_ensures(is_supported, (ext,), yes),
    ensures
        yes <==> ext@ == "jpg"@ || ext@ == "jpeg"@ || ext@ == "png"@ || ext@ == "webp"@ || ext@
            == "avif"@ || ext@ == "gif"@ || ext@ == "bmp"@ || ext@ == "tiff"@,
{
}

/// The files of a request come in the order of its inputs: what some inputs give comes first, and as
/// they give it, whatever further inputs there are. The files below a directory come in the order in
/// which they were met.
pub proof fn law_requests_take_files_in_order(
    paths: &NativePaths,
    inputs: &Vec<Input>,
    more: &Vec<Input>,
    recursive: bool,
    files: Vec<String>,
    more_files: Vec<String>,
)
    requires
        call_ensures(collect_convert_files, (paths, inputs, recursive), files),
        call_ensures(collect_convert_files, (paths, more, recursive), more_files),
        inputs@.is_prefix_of(more@),
    ensures
        naming::texts(files@).is_prefix_of(naming::texts(more_files@)),
        inputs@.len() == 1 && recursive ==> (inputs@[0].found matches Found::Directory(list) ==> (
        naming::texts(list@).no_duplicates() && forall|i: int|
            0 <= i < list@.len() ==> has_known_format(paths.sep(), (#[trigger] list@[i])@))
            ==> naming::texts(files@) == naming::texts(list@)),
        inputs@.len() == 1 && inputs@[0].found is File && has_known_format(
            paths.sep(),
            inputs@[0].path@,
        ) ==> naming::texts(files@) == seq![inputs@[0].path@],
{
    let rest = more@.skip(inputs@.len() as int);
    assert(more@ =~= inputs@ + rest);
    lemma_files_add_up(paths.sep(), inputs@, rest, recursive, false);
    let (head, tail) = (
        all_files(paths.sep(), inputs@, recursive, false),
        all_files(paths.sep(), rest, recursive, false),
    );
    lemma_first_come_first(head, tail);
    if inputs@.len() == 1 {
        reveal_with_fuel(all_files, 2);
        assert(inputs@.drop_last() =~= seq![]);
        assert(inputs@.last() == inputs@[0]);
        let own = input_files(paths.sep(), inputs@[0], recursive, false);
        assert(Seq::<Seq<char>>::empty() + own =~= own);
        match inputs@[0].found {
            Found::Directory(list) => {
                let names = naming::texts(list@);
                if recursive && names.no_duplicates() && (forall|i: int|
                    0 <= i < list@.len() ==> has_known_format(
                        paths.sep(),
                        (#[trigger] list@[i])@,
                    )) {
                    let pred = |path: Seq<char>| convertible(paths.sep(), path);
                    assert forall|i: int| 0 <= i < names.len() implies pred(
                        #[trigger] names[i],
                    ) by {
                        assert(has_known_format(paths.sep(), list@[i]@));
                    }
                    lemma_filter_keeps_all(names, pred);
                    lemma_unique_stays(names);
                }
            },
            Found::File => {
                if convertible(paths.sep(), inputs@[0].path@) {
                    lemma_unique_stays(own);
                }
            },
            _ => {},
        }
    }
}

/// First occurrences of a list come first among those of a longer one.
proof fn lemma_first_come_first(list: Seq<Seq<char>>, more: Seq<Seq<char>>)
    ensures
        first_occurrences(list).is_prefix_of(first_occurrences(list + more)),
    decreases more.len(),
{
    let first = first_occurrences(list);
    if more.len() > 0 {
        lemma_first_come_first(list, more.drop_last());
        assert((list + more).drop_last() =~= list + more.drop_last());
        let before = first_occurrences(list + more.drop_last());
        let after = first_occurrences(list + more);
        assert(first =~= before.subrange(0, first.len() as int));
        assert(first =~= after.subrange(0, first.len() as int));
    } else {
        assert(list + more =~= list);
        assert(first =~= first.subrange(0, first.len() as int));
    }
}

} // verus!
