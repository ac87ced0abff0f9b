//! Finding the outside programs that conversions can use.
use vstd::prelude::*;
use crate::naming;
use crate::paths;
use crate::paths::NativePaths;

verus! {

/// An outside program and where it was found, if it was.
#[derive(Debug)]
pub struct ToolPath {
    pub name: String,
    pub path: Option<String>,
}

/// The name of a program's file: on Windows it ends in `.exe`.
pub open spec fn exe_name(name: Seq<char>, windows: bool) -> Seq<char> {
    if windows {
        name + ".exe"@
    } else {
        name
    }
}

/// The name of a program's file.
pub fn tool_exe_name(name: &str, windows: bool) -> (file: String)
    ensures
        file@ == exe_name(name@, windows),
{
    let mut file = name.to_owned();
    if windows {
        file.append(".exe");
    }
    file
}

/// The directories in which to look for programs, in order: the resources and the `tools` directory
/// in them, the `tools` directory beside the running program, and on macOS where Homebrew puts
/// programs.
pub open spec fn search_dirs(
    sep: char,
    resources: Option<Seq<char>>,
    program: Option<Seq<char>>,
    macos: bool,
) -> Seq<Seq<char>> {
    let bundled = match resources {
        Some(dir) => seq![dir, paths::joined(sep, dir, "tools"@)],
        None => seq![],
    };
    let beside = match program {
        Some(file) => match paths::parent_of(sep, file) {
            Some(dir) => seq![paths::joined(sep, dir, "tools"@)],
            None => seq![],
        },
        None => seq![],
    };
    let homebrew = if macos {
        seq!["/opt/homebrew/bin"@, "/usr/local/bin"@]
    } else {
        seq![]
    };
    bundled + beside + homebrew
}

/// The files at which a program may be found, in the order in which to look.
pub open spec fn candidates(
    sep: char,
    name: Seq<char>,
    resources: Option<Seq<char>>,
    program: Option<Seq<char>>,
    windows: bool,
    macos: bool,
) -> Seq<Seq<char>> {
    search_dirs(sep, resources, program, macos).map_values(
        |dir: Seq<char>| paths::joined(sep, dir, exe_name(name, windows)),
    )
}

/// A directory, if there is one, as a list.
pub open spec fn one_or_none(dir: Option<Seq<char>>) -> Seq<Seq<char>> {
    match dir {
        Some(dir) => seq![dir],
        None => seq![],
    }
}

/// The directories in which to look for programs, in order: the resources, the directory for programs
/// in them, the one beside the running program, and on macOS where Homebrew puts programs.
pub fn listed_dirs(
    resources: &Option<String>,
    bundled: Option<String>,
    beside: Option<String>,
    macos: bool,
) -> (dirs: Vec<String>)
    ensures
        naming::texts(dirs@) == one_or_none(paths::text_of(*resources)) + one_or_none(
            paths::text_of(bundled),
        ) + one_or_none(paths::text_of(beside)) + if macos {
            seq!["/opt/homebrew/bin"@, "/usr/local/bin"@]
        } else {
            seq![]
        },
{
    let ghost goal = one_or_none(paths::text_of(*resources)) + one_or_none(paths::text_of(bundled))
        + one_or_none(paths::text_of(beside)) + if macos {
        seq!["/opt/homebrew/bin"@, "/usr/local/bin"@]
    } else {
        seq![]
    };
    let mut dirs: Vec<String> = Vec::new();
    if let Some(dir) = resources {
        dirs.push(dir.clone());
    }
    if let Some(dir) = bundled {
        dirs.push(dir);
    }
    if let Some(dir) = beside {
        dirs.push(dir);
    }
    if macos {
        dirs.push("/opt/homebrew/bin".to_owned());
        dirs.push("/usr/local/bin".to_owned());
    }
    assert(naming::texts(dirs@) =~= goal);
    dirs
}

/// The directories in which to look for programs, in order. `resources` is the application's
/// resource directory and `program` the file of the running program.
pub fn tool_search_dirs(
    paths: &NativePaths,
    resources: &Option<String>,
    program: &Option<String>,
    macos: bool,
) -> (dirs: Vec<String>)
    ensures
        naming::texts(dirs@) == search_dirs(
            paths.sep(),
            paths::text_of(*resources),
            paths::text_of(*program),
            macos,
        ),
{
    let bundled = match resources {
        Some(dir) => Some(paths.join(dir.as_str(), "tools")),
        None => None,
    };
    let beside = match program {
        Some(file) => match paths.parent(file.as_str()) {
            Some(dir) => Some(paths.join(dir.as_str(), "tools")),
            None => None,
        },
        None => None,
    };
    let dirs = listed_dirs(resources, bundled, beside, macos);
    assert(naming::texts(dirs@) =~= search_dirs(
        paths.sep(),
        paths::text_of(*resources),
        paths::text_of(*program),
        macos,
    ));
    dirs
}

/// The files at which a program may be found, in the order in which to look.
pub fn tool_candidates(
    paths: &NativePaths,
    name: &str,
    resources: &Option<String>,
    program: &Option<String>,
    windows: bool,
    macos: bool,
) -> (files: Vec<String>)
    ensures
        naming::texts(files@) == candidates(
            paths.sep(),
            name@,
            paths::text_of(*resources),
            paths::text_of(*program),
            windows,
            macos,
        ),
{
    let dirs = tool_search_dirs(paths, resources, program, macos);
    let file = tool_exe_name(name, windows);
    let mut files: Vec<String> = Vec::new();
    let mut i: usize = 0;
    while i < dirs.len()
        invariant
            i <= dirs@.len(),
            files@.len() == i,
            forall|k: int|
                0 <= k < i ==> (#[trigger] files@[k])@ == paths::joined(
                    paths.sep(),
                    dirs@[k]@,
                    file@,
                ),
        decreases dirs@.len() - i,
    {
        files.push(paths.join(dirs[i].as_str(), file.as_str()));
        i += 1;
    }
    proof {
        let all = search_dirs(
            paths.sep(),
            paths::text_of(*resources),
            paths::text_of(*program),
            macos,
        );
        assert forall|k: int| 0 <= k < dirs@.len() implies dirs@[k]@ == #[trigger] all[k] by {
            assert(naming::texts(dirs@)[k] == dirs@[k]@);
        }
        assert(naming::texts(files@) =~= candidates(
            paths.sep(),
            name@,
            paths::text_of(*resources),
            paths::text_of(*program),
            windows,
            macos,
        ));
    }
    files
}

/// Where a program is: the first candidate that exists, else what the search path gives.
pub open spec fn located(
    files: Seq<Seq<char>>,
    exists: Seq<bool>,
    on_path: Option<Seq<char>>,
) -> Option<Seq<char>>
    decreases files.len(),
{
    if files.len() == 0 {
        on_path
    } else if exists[0] {
        Some(files[0])
    } else {
        located(files.skip(1), exists.skip(1), on_path)
    }
}

/// Where a program is. `exists` tells of each candidate whether it exists, and `on_path` is what
/// the search path gives.
pub fn locate_tool(files: &Vec<String>, exists: &Vec<bool>, on_path: Option<String>) -> (path: Option<
    String,
>)
    requires
        files@.len() == exists@.len(),
    ensures
        paths::text_of(path) == located(
            naming::texts(files@),
            exists@,
            paths::text_of(on_path),
        ),
{
    let ghost all = naming::texts(files@);
    let ghost goal = located(all, exists@, paths::text_of(on_path));
    let mut i: usize = 0;
    assert(all.skip(0) =~= all);
    assert(exists@.skip(0) =~= exists@);
    while i < files.len()
        invariant
            i <= files@.len() == exists@.len(),
            all == naming::texts(files@),
            located(all.skip(i as int), exists@.skip(i as int), paths::text_of(on_path)) == goal,
            goal == located(all, exists@, paths::text_of(on_path)),
        decreases files@.len() - i,
    {
        if exists[i] {
            return Some(files[i].clone());
        }
        assert(all.skip(i as int).skip(1) =~= all.skip(i + 1));
        assert(exists@.skip(i as int).skip(1) =~= exists@.skip(i + 1));
        i += 1;
    }
    on_path
}

/// Whether no program is in a list twice.
pub open spec fn distinct_tools(list: Seq<ToolPath>) -> bool {
    forall|i: int, j: int|
        0 <= i < j < list.len() ==> (#[trigger] list[i]).name@ != (#[trigger] list[j]).name@
}

/// The outside programs that conversions can use, each where it was found: there is one, ffmpeg.
/// `exists` tells of each of its candidates whether it exists, and `on_path` is what the search
/// path gives for it.
pub fn resolve_tools(files: &Vec<String>, exists: &Vec<bool>, on_path: Option<String>) -> (tools:
    Vec<ToolPath>)
    requires
        files@.len() == exists@.len(),
    ensures
        distinct_tools(tools@),
        tools@.len() == 1,
        tools@[0].name@ == "ffmpeg"@,
        paths::text_of(tools@[0].path) == located(
            naming::texts(files@),
            exists@,
            paths::text_of(on_path),
        ),
{
    vec![ToolPath { name: "ffmpeg".to_owned(), path: locate_tool(files, exists, on_path) }]
}

/// The place of a program is a candidate that exists with none before it that does, or where none
/// exists, what the search path gives.
pub proof fn law_first_existing_candidate_wins(
    files: Seq<Seq<char>>,
    exists: Seq<bool>,
    on_path: Option<Seq<char>>,
)
    requires
        files.len() == exists.len(),
    ensures
        (forall|i: int| 0 <= i < exists.len() ==> !#[trigger] exists[i]) ==> located(
            files,
            exists,
            on_path,
        ) == on_path,
        forall|i: int|
            0 <= i < exists.len() && (#[trigger] exists[i]) && (forall|k: int|
                0 <= k < i ==> !#[trigger] exists[k]) ==> located(files, exists, on_path) == Some(
                files[i],
            ),
    decreases files.len(),
{
    if files.len() > 0 && !exists[0] {
        let rest = exists.skip(1);
        law_first_existing_candidate_wins(files.skip(1), rest, on_path);
        if forall|i: int| 0 <= i < exists.len() ==> !#[trigger] exists[i] {
            assert forall|i: int| 0 <= i < rest.len() implies !#[trigger] rest[i] by {
                assert(rest[i] == exists[i + 1]);
            }
        }
        assert forall|i: int|
            0 <= i < exists.len() && (#[trigger] exists[i]) && (forall|k: int|
                0 <= k < i ==> !#[trigger] exists[k]) implies located(files, exists, on_path)
            == Some(files[i]) by {
            assert(rest[i - 1]);
            assert forall|k: int| 0 <= k < i - 1 implies !#[trigger] rest[k] by {
                assert(rest[k] == exists[k + 1]);
            }
        }
    }
}

/// Programs are looked for in this order: in the resources, in the tools among them, in the tools beside
/// the running program, and on macOS, and only there, in the two directories of Homebrew.
pub proof fn law_programs_are_looked_for_in_order(
    paths: &NativePaths,
    name: &str,
    resources: &Option<String>,
    program: &Option<String>,
    windows: bool,
    macos: bool,
    files: Vec<String>,
)
    requires
        call_ensures(tool_candidates, (paths, name, resources, program, windows, macos), files),
    ensures
        ({
            let sep = paths.sep();
            let file = if windows {
                name@ + ".exe"@
            } else {
                name@
            };
            let first: int = if resources is Some {
                2
            } else {
                0
            };
            let own = match *program {
                Some(p) => paths::parent_of(sep, p@),
                None => None,
            };
            let second: int = first + if own is Some {
                1int
            } else {
                0int
            };
            &&& files@.len() == second + if macos {
                2int
            } else {
                0int
            }
            &&& resources matches Some(dir) ==> files@[0]@ == paths::joined(sep, dir@, file)
                && files@[1]@ == paths::joined(sep, paths::joined(sep, dir@, "tools"@), file)
            &&& own matches Some(dir) ==> files@[first]@ == paths::joined(
                sep,
                paths::joined(sep, dir, "tools"@),
                file,
            )
            &&& macos ==> files@[second]@ == paths::joined(sep, "/opt/homebrew/bin"@, file) && files@[
            second + 1]@ == paths::joined(sep, "/usr/local/bin"@, file)
        }),
{
    let view = naming::texts(files@);
    assert(view.len() == files@.len());
    assert forall|i: int| 0 <= i < files@.len() implies view[i] == (#[trigger] files@[i])@ by {}
}

} // verus!
