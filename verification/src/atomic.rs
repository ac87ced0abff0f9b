//! Writing a file so that it is there whole or not at all.
use vstd::prelude::*;
use crate::paths;
use crate::paths::NativePaths;
use crate::text;

verus! {

/// Where a file is put together before it takes its name.
#[derive(Debug)]
pub struct TempFile {
    /// The directory of the file, which is that of the target.
    pub dir: String,
    pub path: String,
}

/// The name under which a file is put together: it holds the name of the target, the number of the
/// process, and a number that the process uses once.
pub open spec fn temp_name(name: Seq<char>, process: nat, serial: nat) -> Seq<char> {
    "."@ + name + "."@ + text::digits(process) + "."@ + text::digits(serial) + ".tmp"@
}

/// The directory in which a file is put together, and its name there, for a target that lies in
/// `dir` under `name`, if it has both.
pub fn temp_parts(dir: Option<String>, name: Option<String>, process: u32, serial: u64) -> (parts:
    Result<(String, String), String>)
    ensures
        match parts {
            Ok((directory, file)) => {
                &&& dir is Some && name is Some
                &&& directory == dir->0
                &&& file@ == temp_name(name->0@, process as nat, serial as nat)
            },
            Err(message) => if dir is None {
                message@ == "invalid path"@
            } else {
                name is None && message@ == "invalid file name"@
            },
        },
{
    match (dir, name) {
        (Some(dir), Some(name)) => {
            let mut file = ".".to_owned();
            file.append(name.as_str());
            file.append(".");
            text::push_digits(&mut file, process as u128);
            file.append(".");
            text::push_digits(&mut file, serial as u128);
            file.append(".tmp");
            Ok((dir, file))
        },
        (None, _) => Err("invalid path".to_owned()),
        (Some(_), None) => Err("invalid file name".to_owned()),
    }
}

/// Where a file is put together: beside the target.
pub fn temp_file(paths: &NativePaths, target: &str, process: u32, serial: u64) -> (temp: Result<
    TempFile,
    String,
>)
    ensures
        match temp {
            Ok(temp) => {
                let dir = paths::parent_of(paths.sep(), target@);
                let name = paths::file_name_of(paths.sep(), target@);
                &&& dir is Some && name is Some
                &&& temp.dir@ == dir->0
                &&& temp.path@ == paths::joined(
                    paths.sep(),
                    dir->0,
                    temp_name(name->0, process as nat, serial as nat),
                )
            },
            Err(message) => if paths::parent_of(paths.sep(), target@) is None {
                message@ == "invalid path"@
            } else {
                paths::file_name_of(paths.sep(), target@) is None && message@
                    == "invalid file name"@
            },
        },
{
    match temp_parts(paths.parent(target), paths.file_name(target), process, serial) {
        Ok((dir, name)) => {
            let path = paths.join(dir.as_str(), name.as_str());
            Ok(TempFile { dir, path })
        },
        Err(message) => Err(message),
    }
}

/// What is to be done next to write a file.
#[derive(Clone, Copy, Debug, PartialEq, Eq, Structural)]
pub enum WriteStep {
    /// Create the temporary file.
    Create,
    /// Write the bytes to it.
    Fill,
    /// Have it put on the disk.
    Sync,
    /// Give it the target's name.
    Rename,
    /// Remove it.
    Remove,
    /// Have the directory put on the disk.
    SyncDirectory,
    /// Nothing.
    Done,
}

/// The writing of a file: what is to be done next, and what has gone wrong, if something has.
pub struct AtomicWrite {
    pub step: WriteStep,
    pub error: Option<String>,
}

/// The step that follows another one, which has gone well or not.
pub open spec fn next_step(step: WriteStep, well: bool) -> WriteStep {
    match step {
        WriteStep::Create => if well {
            WriteStep::Fill
        } else {
            WriteStep::Done
        },
        WriteStep::Fill => if well {
            WriteStep::Sync
        } else {
            WriteStep::Done
        },
        WriteStep::Sync => if well {
            WriteStep::Rename
        } else {
            WriteStep::Done
        },
        WriteStep::Rename => if well {
            WriteStep::SyncDirectory
        } else {
            WriteStep::Remove
        },
        _ => WriteStep::Done,
    }
}

/// Whether the target cannot be there whole where this step goes wrong.
pub open spec fn essential(step: WriteStep) -> bool {
    step == WriteStep::Create || step == WriteStep::Fill || step == WriteStep::Sync || step
        == WriteStep::Rename
}

impl AtomicWrite {
    /// A file of which nothing was written.
    pub fn new() -> (write: AtomicWrite)
        ensures
            write.step == WriteStep::Create,
            write.error is None,
    {
        AtomicWrite { step: WriteStep::Create, error: None }
    }

    /// Takes in how the step has gone. What goes wrong up to the renaming is an error; whether the
    /// temporary file could be removed, or the directory put on the disk, makes no difference.
    pub fn advance(&mut self, result: Result<(), String>)
        ensures
            final(self).step == next_step(old(self).step, result is Ok),
            match result {
                Err(message) if essential(old(self).step) => paths::text_of(final(self).error)
                    == Some(message@),
                _ => final(self).error == old(self).error,
            },
    {
        let well: bool = result.is_ok();
        match self.step {
            WriteStep::Create | WriteStep::Fill | WriteStep::Sync | WriteStep::Rename => {
                if let Err(message) = result {
                    self.error = Some(message);
                }
            },
            _ => {},
        }
        self.step = match self.step {
            WriteStep::Create if well => WriteStep::Fill,
            WriteStep::Fill if well => WriteStep::Sync,
            WriteStep::Sync if well => WriteStep::Rename,
            WriteStep::Rename => if well {
                WriteStep::SyncDirectory
            } else {
                WriteStep::Remove
            },
            _ => WriteStep::Done,
        };
    }

    /// Whether the file was written.
    pub fn result(self) -> (result: Result<(), String>)
        ensures
            match result {
                Ok(()) => self.error is None,
                Err(message) => self.error == Some(message),
            },
    {
        match self.error {
            Some(message) => Err(message),
            None => Ok(()),
        }
    }
}

/// The step and whether an essential one has gone wrong, after steps that have gone well or not.
pub open spec fn after_steps(outcomes: Seq<bool>) -> (WriteStep, bool)
    decreases outcomes.len(),
{
    if outcomes.len() == 0 {
        (WriteStep::Create, false)
    } else {
        let (step, wrong) = after_steps(outcomes.drop_last());
        (next_step(step, outcomes.last()), wrong || (essential(step) && !outcomes.last()))
    }
}

/// The target gets its name only from a temporary file that was created, filled and put on the disk
/// before; and the write is reported as done exactly where that renaming has gone well too.
pub proof fn law_targets_are_written_whole(outcomes: Seq<bool>)
    ensures
        after_steps(outcomes).0 == WriteStep::Rename <==> outcomes =~= seq![true, true, true],
        after_steps(outcomes).0 == WriteStep::Done && !after_steps(outcomes).1 ==> outcomes.len() >= 5
            && outcomes.take(4) =~= seq![true, true, true, true],
        outcomes.len() >= 5 && outcomes.take(4) =~= seq![true, true, true, true] ==> after_steps(
            outcomes,
        ) == (WriteStep::Done, false),
    decreases outcomes.len(),
{
    reveal_with_fuel(after_steps, 6);
    if outcomes.len() > 5 {
        let before = outcomes.drop_last();
        law_targets_are_written_whole(before);
        assert(before.take(4) =~= outcomes.take(4));
        lemma_done_stays(before);
    } else {
        lemma_short_steps(outcomes);
    }
}

/// After five steps nothing is left to do.
proof fn lemma_done_stays(outcomes: Seq<bool>)
    requires
        outcomes.len() >= 5,
    ensures
        after_steps(outcomes).0 == WriteStep::Done,
    decreases outcomes.len(),
{
    reveal_with_fuel(after_steps, 6);
    if outcomes.len() > 5 {
        lemma_done_stays(outcomes.drop_last());
    }
}

/// Where up to five steps lead.
proof fn lemma_short_steps(outcomes: Seq<bool>)
    requires
        outcomes.len() <= 5,
    ensures
        after_steps(outcomes).0 == WriteStep::Rename <==> outcomes =~= seq![true, true, true],
        after_steps(outcomes).0 == WriteStep::Done && !after_steps(outcomes).1 <==> outcomes.len()
            == 5 && outcomes.take(4) =~= seq![true, true, true, true],
{
    reveal_with_fuel(after_steps, 6);
    if outcomes.len() == 3 {
        assert(outcomes =~= seq![outcomes[0], outcomes[1], outcomes[2]]);
    }
    if outcomes.len() == 5 {
        assert(outcomes.take(4) =~= seq![outcomes[0], outcomes[1], outcomes[2], outcomes[3]]);
    }
}

/// Two texts that are equal with digits behind a dot at their ends have the same digits there and
/// the same text before.
proof fn lemma_split_at_dot(a: Seq<char>, x: Seq<char>, b: Seq<char>, y: Seq<char>)
    requires
        a + seq!['.'] + x == b + seq!['.'] + y,
        text::all_digits(x),
        text::all_digits(y),
    ensures
        a == b,
        x == y,
{
    let s = a + seq!['.'] + x;
    let t = b + seq!['.'] + y;
    assert(s == t);
    assert(t.len() == b.len() + 1 + y.len());
    assert(s.len() == a.len() + 1 + x.len());
    assert(s[a.len() as int] == '.');
    assert(t[b.len() as int] == '.');
    if a.len() < b.len() {
        let k = b.len() - a.len() - 1;
        assert(s[b.len() as int] == x[k]);
    } else if b.len() < a.len() {
        let k = a.len() - b.len() - 1;
        assert(t[a.len() as int] == y[k]);
    }
    assert(a =~= s.take(a.len() as int));
    assert(b =~= t.take(b.len() as int));
    assert(x =~= s.skip(a.len() as int + 1));
    assert(y =~= t.skip(b.len() as int + 1));
}

/// Writers never share a temporary file: two of them have the same name only where the targets have
/// the same name and both the process and its number are the same.
pub proof fn law_temp_names_do_not_collide(
    name: Seq<char>,
    process: nat,
    serial: nat,
    other_name: Seq<char>,
    other_process: nat,
    other_serial: nat,
)
    requires
        temp_name(name, process, serial) == temp_name(other_name, other_process, other_serial),
    ensures
        name == other_name,
        process == other_process,
        serial == other_serial,
{
    reveal_strlit(".");
    reveal_strlit(".tmp");
    let dot = seq!['.'];
    assert("."@ =~= dot);
    let (p, s) = (text::digits(process), text::digits(serial));
    let (q, r) = (text::digits(other_process), text::digits(other_serial));
    text::lemma_digits_value(process);
    text::lemma_digits_value(serial);
    text::lemma_digits_value(other_process);
    text::lemma_digits_value(other_serial);
    let left = dot + name + dot + p;
    let right = dot + other_name + dot + q;
    let whole = temp_name(name, process, serial);
    assert(whole.take(whole.len() - 4) =~= left + dot + s);
    assert(whole.take(whole.len() - 4) =~= right + dot + r);
    lemma_split_at_dot(left, s, right, r);
    lemma_split_at_dot(dot + name, p, dot + other_name, q);
    assert(name =~= (dot + name).skip(1));
    assert(other_name =~= (dot + other_name).skip(1));
}

/// The number that follows another one; after the last, the numbers begin again.
pub open spec fn following(n: u64) -> u64 {
    if n == u64::MAX {
        0
    } else {
        (n + 1) as u64
    }
}

/// The numbers that a process gives its temporary files.
pub struct TempSerials {
    pub next: u64,
}

impl TempSerials {
    /// The next number.
    pub fn take(&mut self) -> (serial: u64)
        ensures
            serial == old(self).next,
            final(self).next == following(old(self).next),
    {
        let serial: u64 = self.next;
        self.next = if serial == u64::MAX {
            0
        } else {
            serial + 1
        };
        serial
    }
}

/// The number that is taken after `taken` others, where `first` is the first of them.
pub open spec fn serial_after(first: u64, taken: nat) -> u64
    decreases taken,
{
    if taken == 0 {
        first
    } else {
        following(serial_after(first, (taken - 1) as nat))
    }
}

/// What the numbers come to that are taken one after the other.
proof fn lemma_serials_count(first: u64, taken: nat)
    ensures
        serial_after(first, taken) == (first + taken) % 0x1_0000_0000_0000_0000,
    decreases taken,
{
    if taken > 0 {
        lemma_serials_count(first, (taken - 1) as nat);
    }
}

/// A process uses no number for two temporary files, however many it makes, as long as they are no
/// more than there are numbers; so no two of them have the same name, whatever their targets are.
pub proof fn law_temporary_files_are_never_shared(
    first: u64,
    taken: nat,
    other_taken: nat,
    name: Seq<char>,
    other_name: Seq<char>,
    process: nat,
)
    requires
        taken < other_taken,
        other_taken - taken <= u64::MAX,
    ensures
        serial_after(first, taken) != serial_after(first, other_taken),
        temp_name(name, process, serial_after(first, taken) as nat) != temp_name(
            other_name,
            process,
            serial_after(first, other_taken) as nat,
        ),
{
    lemma_serials_count(first, taken);
    lemma_serials_count(first, other_taken);
    let (a, b) = (serial_after(first, taken) as nat, serial_after(first, other_taken) as nat);
    if temp_name(name, process, a) == temp_name(other_name, process, b) {
        law_temp_names_do_not_collide(name, process, a, other_name, process, b);
    }
}

/// One of several writers at work: what it writes, where to, and where it puts that together.
pub struct Writer {
    pub temp: Seq<char>,
    pub target: Seq<char>,
    pub bytes: Seq<u8>,
}

/// A step that one of the writers takes, and how it goes. Where the temporary file could not be
/// filled, `debris` is what it holds.
pub struct Turn {
    pub writer: int,
    pub well: bool,
    pub debris: Seq<u8>,
}

/// The files with what they hold, and for each writer its next step and whether an essential one has
/// gone wrong.
pub struct Workshop {
    pub files: Map<Seq<char>, Seq<u8>>,
    pub steps: Seq<WriteStep>,
    pub wrong: Seq<bool>,
}

impl Workshop {
    /// The files before any of `writers` writers has begun.
    pub open spec fn opened(files: Map<Seq<char>, Seq<u8>>, writers: nat) -> Workshop {
        Workshop {
            files,
            steps: Seq::new(writers, |i: int| WriteStep::Create),
            wrong: Seq::new(writers, |i: int| false),
        }
    }

    /// The files after the step of a writer.
    pub open spec fn files_after(self, writer: Writer, step: WriteStep, turn: Turn) -> Map<
        Seq<char>,
        Seq<u8>,
    > {
        match step {
            WriteStep::Create if turn.well => self.files.insert(writer.temp, seq![]),
            WriteStep::Fill => self.files.insert(
                writer.temp,
                if turn.well {
                    writer.bytes
                } else {
                    turn.debris
                },
            ),
            WriteStep::Rename if turn.well => self.files.remove(writer.temp).insert(
                writer.target,
                self.files[writer.temp],
            ),
            WriteStep::Remove if turn.well => self.files.remove(writer.temp),
            _ => self.files,
        }
    }

    /// All of it after the step of a writer.
    pub open spec fn after(self, writers: Seq<Writer>, turn: Turn) -> Workshop {
        let step = self.steps[turn.writer];
        Workshop {
            files: self.files_after(writers[turn.writer], step, turn),
            steps: self.steps.update(turn.writer, next_step(step, turn.well)),
            wrong: self.wrong.update(
                turn.writer,
                self.wrong[turn.writer] || (essential(step) && !turn.well),
            ),
        }
    }

    /// All of it after steps of the writers, in whatever order they come.
    pub open spec fn after_turns(self, writers: Seq<Writer>, turns: Seq<Turn>) -> Workshop
        decreases turns.len(),
    {
        if turns.len() == 0 {
            self
        } else {
            self.after_turns(writers, turns.drop_last()).after(writers, turns.last())
        }
    }

    /// Whether a file holds the whole of what one of the writers writes to it.
    pub open spec fn is_whole(self, writers: Seq<Writer>, path: Seq<char>) -> bool {
        self.files.contains_key(path) && exists|i: int|
            0 <= i < writers.len() && (#[trigger] writers[i]).target == path && self.files[path]
                == writers[i].bytes
    }

    /// Whether a file is there or not, and holds what it does, as in another state of the files.
    pub open spec fn is_as_in(self, files: Map<Seq<char>, Seq<u8>>, path: Seq<char>) -> bool {
        &&& self.files.contains_key(path) <==> files.contains_key(path)
        &&& files.contains_key(path) ==> self.files[path] == files[path]
    }

    /// Whether a writer says that it has written its file.
    pub open spec fn has_written(self, i: int) -> bool {
        self.steps[i] == WriteStep::Done && !self.wrong[i]
    }
}

/// Whether no two writers share a temporary file, and none is another one's target.
pub open spec fn keep_apart(writers: Seq<Writer>) -> bool {
    &&& forall|i: int, j: int|
        0 <= i < j < writers.len() ==> (#[trigger] writers[i]).temp != (#[trigger] writers[j]).temp
    &&& forall|i: int, j: int|
        0 <= i < writers.len() && 0 <= j < writers.len() ==> (#[trigger] writers[i]).temp != (
        #[trigger] writers[j]).target
}

/// Whether a path is that of a temporary file.
pub open spec fn is_temp(writers: Seq<Writer>, path: Seq<char>) -> bool {
    exists|i: int| 0 <= i < writers.len() && (#[trigger] writers[i]).temp == path
}

/// What writers that keep apart keep true.
spec fn in_order(
    shop: Workshop,
    writers: Seq<Writer>,
    files: Map<Seq<char>, Seq<u8>>,
) -> bool {
    &&& shop.steps.len() == writers.len()
    &&& shop.wrong.len() == writers.len()
    &&& forall|i: int|
        0 <= i < writers.len() && (#[trigger] shop.steps[i] == WriteStep::Sync || shop.steps[i]
            == WriteStep::Rename) ==> shop.files.contains_key(writers[i].temp)
            && shop.files[writers[i].temp] == writers[i].bytes
    &&& forall|i: int|
        0 <= i < writers.len() && #[trigger] shop.steps[i] == WriteStep::Remove ==> shop.wrong[i]
    &&& forall|i: int|
        0 <= i < writers.len() && (#[trigger] shop.steps[i] == WriteStep::SyncDirectory
            || shop.has_written(i)) ==> shop.is_whole(writers, writers[i].target)
    &&& forall|path: Seq<char>|
        !is_temp(writers, path) ==> shop.is_as_in(files, path) || #[trigger] shop.is_whole(
            writers,
            path,
        )
}

/// A step of a writer keeps true what writers that keep apart keep true.
proof fn lemma_stays_in_order(
    shop: Workshop,
    writers: Seq<Writer>,
    files: Map<Seq<char>, Seq<u8>>,
    turn: Turn,
)
    requires
        keep_apart(writers),
        in_order(shop, writers, files),
        0 <= turn.writer < writers.len(),
    ensures
        in_order(shop.after(writers, turn), writers, files),
{
    let k = turn.writer;
    let next = shop.after(writers, turn);
    let step = shop.steps[k];
    let w = writers[k];
    assert(is_temp(writers, w.temp));
    assert forall|path: Seq<char>| #[trigger]
        shop.is_whole(writers, path) && !is_temp(writers, path) implies next.is_whole(
        writers,
        path,
    ) by {
        if path == w.target && step == WriteStep::Rename && turn.well {
            assert(next.files[path] == writers[k].bytes);
        } else {
            let i = choose|i: int|
                0 <= i < writers.len() && (#[trigger] writers[i]).target == path && shop.files[path]
                    == writers[i].bytes;
            assert(next.files[path] == writers[i].bytes);
        }
    }
    assert forall|path: Seq<char>| !is_temp(writers, path) implies next.is_as_in(files, path)
        || #[trigger] next.is_whole(writers, path) by {
        assert(shop.is_as_in(files, path) || shop.is_whole(writers, path));
        if path == w.target && step == WriteStep::Rename && turn.well {
            assert(next.files[path] == writers[k].bytes);
        }
    }
    assert forall|i: int| 0 <= i < writers.len() implies !is_temp(
        writers,
        (#[trigger] writers[i]).target,
    ) by {}
    assert forall|i: int|
        0 <= i < writers.len() && (#[trigger] next.steps[i] == WriteStep::SyncDirectory
            || next.has_written(i)) implies next.is_whole(writers, writers[i].target) by {
        if i == k && step == WriteStep::Rename {
            assert(next.files[w.target] == writers[k].bytes);
        } else {
            assert(shop.steps[i] == WriteStep::SyncDirectory || shop.has_written(i));
            assert(shop.is_whole(writers, writers[i].target));
        }
    }
    assert forall|i: int|
        0 <= i < writers.len() && (#[trigger] next.steps[i] == WriteStep::Sync || next.steps[i]
            == WriteStep::Rename) implies next.files.contains_key(writers[i].temp)
        && next.files[writers[i].temp] == writers[i].bytes by {
        if i != k {
            assert(shop.steps[i] == next.steps[i]);
            assert(writers[i].temp != writers[k].temp);
            assert(writers[i].temp != writers[k].target);
        }
    }
}

/// Any number of writers may write at the same time, even to the same file: as long as they share no
/// temporary file, every file but those is at every moment as it was before they began, or holds the
/// whole of what one of them writes to it, never a part or a mixture; and once a writer says that it
/// has written its file, that holds the whole of what it or another one writes to it.
pub proof fn law_files_are_never_torn(
    files: Map<Seq<char>, Seq<u8>>,
    writers: Seq<Writer>,
    turns: Seq<Turn>,
)
    requires
        keep_apart(writers),
        forall|t: int| 0 <= t < turns.len() ==> 0 <= (#[trigger] turns[t]).writer < writers.len(),
    ensures
        ({
            let shop = Workshop::opened(files, writers.len()).after_turns(writers, turns);
            &&& forall|path: Seq<char>|
                !is_temp(writers, path) ==> shop.is_as_in(files, path) || #[trigger] shop.is_whole(
                    writers,
                    path,
                )
            &&& forall|i: int|
                0 <= i < writers.len() && #[trigger] shop.has_written(i) ==> shop.is_whole(
                    writers,
                    writers[i].target,
                )
        }),
{
    lemma_turns_keep_order(files, writers, turns);
    let shop = Workshop::opened(files, writers.len()).after_turns(writers, turns);
    assert forall|i: int|
        0 <= i < writers.len() && #[trigger] shop.has_written(i) implies shop.is_whole(
        writers,
        writers[i].target,
    ) by {
        assert(shop.steps[i] == WriteStep::Done);
    }
}

/// Steps of the writers keep true what writers that keep apart keep true.
proof fn lemma_turns_keep_order(
    files: Map<Seq<char>, Seq<u8>>,
    writers: Seq<Writer>,
    turns: Seq<Turn>,
)
    requires
        keep_apart(writers),
        forall|t: int| 0 <= t < turns.len() ==> 0 <= (#[trigger] turns[t]).writer < writers.len(),
    ensures
        in_order(
            Workshop::opened(files, writers.len()).after_turns(writers, turns),
            writers,
            files,
        ),
    decreases turns.len(),
{
    let opened = Workshop::opened(files, writers.len());
    if turns.len() > 0 {
        let before = turns.drop_last();
        assert forall|t: int| 0 <= t < before.len() implies 0 <= (#[trigger] before[t]).writer
            < writers.len() by {
            assert(before[t] == turns[t]);
        }
        lemma_turns_keep_order(files, writers, before);
        assert(turns.last() == turns[turns.len() - 1]);
        lemma_stays_in_order(
            opened.after_turns(writers, before),
            writers,
            files,
            turns.last(),
        );
    } else {
        assert forall|path: Seq<char>| !is_temp(writers, path) implies opened.is_as_in(files, path)
            || #[trigger] opened.is_whole(writers, path) by {}
    }
}

/// What follows each step of writing a file: while all goes well, the steps come in one order and end
/// with the directory. What goes wrong before the renaming ends the writing at once; a temporary file is
/// removed exactly where it could not be renamed; and no step is taken twice.
pub proof fn law_steps_follow_each_other(step: WriteStep, well: bool)
    ensures
        next_step(WriteStep::Create, true) == WriteStep::Fill,
        next_step(WriteStep::Fill, true) == WriteStep::Sync,
        next_step(WriteStep::Sync, true) == WriteStep::Rename,
        next_step(WriteStep::Rename, true) == WriteStep::SyncDirectory,
        next_step(step, well) == WriteStep::Remove <==> step == WriteStep::Rename && !well,
        !well && step != WriteStep::Rename ==> next_step(step, well) == WriteStep::Done,
        step == WriteStep::Remove || step == WriteStep::SyncDirectory || step == WriteStep::Done
            ==> next_step(step, well) == WriteStep::Done,
        essential(step) <==> step == WriteStep::Create || step == WriteStep::Fill || step
            == WriteStep::Sync || step == WriteStep::Rename,
{
}

/// A temporary file is in the directory of its target, and its name is that of the target between two
/// dots, with the numbers of the process and of the file and one fixed ending behind it. Without a
/// directory, or else without a name, there is none.
pub proof fn law_temporary_files_are_beside_their_targets(
    paths: &NativePaths,
    target: &str,
    process: u32,
    serial: u64,
    temp: Result<TempFile, String>,
)
    requires
        call_ensures(temp_file, (paths, target, process, serial), temp),
    ensures
        ({
            let dir = paths::parent_of(paths.sep(), target@);
            let name = paths::file_name_of(paths.sep(), target@);
            &&& temp is Ok <==> dir is Some && name is Some
            &&& temp matches Ok(file) ==> file.dir@ == dir->0 && file.path@ == paths::joined(
                paths.sep(),
                dir->0,
                seq!['.'] + name->0 + seq!['.'] + text::digits(process as nat) + seq!['.']
                    + text::digits(serial as nat) + ".tmp"@,
            )
            &&& dir is None ==> temp is Err && temp->Err_0@ == "invalid path"@
            &&& dir is Some && name is None ==> temp is Err && temp->Err_0@ == "invalid file name"@
        }),
{
    reveal_strlit(".");
    assert("."@ =~= seq!['.']);
}

} // verus!
