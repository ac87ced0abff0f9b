//! The state of the application between commands, and a batch while it runs.
use vstd::prelude::*;
use crate::collect;
use crate::collect::Input;
use crate::naming;
use crate::paths;
use crate::paths::NativePaths;
use crate::request;
use crate::request::{ConvertRequest, ConvertResult, FileProgress};
use crate::text;
use crate::tools;
use crate::tools::ToolPath;

verus! {

/// The lowest quality that a batch encodes at.
pub const MIN_QUALITY: i32 = 10;

/// The highest quality that a batch encodes at.
pub const MAX_QUALITY: i32 = 100;

/// The state of the application.
pub struct AppState {
    /// Whether a batch is running.
    pub is_converting: bool,
    /// The outside programs.
    pub tool_paths: Vec<ToolPath>,
    /// Whether the running batch is to stop.
    pub cancel_flag: bool,
    /// Whether the window may close in spite of a running batch.
    pub should_close: bool,
}

/// A batch of files while it is converted.
pub struct Batch {
    pub files: Vec<String>,
    /// How many of the files have been begun.
    pub begun: usize,
    pub quality: i32,
    /// The program that makes animations, if there is one.
    pub tool: Option<String>,
    pub stats: ConvertResult,
}

/// Where the program `name` is according to a list of programs.
pub open spec fn tool_at(list: Seq<ToolPath>, name: Seq<char>) -> Option<Seq<char>>
    decreases list.len(),
{
    if list.len() == 0 {
        None
    } else if list[0].name@ == name {
        paths::text_of(list[0].path)
    } else {
        tool_at(list.skip(1), name)
    }
}

/// `quality` moved into the range that a batch encodes at.
pub open spec fn clamped(quality: int) -> int {
    if quality < MIN_QUALITY {
        MIN_QUALITY as int
    } else if quality > MAX_QUALITY {
        MAX_QUALITY as int
    } else {
        quality
    }
}

/// `quality` moved into the range that a batch encodes at.
pub fn clamp_quality(quality: i32) -> (q: i32)
    ensures
        q == clamped(quality as int),
{
    if quality < MIN_QUALITY {
        MIN_QUALITY
    } else if quality > MAX_QUALITY {
        MAX_QUALITY
    } else {
        quality
    }
}

/// Whether two states differ at most in whether a batch is running and is to stop.
pub open spec fn same_but_for_batch(a: AppState, b: AppState) -> bool {
    a.tool_paths == b.tool_paths && a.should_close == b.should_close
}

impl AppState {
    /// Whether every outside program is listed once.
    pub open spec fn well_formed(self) -> bool {
        tools::distinct_tools(self.tool_paths@)
    }

    /// The state of an application that has just begun.
    pub fn new(tool_paths: Vec<ToolPath>) -> (state: AppState)
        requires
            tools::distinct_tools(tool_paths@),
        ensures
            state.well_formed(),
            state == (AppState {
                is_converting: false,
                tool_paths,
                cancel_flag: false,
                should_close: false,
            }),
    {
        AppState { is_converting: false, tool_paths, cancel_flag: false, should_close: false }
    }

    /// Where the program `name` is, if it was found.
    pub fn tool(&self, name: &str) -> (path: Option<String>)
        ensures
            paths::text_of(path) == tool_at(self.tool_paths@, name@),
    {
        let ghost list = self.tool_paths@;
        assert(list.skip(0) =~= list);
        let mut i: usize = 0;
        while i < self.tool_paths.len()
            invariant
                i <= list.len(),
                list == self.tool_paths@,
                tool_at(list.skip(i as int), name@) == tool_at(list, name@),
            decreases list.len() - i,
        {
            let tool = &self.tool_paths[i];
            if text::same_text(tool.name.as_str(), name) {
                return match &tool.path {
                    Some(path) => Some(path.clone()),
                    None => None,
                };
            }
            assert(list.skip(i as int).skip(1) =~= list.skip(i + 1));
            i += 1;
        }
        None
    }

    /// Whether a batch that is to begin is refused: another one is running.
    pub open spec fn refuses_batch(self) -> bool {
        self.is_converting
    }

    /// Claims the application for a batch; refused while another is running.
    pub fn begin_convert(&mut self) -> (result: Result<(), String>)
        ensures
            same_but_for_batch(*final(self), *old(self)),
            final(self).cancel_flag == old(self).cancel_flag,
            final(self).is_converting,
            match result {
                Ok(()) => !old(self).refuses_batch(),
                Err(message) => old(self).refuses_batch() && message@ == "ERR_ALREADY_CONVERTING"@,
            },
    {
        if self.is_converting {
            return Err("ERR_ALREADY_CONVERTING".to_owned());
        }
        self.is_converting = true;
        Ok(())
    }

    /// Makes the batch for a request whose inputs were looked up. Without a file to convert, the
    /// application is released again; else a cancellation that is still pending is forgotten.
    pub fn start_convert(
        &mut self,
        paths: &NativePaths,
        request: &ConvertRequest,
        inputs: &Vec<Input>,
    ) -> (result: Result<Batch, String>)
        requires
            old(self).is_converting,
        ensures
            same_but_for_batch(*final(self), *old(self)),
            ({
                let files = collect::first_occurrences(
                    collect::all_files(paths.sep(), inputs@, request.recursive, false),
                );
                match result {
                    Ok(batch) => {
                        &&& files.len() > 0
                        &&& final(self).is_converting
                        &&& !final(self).cancel_flag
                        &&& naming::texts(batch.files@) == files
                        &&& batch.begun == 0
                        &&& batch.quality == clamped(request.quality as int)
                        &&& paths::text_of(batch.tool) == tool_at(
                            old(self).tool_paths@,
                            "ffmpeg"@,
                        )
                        &&& batch.stats == ConvertResult::empty()
                    },
                    Err(message) => {
                        &&& files.len() == 0
                        &&& !final(self).is_converting
                        &&& final(self).cancel_flag == old(self).cancel_flag
                        &&& message@ == "ERR_NO_FILES"@
                    },
                }
            }),
    {
        let tool = self.tool("ffmpeg");
        let quality: i32 = clamp_quality(request.quality);
        let files = collect::collect_convert_files(paths, inputs, request.recursive);
        if files.is_empty() {
            self.is_converting = false;
            return Err("ERR_NO_FILES".to_owned());
        }
        self.cancel_flag = false;
        Ok(Batch { files, begun: 0, quality, tool, stats: ConvertResult::new() })
    }

    /// The state once its batch has ended.
    pub open spec fn released(self) -> AppState {
        AppState { is_converting: false, ..self }
    }

    /// Releases the application after a batch, however that has ended.
    pub fn finish_convert(&mut self)
        ensures
            *final(self) == old(self).released(),
    {
        self.is_converting = false;
    }

    /// Asks the running batch to stop.
    pub fn cancel_convert(&mut self)
        ensures
            *final(self) == (AppState { cancel_flag: true, ..*old(self) }),
    {
        self.cancel_flag = true;
    }

    /// Asks the running batch to stop and lets the window close.
    pub fn force_close(&mut self)
        ensures
            *final(self) == (AppState { cancel_flag: true, should_close: true, ..*old(self) }),
    {
        self.cancel_flag = true;
        self.should_close = true;
    }

    /// Whether the window has to stay open: a batch is running and nobody has insisted.
    pub open spec fn holds_window(self) -> bool {
        self.is_converting && !self.should_close
    }

    /// Whether the window has to stay open.
    pub fn prevents_close(&self) -> (prevented: bool)
        ensures
            prevented == self.holds_window(),
    {
        self.is_converting && !self.should_close
    }
}

impl Batch {
    /// Whether no more files than there are have been begun.
    pub open spec fn well_formed(self) -> bool {
        self.begun <= self.files@.len()
    }

    /// Whether another file is begun next.
    pub open spec fn goes_on(self, cancelled: bool) -> bool {
        !cancelled && self.begun < self.files@.len()
    }

    /// The number of files in the batch.
    pub fn total(&self) -> (n: usize)
        ensures
            n == self.files@.len(),
    {
        self.files.len()
    }

    /// The next file to convert: the files come in order, until they run out or the batch is
    /// cancelled.
    pub fn next_file(&mut self, cancelled: bool) -> (file: Option<String>)
        requires
            old(self).well_formed(),
        ensures
            final(self).well_formed(),
            final(self).files == old(self).files,
            final(self).quality == old(self).quality,
            final(self).tool == old(self).tool,
            final(self).stats == old(self).stats,
            match file {
                Some(path) => {
                    &&& old(self).goes_on(cancelled)
                    &&& path@ == old(self).files@[old(self).begun as int]@
                    &&& final(self).begun == old(self).begun + 1
                },
                None => !old(self).goes_on(cancelled) && final(self).begun == old(self).begun,
            },
    {
        if cancelled || self.begun >= self.files.len() {
            return None;
        }
        let path = self.files[self.begun].clone();
        self.begun = self.begun + 1;
        Some(path)
    }

    /// Whether the savings can be worked out without overflow.
    pub fn can_settle(&self) -> (can: bool)
        ensures
            can == self.stats.can_be_settled(),
    {
        let gain: i128 = self.stats.total_original as i128 - self.stats.total_converted as i128;
        i64::MIN as i128 <= gain && gain <= i64::MAX as i128 && (self.stats.total_original <= 0
            || gain * 100 <= i64::MAX as i128)
    }

    /// Works out the savings once the last file is done or the batch was cancelled.
    pub fn settle(&mut self)
        requires
            old(self).stats.can_be_settled(),
        ensures
            *final(self) == (Batch { stats: old(self).stats.with_savings(), ..*old(self) }),
    {
        self.stats.settle();
    }

    /// The batch after a crash.
    pub open spec fn after_crash(self) -> Batch {
        Batch { stats: self.stats.with_failure(), ..self }
    }

    /// Takes in that the conversion has crashed: one more failure, and the report to send.
    pub fn crashed(&mut self) -> (report: FileProgress)
        requires
            old(self).stats.fail_count < u32::MAX,
        ensures
            *final(self) == old(self).after_crash(),
            report@ == request::plain_progress(""@, "failed"@, "ERR_INTERNAL_PANIC"@),
    {
        self.stats.count_failure();
        request::progress("", "failed", "ERR_INTERNAL_PANIC")
    }
}

/// Once it was insisted on, nothing keeps the window open: no batch that starts or ends changes
/// that.
pub proof fn law_forced_close_is_final(state: AppState, later: AppState)
    requires
        state.should_close,
        same_but_for_batch(later, state),
    ensures
        !later.holds_window(),
{
}

/// While a batch runs the window stays open, unless it was insisted on; once the batch was released
/// it may close.
pub proof fn law_window_waits_for_the_batch(state: AppState)
    requires
        !state.should_close,
    ensures
        state.holds_window() <==> state.is_converting,
        !(AppState { is_converting: false, ..state }).holds_window(),
{
}

/// Once a batch has ended, in whatever way, the next one is not refused; and a crash counts as one
/// more failure and changes nothing else of the batch.
pub proof fn law_batches_can_follow_each_other(state: AppState, batch: Batch)
    ensures
        !state.released().refuses_batch(),
        batch.stats.fail_count < u32::MAX ==> batch.after_crash().stats == (ConvertResult {
            fail_count: (batch.stats.fail_count + 1) as u32,
            ..batch.stats
        }) && batch.after_crash().stats.counted() == batch.stats.counted() + 1,
        batch.after_crash().files == batch.files,
        batch.after_crash().begun == batch.begun,
{
}

/// A program that is listed is found at the place it is listed with.
pub proof fn law_tools_are_found_where_listed(list: Seq<ToolPath>, i: int)
    requires
        tools::distinct_tools(list),
        0 <= i < list.len(),
    ensures
        tool_at(list, list[i].name@) == paths::text_of(list[i].path),
    decreases list.len(),
{
    if i > 0 {
        assert(list[0].name@ != list[i].name@);
        assert(list.skip(1)[i - 1] == list[i]);
        law_tools_are_found_where_listed(list.skip(1), i - 1);
    }
}

/// The quality that a batch encodes at is always in range, and one that is in range stays as it is.
pub proof fn law_quality_is_in_range(quality: int)
    ensures
        MIN_QUALITY <= clamped(quality) <= MAX_QUALITY,
        MIN_QUALITY <= quality <= MAX_QUALITY ==> clamped(quality) == quality,
{
}

/// Qualities are moved to the nearest of those from 10 to 100, and keep their order.
pub proof fn law_qualities_are_moved_to_the_nearest(quality: i32, q: i32, other: i32, r: i32)
    requires
        call_ensures(clamp_quality, (quality,), q),
        call_ensures(clamp_quality, (other,), r),
    ensures
        10 <= q <= 100,
        10 <= quality <= 100 ==> q == quality,
        quality <= 10 ==> q == 10,
        quality >= 100 ==> q == 100,
        quality <= other ==> q <= r,
        clamped(quality as int) == q,
{
}

/// A program is found exactly where one of that name is listed: one that is not listed is not found.
pub proof fn law_unlisted_tools_are_not_found(state: &AppState, name: &str, path: Option<String>)
    requires
        call_ensures(AppState::tool, (state, name), path),
    ensures
        (forall|i: int| 0 <= i < state.tool_paths@.len() ==> (#[trigger] state.tool_paths@[i]).name@
            != name@) ==> path is None,
        path matches Some(p) ==> exists|i: int|
            0 <= i < state.tool_paths@.len() && (#[trigger] state.tool_paths@[i]).name@ == name@
                && state.tool_paths@[i].path is Some && state.tool_paths@[i].path->0@ == p@,
{
    lemma_tool_at(state.tool_paths@, name@);
}

/// What is found in a list of programs is listed.
proof fn lemma_tool_at(list: Seq<ToolPath>, name: Seq<char>)
    ensures
        tool_at(list, name) matches Some(p) ==> exists|i: int|
            0 <= i < list.len() && (#[trigger] list[i]).name@ == name && list[i].path is Some
                && list[i].path->0@ == p,
    decreases list.len(),
{
    if list.len() > 0 && list[0].name@ != name {
        let rest = list.skip(1);
        lemma_tool_at(rest, name);
        if let Some(p) = tool_at(rest, name) {
            let i = choose|i: int|
                0 <= i < rest.len() && (#[trigger] rest[i]).name@ == name && rest[i].path is Some
                    && rest[i].path->0@ == p;
            assert(list[i + 1] == rest[i]);
        }
    }
}

/// The window is kept open exactly while a batch runs and nobody has insisted on closing it.
pub proof fn law_windows_are_kept_open(state: &AppState, prevented: bool)
    requires
        call_ensures(AppState::prevents_close, (state,), prevented),
    ensures
        state.should_close ==> !prevented,
        !state.is_converting ==> !prevented,
        state.is_converting && !state.should_close ==> prevented,
{
}

/// A batch is refused exactly while another one is running; ending a batch changes nothing but that; and
/// the files of a batch go on until it is cancelled or they run out, whichever comes first.
pub proof fn law_when_batches_run(state: AppState, batch: Batch, cancelled: bool)
    ensures
        state.refuses_batch() <==> state.is_converting,
        state.released() == (AppState { is_converting: false, ..state }),
        batch.goes_on(cancelled) <==> !cancelled && batch.begun < batch.files@.len(),
        state.holds_window() <==> state.is_converting && !state.should_close,
{
}

} // verus!
