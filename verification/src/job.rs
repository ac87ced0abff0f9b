//! The conversion of one file, as a machine that is told what the outside world did and answers
//! what to do next.
use vstd::prelude::*;
use crate::command;
use crate::encode;
use crate::encode::Picture;
use crate::naming;
use crate::naming::{OutputPath, OutputView};
use crate::paths;
use crate::paths::NativePaths;
use crate::render;
use crate::request;
use crate::request::{ConvertRequest, ConvertResult, FileProgress, ProgressView};
use crate::resize;
use crate::text;

verus! {

/// The largest source file that is decoded, in bytes.
pub const MAX_FILE_SIZE: i64 = 100_000_000;

/// The most pixels that a source may have to be decoded.
pub const MAX_PIXELS: u64 = 25_000_000;

/// What the conversion of a file is waiting for.
#[derive(Clone, Copy, Debug, PartialEq, Eq, Structural)]
pub enum Stage {
    /// The tool that makes an animation.
    Animating,
    /// The comparison of the output path with the source.
    Comparing,
    /// The dimensions of the source.
    Measuring,
    /// The decoded source.
    Decoding,
    /// The result to be written.
    Writing,
    /// The source to be deleted.
    Deleting,
    /// Nothing: the file has been dealt with.
    Finished,
    /// Nothing: the conversion was given up, and the file counts as nothing.
    Abandoned,
}

/// What to do next for a file.
pub enum Action {
    /// Run a program.
    RunTool { program: String, args: Vec<String> },
    /// Find out the size of the source, and whether the output path leads to it.
    CompareFiles,
    /// Find out the dimensions of the source.
    ReadDimensions,
    /// Decode the source.
    Decode,
    /// Write these bytes to the output path.
    Write(Vec<u8>),
    /// Delete the source.
    Delete,
    /// Panic: the image is beyond what can be handled.
    Panic,
    /// Go on to the next file.
    Stop,
}

/// The content of an [`Action`].
pub enum ActionView {
    RunTool { program: Seq<char>, args: Seq<Seq<char>> },
    CompareFiles,
    ReadDimensions,
    Decode,
    Write(Seq<u8>),
    Delete,
    Panic,
    Stop,
}

impl View for Action {
    type V = ActionView;

    open spec fn view(&self) -> ActionView {
        match *self {
            Action::RunTool { program, args } => ActionView::RunTool {
                program: program@,
                args: naming::texts(args@),
            },
            Action::CompareFiles => ActionView::CompareFiles,
            Action::ReadDimensions => ActionView::ReadDimensions,
            Action::Decode => ActionView::Decode,
            Action::Write(bytes) => ActionView::Write(bytes@),
            Action::Delete => ActionView::Delete,
            Action::Panic => ActionView::Panic,
            Action::Stop => ActionView::Stop,
        }
    }
}

/// An answer: the reports to send, whether to send the tally after them, and what to do next.
pub struct Reply {
    pub progress: Vec<FileProgress>,
    pub send_stats: bool,
    pub action: Action,
}

/// The content of a [`Reply`].
pub struct ReplyView {
    pub progress: Seq<ProgressView>,
    pub send_stats: bool,
    pub action: ActionView,
}

impl View for Reply {
    type V = ReplyView;

    open spec fn view(&self) -> ReplyView {
        ReplyView {
            progress: self.progress@.map_values(|p: FileProgress| p@),
            send_stats: self.send_stats,
            action: self.action@,
        }
    }
}

/// The conversion of one file.
pub struct FileJob {
    pub source: String,
    pub output: OutputPath,
    pub stage: Stage,
    pub original_size: i64,
    pub new_size: i64,
    pub target_met: bool,
    pub saved_bytes: i64,
    pub saved_pct: i32,
}

/// The content of a [`FileJob`].
pub struct JobView {
    pub source: Seq<char>,
    pub output: OutputView,
    pub stage: Stage,
    pub original_size: i64,
    pub new_size: i64,
    pub target_met: bool,
    pub saved_bytes: i64,
    pub saved_pct: i32,
}

impl View for FileJob {
    type V = JobView;

    open spec fn view(&self) -> JobView {
        JobView {
            source: self.source@,
            output: self.output@,
            stage: self.stage,
            original_size: self.original_size,
            new_size: self.new_size,
            target_met: self.target_met,
            saved_bytes: self.saved_bytes,
            saved_pct: self.saved_pct,
        }
    }
}

/// What the outside world tells the conversion of a file.
pub enum EventView {
    /// The tool has ended on a source of `original_size` bytes. `made` is the size of its output,
    /// if there is one.
    Animated { original_size: i64, cancelled: bool, code: i32, made: Option<i64>, same: bool },
    /// The source has this size, and the output path leads to it or not.
    Compared { original_size: i64, same: bool },
    /// The source has these dimensions, if they could be read.
    Measured(Option<(u32, u32)>),
    /// The source could not be decoded.
    DecodeFailed(Seq<char>),
    /// The source was decoded, but is beyond what can be handled.
    Unmanageable,
    /// The source was decoded, scaled and encoded, or that failed.
    Rendered(Result<(Seq<u8>, bool), Seq<char>>),
    /// The result was written, or that failed; and the output path leads to the source or not.
    Written { result: Result<(), Seq<char>>, same: bool },
    /// The source was deleted, or that failed.
    Deleted(Result<(), Seq<char>>),
}

/// A size in KiB between two texts.
pub open spec fn kb_text(prefix: Seq<char>, size: int) -> Seq<char> {
    prefix + text::decimal(text::quotient(size, 1024)) + "kb"@
}

/// The message for a source of too many bytes.
pub open spec fn too_many_bytes(size: int) -> Seq<char> {
    "too_large:"@ + text::decimal(size / 1_000_000) + "MB"@
}

/// The message for a source of too many pixels.
pub open spec fn too_many_pixels(width: u32, height: u32) -> Seq<char> {
    "too_large:"@ + text::digits(width as nat) + "x"@ + text::digits(height as nat)
}

/// The larger of a number and zero.
pub open spec fn at_least_zero(n: int) -> int {
    if n > 0 {
        n
    } else {
        0
    }
}

impl JobView {
    /// The job in another stage.
    pub open spec fn at(self, stage: Stage) -> JobView {
        JobView { stage, ..self }
    }

    /// The report that nothing was saved.
    pub open spec fn report(self, status: Seq<char>, message: Seq<char>) -> ProgressView {
        request::plain_progress(self.source, status, message)
    }

    /// The report that the file is done, with what it saved.
    pub open spec fn done(self, message: Seq<char>, output: Option<Seq<char>>) -> ProgressView {
        ProgressView {
            file: self.source,
            status: "done"@,
            message,
            saved_bytes: self.saved_bytes as int,
            saved_pct: self.saved_pct as int,
            output_path: output,
        }
    }

    /// The end of a file that failed.
    pub open spec fn failed(self, stats: ConvertResult, message: Seq<char>) -> (
        JobView,
        ConvertResult,
        ReplyView,
    ) {
        (
            self.at(Stage::Finished),
            stats.with_failure(),
            ReplyView {
                progress: seq![self.report("failed"@, message)],
                send_stats: true,
                action: ActionView::Stop,
            },
        )
    }

    /// The end of a file that is left as it is.
    pub open spec fn kept(self, stats: ConvertResult) -> (JobView, ConvertResult, ReplyView) {
        (
            self.at(Stage::Finished),
            stats.with_kept(self.original_size as int),
            ReplyView {
                progress: seq![self.report("skipped"@, "skipped"@)],
                send_stats: true,
                action: ActionView::Stop,
            },
        )
    }

    /// The end of a file that is given up without counting.
    pub open spec fn abandoned(self, stats: ConvertResult, action: ActionView) -> (
        JobView,
        ConvertResult,
        ReplyView,
    ) {
        (
            self.at(Stage::Abandoned),
            stats,
            ReplyView { progress: seq![], send_stats: false, action },
        )
    }

    /// A file that has been converted: it is counted and reported, and the source is deleted next
    /// where that was asked for and it is not the output as well.
    pub open spec fn succeeded(
        self,
        stats: ConvertResult,
        message: Seq<char>,
        delete: bool,
    ) -> (JobView, ConvertResult, ReplyView) {
        (
            self.at(
                if delete {
                    Stage::Deleting
                } else {
                    Stage::Finished
                },
            ),
            stats.with_success(self.original_size as int, self.new_size as int),
            ReplyView {
                progress: seq![self.done(message, Some(self.output.path))],
                send_stats: !delete,
                action: if delete {
                    ActionView::Delete
                } else {
                    ActionView::Stop
                },
            },
        )
    }

    /// The job with the sizes of its source and its result, and what was saved.
    pub open spec fn measuring(self, original: i64, new: i64, saved: int) -> JobView {
        JobView {
            original_size: original,
            new_size: new,
            saved_bytes: saved as i64,
            saved_pct: request::percent(saved, original as int) as i32,
            ..self
        }
    }

    /// What is done once the tool has ended: nothing where it was cancelled; a success where it
    /// says so and has left an output; else a failure.
    pub open spec fn on_animated(
        self,
        stats: ConvertResult,
        request: ConvertRequest,
        original: i64,
        cancelled: bool,
        code: i32,
        made: Option<i64>,
        same: bool,
    ) -> (JobView, ConvertResult, ReplyView) {
        if cancelled {
            self.abandoned(stats, ActionView::Stop)
        } else if code == 0 && made is Some {
            self.measuring(original, made->0, at_least_zero(original - made->0)).succeeded(
                stats,
                kb_text("saved:"@, made->0 as int),
                request.delete_source && !same,
            )
        } else {
            self.failed(stats, "gif_convert_fail"@)
        }
    }

    /// What is done once the output path was compared with the source: a source that would be
    /// overwritten is kept, and one of too many bytes is passed over.
    pub open spec fn on_compared(self, stats: ConvertResult, original: i64, same: bool) -> (
        JobView,
        ConvertResult,
        ReplyView,
    ) {
        let job = JobView { original_size: original, ..self };
        if same {
            job.kept(stats)
        } else if original > MAX_FILE_SIZE {
            (
                job.at(Stage::Finished),
                stats.with_skip(),
                ReplyView {
                    progress: seq![
                        self.report("converting"@, "converting"@),
                        self.report("skipped"@, too_many_bytes(original as int)),
                    ],
                    send_stats: true,
                    action: ActionView::Stop,
                },
            )
        } else {
            (
                job.at(Stage::Measuring),
                stats,
                ReplyView {
                    progress: seq![self.report("converting"@, "converting"@)],
                    send_stats: false,
                    action: ActionView::ReadDimensions,
                },
            )
        }
    }

    /// What is done once the dimensions are known: a source of too many pixels is passed over.
    pub open spec fn on_measured(self, stats: ConvertResult, dimensions: Option<(u32, u32)>) -> (
        JobView,
        ConvertResult,
        ReplyView,
    ) {
        match dimensions {
            Some((width, height)) if width * height > MAX_PIXELS => (
                self.at(Stage::Finished),
                stats.with_skip(),
                ReplyView {
                    progress: seq![self.report("skipped"@, too_many_pixels(width, height))],
                    send_stats: true,
                    action: ActionView::Stop,
                },
            ),
            _ => (
                self.at(Stage::Decoding),
                stats,
                ReplyView { progress: seq![], send_stats: false, action: ActionView::Decode },
            ),
        }
    }

    /// What is done once the result is there: it is written, unless it is no smaller than the
    /// source and no target size was asked for.
    pub open spec fn on_rendered(
        self,
        stats: ConvertResult,
        request: ConvertRequest,
        outcome: Result<(Seq<u8>, bool), Seq<char>>,
    ) -> (JobView, ConvertResult, ReplyView) {
        match outcome {
            Err(message) => self.failed(stats, message),
            Ok((bytes, met)) => {
                let size = bytes.len() as i64;
                if size >= self.original_size && self.original_size > 0
                    && request.target_size_kb is None {
                    self.kept(stats)
                } else {
                    (
                        JobView {
                            stage: Stage::Writing,
                            new_size: size,
                            target_met: met,
                            ..self
                        },
                        stats,
                        ReplyView {
                            progress: seq![],
                            send_stats: false,
                            action: ActionView::Write(bytes),
                        },
                    )
                }
            },
        }
    }

    /// What is done once the result was written.
    pub open spec fn on_written(
        self,
        stats: ConvertResult,
        request: ConvertRequest,
        result: Result<(), Seq<char>>,
        same: bool,
    ) -> (JobView, ConvertResult, ReplyView) {
        match result {
            Err(message) => self.failed(stats, "write_fail:"@ + message),
            Ok(()) => self.measuring(
                self.original_size,
                self.new_size,
                at_least_zero(self.original_size - self.new_size),
            ).succeeded(
                stats,
                kb_text(
                    if self.target_met {
                        "saved:"@
                    } else {
                        "target_unreachable:"@
                    },
                    self.new_size as int,
                ),
                request.delete_source && !same,
            ),
        }
    }

    /// What is done once the source was deleted: a source that could not be is reported.
    pub open spec fn on_deleted(self, result: Result<(), Seq<char>>) -> (JobView, ReplyView) {
        (
            self.at(Stage::Finished),
            ReplyView {
                progress: match result {
                    Ok(()) => seq![],
                    Err(message) => seq![
                        self.done("delete_fail:"@ + message, Some(self.output.path)),
                    ],
                },
                send_stats: true,
                action: ActionView::Stop,
            },
        )
    }

    /// Whether the job is waiting for this event.
    pub open spec fn awaits(self, event: EventView) -> bool {
        match event {
            EventView::Animated { .. } => self.stage == Stage::Animating,
            EventView::Compared { .. } => self.stage == Stage::Comparing,
            EventView::Measured(_) => self.stage == Stage::Measuring,
            EventView::DecodeFailed(_) | EventView::Unmanageable | EventView::Rendered(_) => {
                self.stage == Stage::Decoding
            },
            EventView::Written { .. } => self.stage == Stage::Writing,
            EventView::Deleted(_) => self.stage == Stage::Deleting,
        }
    }

    /// The next state of the job, the tally and the answer when an event comes in.
    pub open spec fn step(self, stats: ConvertResult, request: ConvertRequest, event: EventView) -> (
        JobView,
        ConvertResult,
        ReplyView,
    ) {
        match event {
            EventView::Animated {
                original_size,
                cancelled,
                code,
                made,
                same,
            } => self.on_animated(stats, request, original_size, cancelled, code, made, same),
            EventView::Compared { original_size, same } => self.on_compared(
                stats,
                original_size,
                same,
            ),
            EventView::Measured(dimensions) => self.on_measured(stats, dimensions),
            EventView::DecodeFailed(message) => self.failed(stats, message),
            EventView::Unmanageable => self.abandoned(stats, ActionView::Panic),
            EventView::Rendered(outcome) => self.on_rendered(stats, request, outcome),
            EventView::Written { result, same } => self.on_written(stats, request, result, same),
            EventView::Deleted(result) => {
                let (job, reply) = self.on_deleted(result);
                (job, stats, reply)
            },
        }
    }
}

/// The text of an error.
pub open spec fn error_text<T>(result: Result<T, String>) -> Result<T, Seq<char>> {
    match result {
        Ok(value) => Ok(value),
        Err(message) => Err(message@),
    }
}

/// The content of a rendering or the text of an error.
pub open spec fn rendered_view(outcome: Result<(Vec<u8>, bool), String>) -> Result<
    (Seq<u8>, bool),
    Seq<char>,
> {
    match outcome {
        Ok(made) => Ok((made.0@, made.1)),
        Err(message) => Err(message@),
    }
}

/// An answer with no report.
fn quiet(send_stats: bool, action: Action) -> (reply: Reply)
    ensures
        reply@ == (ReplyView { progress: seq![], send_stats, action: action@ }),
{
    let reply = Reply { progress: vec![], send_stats, action };
    assert(reply@.progress =~= seq![]);
    reply
}

/// An answer with one report.
fn telling(report: FileProgress, send_stats: bool, action: Action) -> (reply: Reply)
    ensures
        reply@ == (ReplyView { progress: seq![report@], send_stats, action: action@ }),
{
    let reply = Reply { progress: vec![report], send_stats, action };
    assert(reply@.progress =~= seq![report@]);
    reply
}

/// A size in KiB between two texts.
fn kb_message(prefix: &str, size: i64) -> (message: String)
    ensures
        message@ == kb_text(prefix@, size as int),
{
    let mut message = prefix.to_owned();
    text::push_decimal(&mut message, text::divide(size, 1024));
    message.append("kb");
    message
}

/// Two texts as one.
fn prefixed(prefix: &str, rest: &str) -> (message: String)
    ensures
        message@ == prefix@ + rest@,
{
    let mut message = prefix.to_owned();
    message.append(rest);
    message
}

/// The job for a file before anything was found out about it.
pub open spec fn new_job(source: Seq<char>, output: OutputView, stage: Stage) -> JobView {
    JobView {
        source,
        output,
        stage,
        original_size: 0,
        new_size: 0,
        target_met: true,
        saved_bytes: 0,
        saved_pct: 0,
    }
}

/// Where the result of a source goes.
pub open spec fn planned_output(
    sep: char,
    source: Seq<char>,
    request: ConvertRequest,
    quality: int,
    now: nat,
) -> OutputView {
    naming::output_path(
        sep,
        naming::output_name(
            paths::path_stem(sep, source),
            "webp"@,
            request.naming_mode@,
            quality,
            now,
        ),
        request,
        paths::path_directory(sep, source),
        source,
    )
}

/// How the conversion of a file begins: a GIF goes to the tool where there is one; every other
/// file, and a GIF without the tool, goes the way of a still image.
pub open spec fn first_step(
    sep: char,
    source: Seq<char>,
    request: ConvertRequest,
    tool: Option<Seq<char>>,
    quality: int,
    now: nat,
) -> (JobView, ReplyView) {
    let output = planned_output(sep, source, request, quality, now);
    let gif = paths::path_extension(sep, source) == "gif"@;
    if gif && tool is Some {
        (
            new_job(source, output, Stage::Animating),
            ReplyView {
                progress: seq![request::plain_progress(source, "converting"@, "converting"@)],
                send_stats: false,
                action: ActionView::RunTool {
                    program: tool->0,
                    args: command::animation_arguments(
                        source,
                        output.path,
                        request.lossless,
                        quality,
                    ),
                },
            },
        )
    } else {
        (
            new_job(source, output, Stage::Comparing),
            ReplyView {
                progress: if gif {
                    seq![
                        request::plain_progress(source, "converting"@, "converting_no_anim"@),
                    ]
                } else {
                    seq![]
                },
                send_stats: false,
                action: ActionView::CompareFiles,
            },
        )
    }
}

impl FileJob {
    /// Begins the conversion of a file. `tool` is the program that makes animations, if there is
    /// one, and `now` the time in milliseconds since 1970.
    pub fn start(
        paths: &NativePaths,
        source: &str,
        request: &ConvertRequest,
        tool: &Option<String>,
        quality: i32,
        now: u128,
    ) -> (begun: (FileJob, Reply))
        ensures
            (begun.0@, begun.1@) == first_step(
                paths.sep(),
                source@,
                *request,
                paths::text_of(*tool),
                quality as int,
                now as nat,
            ),
    {
        let ext = paths.extension(source);
        let parent = paths.directory(source);
        let stem = paths.stem(source);
        let name = naming::build_output_name(
            stem.as_str(),
            "webp",
            request.naming_mode.as_str(),
            quality,
            now,
        );
        let output = naming::build_output_path(
            paths,
            name.as_str(),
            request,
            parent.as_str(),
            source,
        );
        let gif: bool = text::same_text(ext.as_str(), "gif");
        let mut job = FileJob {
            source: source.to_owned(),
            output,
            stage: Stage::Comparing,
            original_size: 0,
            new_size: 0,
            target_met: true,
            saved_bytes: 0,
            saved_pct: 0,
        };
        if gif {
            if let Some(program) = tool {
                let args = command::animation_args(
                    source,
                    job.output.path.as_str(),
                    request.lossless,
                    quality,
                );
                let action = Action::RunTool { program: program.clone(), args };
                job.stage = Stage::Animating;
                let report = request::progress(source, "converting", "converting");
                return (job, telling(report, false, action));
            }
            let report = request::progress(source, "converting", "converting_no_anim");
            return (job, telling(report, false, Action::CompareFiles));
        }
        (job, quiet(false, Action::CompareFiles))
    }

    /// Ends the job as a failure.
    fn fail(&mut self, stats: &mut ConvertResult, message: &str) -> (reply: Reply)
        requires
            old(stats).fail_count < u32::MAX,
        ensures
            (final(self)@, *final(stats), reply@) == old(self)@.failed(*old(stats), message@),
    {
        stats.count_failure();
        self.stage = Stage::Finished;
        telling(request::progress(self.source.as_str(), "failed", message), true, Action::Stop)
    }

    /// Ends the job with the source left as it is.
    fn keep(&mut self, stats: &mut ConvertResult) -> (reply: Reply)
        requires
            old(stats).skip_count < u32::MAX,
            old(stats).has_room(old(self).original_size as int, old(self).original_size as int),
        ensures
            (final(self)@, *final(stats), reply@) == old(self)@.kept(*old(stats)),
    {
        stats.count_kept(self.original_size);
        self.stage = Stage::Finished;
        telling(request::progress(self.source.as_str(), "skipped", "skipped"), true, Action::Stop)
    }

    /// Counts and reports a file that was converted.
    fn succeed(&mut self, stats: &mut ConvertResult, message: &str, delete: bool) -> (reply: Reply)
        requires
            old(stats).success_count < u32::MAX,
            old(stats).has_room(old(self).original_size as int, old(self).new_size as int),
        ensures
            (final(self)@, *final(stats), reply@) == old(self)@.succeeded(
                *old(stats),
                message@,
                delete,
            ),
    {
        stats.count_success(self.original_size, self.new_size);
        let report = request::progress_with_output(
            self.source.as_str(),
            "done",
            message,
            self.saved_bytes,
            self.saved_pct,
            Some(self.output.path.clone()),
        );
        if delete {
            self.stage = Stage::Deleting;
            telling(report, false, Action::Delete)
        } else {
            self.stage = Stage::Finished;
            telling(report, true, Action::Stop)
        }
    }

    /// Takes in that the tool has ended with exit code `code` on a source of `original_size` bytes.
    /// `made` is the size of its output, if there is one; `same` tells whether the output path
    /// leads to the source.
    pub fn animated(
        &mut self,
        stats: &mut ConvertResult,
        request: &ConvertRequest,
        original_size: i64,
        cancelled: bool,
        code: i32,
        made: Option<i64>,
        same: bool,
    ) -> (reply: Reply)
        requires
            old(self).stage == Stage::Animating,
            !cancelled && code == 0 && made is Some ==> {
                &&& old(stats).success_count < u32::MAX
                &&& old(stats).has_room(original_size as int, made->0 as int)
                &&& i64::MIN <= original_size - made->0 <= i64::MAX
                &&& request::has_share(
                    at_least_zero(original_size - made->0),
                    original_size as int,
                )
            },
            !cancelled && !(code == 0 && made is Some) ==> old(stats).fail_count < u32::MAX,
        ensures
            (final(self)@, *final(stats), reply@) == old(self)@.step(
                *old(stats),
                *request,
                (EventView::Animated { original_size, cancelled, code, made, same }),
            ),
    {
        if cancelled {
            self.stage = Stage::Abandoned;
            return quiet(false, Action::Stop);
        }
        match made {
            Some(size) if code == 0 => {
                self.original_size = original_size;
                self.new_size = size;
                let gain: i64 = original_size - size;
                self.saved_bytes = if gain > 0 {
                    gain
                } else {
                    0
                };
                self.saved_pct = request::percent_of(self.saved_bytes, original_size);
                let message = kb_message("saved:", size);
                self.succeed(stats, message.as_str(), request.delete_source && !same)
            },
            _ => self.fail(stats, "gif_convert_fail"),
        }
    }

    /// Takes in the size of the source, and whether the output path leads to it.
    pub fn compared(&mut self, stats: &mut ConvertResult, original_size: i64, same: bool) -> (reply:
        Reply)
        requires
            old(self).stage == Stage::Comparing,
            old(stats).skip_count < u32::MAX,
            same ==> old(stats).has_room(original_size as int, original_size as int),
        ensures
            (final(self)@, *final(stats), reply@) == old(self)@.on_compared(
                *old(stats),
                original_size,
                same,
            ),
    {
        self.original_size = original_size;
        if same {
            return self.keep(stats);
        }
        let first = request::progress(self.source.as_str(), "converting", "converting");
        if original_size > MAX_FILE_SIZE {
            stats.count_skip();
            self.stage = Stage::Finished;
            let mut message = "too_large:".to_owned();
            text::push_decimal(&mut message, original_size / 1_000_000);
            message.append("MB");
            let second = request::progress(self.source.as_str(), "skipped", message.as_str());
            let ghost (a, b) = (first@, second@);
            let reply = Reply {
                progress: vec![first, second],
                send_stats: true,
                action: Action::Stop,
            };
            assert(reply@.progress =~= seq![a, b]);
            reply
        } else {
            self.stage = Stage::Measuring;
            telling(first, false, Action::ReadDimensions)
        }
    }

    /// Takes in the dimensions of the source, if they could be read.
    pub fn measured(&mut self, stats: &mut ConvertResult, dimensions: Option<(u32, u32)>) -> (reply:
        Reply)
        requires
            old(self).stage == Stage::Measuring,
            old(stats).skip_count < u32::MAX,
        ensures
            (final(self)@, *final(stats), reply@) == old(self)@.on_measured(
                *old(stats),
                dimensions,
            ),
    {
        if let Some((width, height)) = dimensions {
            if resize::product(width, height) > MAX_PIXELS {
                stats.count_skip();
                self.stage = Stage::Finished;
                let mut message = "too_large:".to_owned();
                text::push_digits(&mut message, width as u128);
                message.append("x");
                text::push_digits(&mut message, height as u128);
                let report = request::progress(self.source.as_str(), "skipped", message.as_str());
                return telling(report, true, Action::Stop);
            }
        }
        self.stage = Stage::Decoding;
        quiet(false, Action::Decode)
    }

    /// Takes in that the source could not be decoded.
    pub fn decode_failed(&mut self, stats: &mut ConvertResult, message: &str) -> (reply: Reply)
        requires
            old(self).stage == Stage::Decoding,
            old(stats).fail_count < u32::MAX,
        ensures
            (final(self)@, *final(stats), reply@) == old(self)@.failed(*old(stats), message@),
    {
        self.fail(stats, message)
    }

    /// Takes in the result that was encoded and whether it meets the target size, if one was asked
    /// for, or why there is none.
    pub fn rendered(
        &mut self,
        stats: &mut ConvertResult,
        request: &ConvertRequest,
        outcome: Result<(Vec<u8>, bool), String>,
    ) -> (reply: Reply)
        requires
            old(self).stage == Stage::Decoding,
            outcome is Err ==> old(stats).fail_count < u32::MAX,
            outcome is Ok ==> old(stats).skip_count < u32::MAX && old(stats).has_room(
                old(self).original_size as int,
                old(self).original_size as int,
            ),
        ensures
            (final(self)@, *final(stats), reply@) == old(self)@.step(
                *old(stats),
                *request,
                EventView::Rendered(rendered_view(outcome)),
            ),
    {
        match outcome {
            Err(message) => self.fail(stats, message.as_str()),
            Ok((bytes, met)) => {
                #[verifier::truncate]
                let size: i64 = bytes.len() as i64;
                if size >= self.original_size && self.original_size > 0
                    && request.target_size_kb.is_none() {
                    self.keep(stats)
                } else {
                    self.stage = Stage::Writing;
                    self.new_size = size;
                    self.target_met = met;
                    quiet(false, Action::Write(bytes))
                }
            },
        }
    }

    /// Takes in the decoded source, scales it and encodes it. Where the request shrinks it by a
    /// fraction, `scaled` holds the dimensions that the fraction comes to.
    pub fn decoded(
        &mut self,
        stats: &mut ConvertResult,
        request: &ConvertRequest,
        quality: i32,
        img: image::DynamicImage,
        scaled: (u32, u32),
    ) -> (reply: Reply)
        requires
            old(self).stage == Stage::Decoding,
            old(stats).skip_count < u32::MAX,
            old(stats).fail_count < u32::MAX,
            old(stats).has_room(old(self).original_size as int, old(self).original_size as int),
        ensures
            !render::renderable(img, *request, scaled) ==> (
                final(self)@,
                *final(stats),
                reply@,
            ) == old(self)@.step(*old(stats), *request, EventView::Unmanageable),
            render::renderable(img, *request, scaled) ==> exists|
                outcome: Result<(Seq<u8>, bool), Seq<char>>,
            |
                rendering_of(outcome, img, *request, quality, scaled) && (
                    final(self)@,
                    *final(stats),
                    reply@,
                ) == #[trigger] old(self)@.step(
                    *old(stats),
                    *request,
                    EventView::Rendered(outcome),
                ),
    {
        match render::render(img, request, quality, scaled) {
            Some(outcome) => {
                assert(rendering_of(
                    rendered_view(outcome),
                    img,
                    *request,
                    quality,
                    scaled,
                ));
                self.rendered(stats, request, outcome)
            },
            None => {
                self.stage = Stage::Abandoned;
                quiet(false, Action::Panic)
            },
        }
    }

    /// Takes in that the result was written, or why not; `same` tells whether the output path
    /// leads to the source.
    pub fn written(
        &mut self,
        stats: &mut ConvertResult,
        request: &ConvertRequest,
        result: Result<(), String>,
        same: bool,
    ) -> (reply: Reply)
        requires
            old(self).stage == Stage::Writing,
            result is Err ==> old(stats).fail_count < u32::MAX,
            result is Ok ==> {
                let gain = old(self).original_size - old(self).new_size;
                &&& old(stats).success_count < u32::MAX
                &&& old(stats).has_room(old(self).original_size as int, old(self).new_size as int)
                &&& i64::MIN <= gain <= i64::MAX
                &&& request::has_share(at_least_zero(gain), old(self).original_size as int)
            },
        ensures
            (final(self)@, *final(stats), reply@) == old(self)@.step(
                *old(stats),
                *request,
                (EventView::Written { result: error_text(result), same }),
            ),
    {
        match result {
            Err(message) => {
                let text = prefixed("write_fail:", message.as_str());
                self.fail(stats, text.as_str())
            },
            Ok(()) => {
                let gain: i64 = self.original_size - self.new_size;
                self.saved_bytes = if gain > 0 {
                    gain
                } else {
                    0
                };
                self.saved_pct = request::percent_of(self.saved_bytes, self.original_size);
                let message = if self.target_met {
                    kb_message("saved:", self.new_size)
                } else {
                    kb_message("target_unreachable:", self.new_size)
                };
                self.succeed(stats, message.as_str(), request.delete_source && !same)
            },
        }
    }

    /// Takes in that the source was deleted, or why not.
    pub fn deleted(&mut self, result: Result<(), String>) -> (reply: Reply)
        requires
            old(self).stage == Stage::Deleting,
        ensures
            (final(self)@, reply@) == old(self)@.on_deleted(error_text(result)),
    {
        self.stage = Stage::Finished;
        match result {
            Ok(()) => quiet(true, Action::Stop),
            Err(message) => {
                let text = prefixed("delete_fail:", message.as_str());
                let report = request::progress_with_output(
                    self.source.as_str(),
                    "done",
                    text.as_str(),
                    self.saved_bytes,
                    self.saved_pct,
                    Some(self.output.path.clone()),
                );
                telling(report, true, Action::Stop)
            },
        }
    }
}

/// Whether `outcome` can come of scaling and encoding an image as a request says.
pub open spec fn rendering_of(
    outcome: Result<(Seq<u8>, bool), Seq<char>>,
    img: image::DynamicImage,
    request: ConvertRequest,
    quality: i32,
    scaled: (u32, u32),
) -> bool {
    let (w, h) = render::scaled_dimensions(img, request, scaled);
    let refused = render::refusal_for(w, h, request, quality as int);
    match outcome {
        Ok(made) => encode::tells_refusal(refused, None) && exists|from: image::DynamicImage|
            #[trigger] render::scaled_from(from, img, request, scaled) && made
                == render::rendering(resize::picture_of(from), request, quality as int),
        Err(message) => !request.lossless && encode::tells_refusal(refused, Some(message)) && exists|
            from: image::DynamicImage,
            picture: &Picture,
            text: String,
        |
            text@ == message && render::scaled_from(from, img, request, scaled)
                && #[trigger] render::encoding_failed(from, picture, request, quality, text),
    }
}

/// The state of a job and the tally once these events have come in.
pub open spec fn after_events(
    job: JobView,
    stats: ConvertResult,
    request: ConvertRequest,
    events: Seq<EventView>,
) -> (JobView, ConvertResult)
    decreases events.len(),
{
    if events.len() == 0 {
        (job, stats)
    } else {
        let (j, s) = after_events(job, stats, request, events.drop_last());
        let (next, tally, _) = j.step(s, request, events.last());
        (next, tally)
    }
}

/// Whether these events can come in one after the other: each is awaited when it comes, and there
/// is room to count.
pub open spec fn events_fit(
    job: JobView,
    stats: ConvertResult,
    request: ConvertRequest,
    events: Seq<EventView>,
) -> bool
    decreases events.len(),
{
    events.len() == 0 || {
        let (j, s) = after_events(job, stats, request, events.drop_last());
        &&& events_fit(job, stats, request, events.drop_last())
        &&& j.awaits(events.last())
        &&& s.success_count < u32::MAX
        &&& s.skip_count < u32::MAX
        &&& s.fail_count < u32::MAX
    }
}

/// How far a stage is along the way.
pub open spec fn rank(stage: Stage) -> int {
    match stage {
        Stage::Comparing => 0,
        Stage::Measuring => 1,
        Stage::Decoding => 2,
        Stage::Writing => 3,
        Stage::Animating => 3,
        Stage::Deleting => 4,
        Stage::Finished => 5,
        Stage::Abandoned => 5,
    }
}

/// Whether a job in this stage has been counted.
pub open spec fn is_counted(stage: Stage) -> bool {
    stage == Stage::Deleting || stage == Stage::Finished
}

/// A file counts once: as soon as its conversion has come to an end, one more file has been
/// counted as a success, a skip or a failure, and before that none. A conversion that was given up
/// counts as nothing.
pub proof fn law_each_file_counts_once(
    job: JobView,
    stats: ConvertResult,
    request: ConvertRequest,
    events: Seq<EventView>,
)
    requires
        !is_counted(job.stage),
        events_fit(job, stats, request, events),
    ensures
        ({
            let (end, tally) = after_events(job, stats, request, events);
            tally.counted() == stats.counted() + if is_counted(end.stage) {
                1nat
            } else {
                0nat
            }
        }),
    decreases events.len(),
{
    if events.len() > 0 {
        law_each_file_counts_once(job, stats, request, events.drop_last());
    }
}

/// The tally once the files of a batch have been converted one after the other, each through the
/// events that came in for it.
pub open spec fn after_files(
    stats: ConvertResult,
    request: ConvertRequest,
    runs: Seq<(JobView, Seq<EventView>)>,
) -> ConvertResult
    decreases runs.len(),
{
    if runs.len() == 0 {
        stats
    } else {
        let (job, events) = runs.last();
        after_events(job, after_files(stats, request, runs.drop_last()), request, events).1
    }
}

/// Whether each file of a batch has come to an end through events that can come in for it.
pub open spec fn all_dealt_with(
    stats: ConvertResult,
    request: ConvertRequest,
    runs: Seq<(JobView, Seq<EventView>)>,
) -> bool
    decreases runs.len(),
{
    runs.len() == 0 || {
        let (job, events) = runs.last();
        let before = after_files(stats, request, runs.drop_last());
        &&& all_dealt_with(stats, request, runs.drop_last())
        &&& !is_counted(job.stage)
        &&& events_fit(job, before, request, events)
        &&& is_counted(after_events(job, before, request, events).0.stage)
    }
}

/// The successes, skips and failures of a batch add up to its files, where each of them has come to
/// an end.
pub proof fn law_batches_count_every_file(
    stats: ConvertResult,
    request: ConvertRequest,
    runs: Seq<(JobView, Seq<EventView>)>,
)
    requires
        all_dealt_with(stats, request, runs),
    ensures
        after_files(stats, request, runs).counted() == stats.counted() + runs.len(),
    decreases runs.len(),
{
    if runs.len() > 0 {
        let (job, events) = runs.last();
        let before = after_files(stats, request, runs.drop_last());
        law_batches_count_every_file(stats, request, runs.drop_last());
        law_each_file_counts_once(job, before, request, events);
    }
}

/// Whether the sizes that a job counts with at these events are sizes that the totals have room for.
pub open spec fn events_sized(
    job: JobView,
    stats: ConvertResult,
    request: ConvertRequest,
    events: Seq<EventView>,
) -> bool
    decreases events.len(),
{
    events.len() == 0 || {
        let (_, s) = after_events(job, stats, request, events.drop_last());
        let (next, _) = after_events(job, stats, request, events);
        &&& events_sized(job, stats, request, events.drop_last())
        &&& next.original_size >= 0
        &&& next.new_size >= 0
        &&& s.has_room(next.original_size as int, next.original_size as int)
        &&& s.has_room(next.original_size as int, next.new_size as int)
    }
}

/// Whether the sizes that the files of a batch count with are sizes that the totals have room for.
pub open spec fn runs_sized(
    stats: ConvertResult,
    request: ConvertRequest,
    runs: Seq<(JobView, Seq<EventView>)>,
) -> bool
    decreases runs.len(),
{
    runs.len() == 0 || {
        let (job, events) = runs.last();
        let before = after_files(stats, request, runs.drop_last());
        &&& runs_sized(stats, request, runs.drop_last())
        &&& events_sized(job, before, request, events)
    }
}

/// The conversion of a file never takes anything from the totals.
proof fn lemma_events_only_add(
    job: JobView,
    stats: ConvertResult,
    request: ConvertRequest,
    events: Seq<EventView>,
)
    requires
        events_sized(job, stats, request, events),
    ensures
        after_events(job, stats, request, events).1.total_original >= stats.total_original,
        after_events(job, stats, request, events).1.total_converted >= stats.total_converted,
    decreases events.len(),
{
    if events.len() > 0 {
        lemma_events_only_add(job, stats, request, events.drop_last());
    }
}

/// The totals of a batch never decrease, where the sizes of files and results are not negative and
/// the totals have room for them.
pub proof fn law_batches_only_add_to_totals(
    stats: ConvertResult,
    request: ConvertRequest,
    runs: Seq<(JobView, Seq<EventView>)>,
)
    requires
        runs_sized(stats, request, runs),
    ensures
        after_files(stats, request, runs).total_original >= stats.total_original,
        after_files(stats, request, runs).total_converted >= stats.total_converted,
    decreases runs.len(),
{
    if runs.len() > 0 {
        let (job, events) = runs.last();
        law_batches_only_add_to_totals(stats, request, runs.drop_last());
        lemma_events_only_add(
            job,
            after_files(stats, request, runs.drop_last()),
            request,
            events,
        );
    }
}

/// The conversion of a file leaves the savings of the tally alone.
proof fn lemma_events_leave_savings_alone(
    job: JobView,
    stats: ConvertResult,
    request: ConvertRequest,
    events: Seq<EventView>,
)
    ensures
        after_events(job, stats, request, events).1.saved == stats.saved,
        after_events(job, stats, request, events).1.saved_pct == stats.saved_pct,
    decreases events.len(),
{
    if events.len() > 0 {
        lemma_events_leave_savings_alone(job, stats, request, events.drop_last());
    }
}

/// No file of a batch touches the savings of the tally: they are worked out at the end.
pub proof fn law_files_leave_savings_alone(
    stats: ConvertResult,
    request: ConvertRequest,
    runs: Seq<(JobView, Seq<EventView>)>,
)
    ensures
        after_files(stats, request, runs).saved == stats.saved,
        after_files(stats, request, runs).saved_pct == stats.saved_pct,
    decreases runs.len(),
{
    if runs.len() > 0 {
        let (job, events) = runs.last();
        law_files_leave_savings_alone(stats, request, runs.drop_last());
        lemma_events_leave_savings_alone(
            job,
            after_files(stats, request, runs.drop_last()),
            request,
            events,
        );
    }
}

/// A report carries the path that was written exactly where it says that the file is done.
pub proof fn law_done_reports_carry_the_output(
    job: JobView,
    stats: ConvertResult,
    request: ConvertRequest,
    event: EventView,
    i: int,
)
    requires
        0 <= i < job.step(stats, request, event).2.progress.len(),
    ensures
        ({
            let report = job.step(stats, request, event).2.progress[i];
            report.output_path == if report.status == "done"@ {
                Some(job.output.path)
            } else {
                None
            }
        }),
{
    reveal_strlit("done");
    reveal_strlit("failed");
    reveal_strlit("skipped");
    reveal_strlit("converting");
    assert("done"@.len() != "failed"@.len());
    assert("done"@.len() != "skipped"@.len());
    assert("done"@.len() != "converting"@.len());
}

/// Every event brings a conversion forward, so it comes to an end; and the tally is sent exactly
/// when the file has been dealt with.
pub proof fn law_every_event_is_progress(
    job: JobView,
    stats: ConvertResult,
    request: ConvertRequest,
    event: EventView,
)
    requires
        job.awaits(event),
    ensures
        rank(job.step(stats, request, event).0.stage) > rank(job.stage),
        job.step(stats, request, event).2.send_stats <==> job.step(stats, request, event).0.stage
            == Stage::Finished,
{
}

/// A source is deleted only where the request asks for it, right after its result was made and
/// counted as a success, and never where the result lies at the source's own path.
pub proof fn law_sources_are_deleted_only_after_success(
    job: JobView,
    stats: ConvertResult,
    request: ConvertRequest,
    event: EventView,
)
    requires
        job.awaits(event),
        stats.success_count < u32::MAX,
        job.step(stats, request, event).2.action is Delete,
    ensures
        request.delete_source,
        job.step(stats, request, event).1.success_count == stats.success_count + 1,
        match event {
            EventView::Written { result, same } => result is Ok && !same,
            EventView::Animated { cancelled, code, made, same, .. } => !cancelled && code == 0
                && made is Some && !same,
            _ => false,
        },
{
}

/// A still image is written only where the comparison has shown that the output path does not lead
/// to the source: no source is encoded over itself.
pub proof fn law_sources_are_never_overwritten(
    job: JobView,
    stats: ConvertResult,
    request: ConvertRequest,
    events: Seq<EventView>,
)
    requires
        job.stage == Stage::Comparing,
        events_fit(job, stats, request, events),
        events.len() > 0,
    ensures
        events[0] is Compared,
        events[0]->Compared_same ==> events.len() == 1,
        ({
            let (j, s) = after_events(job, stats, request, events.drop_last());
            j.step(s, request, events.last()).2.action is Write ==> !events[0]->Compared_same
        }),
    decreases events.len(),
{
    let before = events.drop_last();
    if before.len() > 0 {
        law_sources_are_never_overwritten(job, stats, request, before);
        assert(before[0] == events[0]);
        if before.len() == 1 {
            assert(before.drop_last() =~= Seq::<EventView>::empty());
            assert(before.last() == events[0]);
        }
    } else {
        assert(before =~= Seq::<EventView>::empty());
        assert(events[0] == events.last());
    }
}

/// A file that fails leaves the totals and the other counts as they were.
pub proof fn law_failures_leave_totals_alone(
    job: JobView,
    stats: ConvertResult,
    request: ConvertRequest,
    event: EventView,
)
    requires
        stats.fail_count < u32::MAX,
        job.step(stats, request, event).1.fail_count != stats.fail_count,
    ensures
        job.step(stats, request, event).1 == (ConvertResult {
            fail_count: (stats.fail_count + 1) as u32,
            ..stats
        }),
{
}

/// Whether what a job has saved is between nothing and all of its original.
pub open spec fn saves_a_share(job: JobView) -> bool {
    0 <= job.saved_bytes <= at_least_zero(job.original_size as int) && 0 <= job.saved_pct <= 100
}

/// Every report tells of savings between nothing and all of the original, even where the result has
/// become larger than it; and what a job has saved stays so from one event to the next.
pub proof fn law_reported_savings_are_a_share(
    job: JobView,
    stats: ConvertResult,
    request: ConvertRequest,
    event: EventView,
)
    requires
        job.awaits(event),
        saves_a_share(job),
        job.saved_bytes > 0 ==> job.stage == Stage::Deleting,
        job.original_size >= 0,
        job.new_size >= 0,
        match event {
            EventView::Animated { original_size, made, .. } => original_size >= 0 && (made matches Some(
                size,
            ) ==> size >= 0),
            EventView::Compared { original_size, .. } => original_size >= 0,
            EventView::Rendered(Ok((bytes, _))) => bytes.len() <= i64::MAX,
            _ => true,
        },
    ensures
        ({
            let (next, _, reply) = job.step(stats, request, event);
            &&& saves_a_share(next)
            &&& next.saved_bytes > 0 ==> is_counted(next.stage)
            &&& next.original_size >= 0
            &&& next.new_size >= 0
            &&& forall|i: int|
                0 <= i < reply.progress.len() ==> 0 <= (#[trigger] reply.progress[i]).saved_bytes
                    <= next.original_size && 0 <= reply.progress[i].saved_pct <= 100
        }),
{
    let next = job.step(stats, request, event).0;
    let saved = at_least_zero(next.original_size - next.new_size);
    let original = next.original_size as int;
    if original > 0 && next.new_size >= 0 {
        assert(0 <= saved * 100 / original <= 100) by (nonlinear_arith)
            requires
                0 <= saved <= original,
                original > 0,
        ;
    }
}

/// Whether an answer ends a file, with one report that says `status` and `message` of it, and the tally
/// to be sent.
pub open spec fn ends_with(
    reply: ReplyView,
    source: Seq<char>,
    status: Seq<char>,
    message: Seq<char>,
) -> bool {
    &&& reply.action is Stop
    &&& reply.send_stats
    &&& reply.progress.len() == 1
    &&& reply.progress[0].file == source
    &&& reply.progress[0].status == status
    &&& reply.progress[0].message == message
    &&& reply.progress[0].saved_bytes == 0
    &&& reply.progress[0].saved_pct == 0
}

/// Whether two tallies differ by one skip alone, with `size` added to both totals.
pub open spec fn one_more_skip(after: ConvertResult, before: ConvertResult, size: int) -> bool {
    &&& after.skip_count == before.skip_count + 1
    &&& after.success_count == before.success_count
    &&& after.fail_count == before.fail_count
    &&& after.total_original == before.total_original + size
    &&& after.total_converted == before.total_converted + size
    &&& after.saved == before.saved && after.saved_pct == before.saved_pct
}

/// Whether two tallies differ by one failure alone.
pub open spec fn one_more_failure(after: ConvertResult, before: ConvertResult) -> bool {
    &&& after.fail_count == before.fail_count + 1
    &&& after.success_count == before.success_count
    &&& after.skip_count == before.skip_count
    &&& after.total_original == before.total_original
    &&& after.total_converted == before.total_converted
    &&& after.saved == before.saved && after.saved_pct == before.saved_pct
}

/// Whether two tallies differ by one success alone, with these sizes added to the totals.
pub open spec fn one_more_success(
    after: ConvertResult,
    before: ConvertResult,
    original: int,
    new: int,
) -> bool {
    &&& after.success_count == before.success_count + 1
    &&& after.skip_count == before.skip_count
    &&& after.fail_count == before.fail_count
    &&& after.total_original == before.total_original + original
    &&& after.total_converted == before.total_converted + new
    &&& after.saved == before.saved && after.saved_pct == before.saved_pct
}

/// Whether the counts of a tally have room for one more file.
pub open spec fn has_place(stats: ConvertResult) -> bool {
    stats.success_count < u32::MAX && stats.skip_count < u32::MAX && stats.fail_count < u32::MAX
}

/// Without a target size, and where the source is not empty, a result is written only where it is
/// smaller than the source. One that is not, by however much, ends the file as a skip that reports no
/// savings and leaves the difference of the totals as it was. With a target size, or where the source
/// is empty, every result is written, as it is. What could not be encoded ends the file as a failure
/// with its message. Nothing is ever deleted at this point.
pub proof fn law_only_smaller_results_are_written(
    job: JobView,
    stats: ConvertResult,
    request: ConvertRequest,
    outcome: Result<(Seq<u8>, bool), Seq<char>>,
)
    requires
        has_place(stats),
        stats.has_room(job.original_size as int, job.original_size as int),
        outcome matches Ok((bytes, _)) ==> bytes.len() <= i64::MAX,
    ensures
        ({
            let (next, tally, reply) = job.step(stats, request, EventView::Rendered(outcome));
            match outcome {
                Ok((bytes, met)) => {
                    let written = request.target_size_kb is Some || job.original_size <= 0
                        || bytes.len() < job.original_size;
                    &&& written ==> {
                        &&& reply.action == ActionView::Write(bytes)
                        &&& next.stage == Stage::Writing
                        &&& next.new_size == bytes.len()
                        &&& next.target_met == met
                        &&& next.original_size == job.original_size
                        &&& tally == stats
                        &&& reply.progress.len() == 0
                        &&& !reply.send_stats
                    }
                    &&& !written ==> {
                        &&& bytes.len() >= job.original_size
                        &&& ends_with(reply, job.source, "skipped"@, "skipped"@)
                        &&& next.stage == Stage::Finished
                        &&& one_more_skip(tally, stats, job.original_size as int)
                        &&& tally.total_original - tally.total_converted == stats.total_original
                            - stats.total_converted
                    }
                },
                Err(message) => {
                    &&& ends_with(reply, job.source, "failed"@, message)
                    &&& next.stage == Stage::Finished
                    &&& one_more_failure(tally, stats)
                },
            }
        }),
{
}

/// A file that the output path leads to is left alone, whatever else holds, and counts as a skip at its
/// own size; so is one of more than a hundred million bytes, which counts without its size. Every other
/// one goes on to be measured, and nothing is counted yet.
pub proof fn law_sources_are_sorted_out_by_size(
    job: JobView,
    stats: ConvertResult,
    request: ConvertRequest,
    original_size: i64,
    same: bool,
)
    requires
        has_place(stats),
        stats.has_room(original_size as int, original_size as int),
    ensures
        ({
            let (next, tally, reply) = job.step(
                stats,
                request,
                EventView::Compared { original_size, same },
            );
            &&& next.original_size == original_size
            &&& next.source == job.source && next.output == job.output
            &&& same ==> ends_with(reply, job.source, "skipped"@, "skipped"@) && next.stage
                == Stage::Finished && one_more_skip(tally, stats, original_size as int)
            &&& !same ==> reply.progress.len() > 0 && reply.progress[0].status == "converting"@
                && reply.progress[0].message == "converting"@ && reply.progress[0].file == job.source
            &&& !same && original_size > 100_000_000 ==> {
                &&& reply.action is Stop && reply.send_stats
                &&& next.stage == Stage::Finished
                &&& reply.progress.len() == 2
                &&& reply.progress[1].file == job.source
                &&& reply.progress[1].status == "skipped"@
                &&& reply.progress[1].message == "too_large:"@ + text::digits(
                    (original_size / 1_000_000) as nat,
                ) + "MB"@
                &&& one_more_skip(tally, stats, 0)
            }
            &&& !same && original_size <= 100_000_000 ==> {
                &&& reply.action is ReadDimensions && !reply.send_stats
                &&& next.stage == Stage::Measuring
                &&& reply.progress.len() == 1
                &&& tally == stats
            }
        }),
{
}

/// A picture of more than twenty-five million pixels is passed over without its size; every other one,
/// and one whose dimensions are not known, is decoded.
pub proof fn law_sources_are_sorted_out_by_pixels(
    job: JobView,
    stats: ConvertResult,
    request: ConvertRequest,
    dimensions: Option<(u32, u32)>,
)
    requires
        has_place(stats),
        stats.has_room(0, 0),
    ensures
        ({
            let (next, tally, reply) = job.step(stats, request, EventView::Measured(dimensions));
            let large = dimensions matches Some((w, h)) && w * h > 25_000_000;
            &&& large ==> {
                &&& dimensions matches Some((w, h)) ==> ends_with(
                    reply,
                    job.source,
                    "skipped"@,
                    "too_large:"@ + text::digits(w as nat) + "x"@ + text::digits(h as nat),
                )
                &&& next.stage == Stage::Finished
                &&& one_more_skip(tally, stats, 0)
            }
            &&& !large ==> {
                &&& reply.action is Decode && !reply.send_stats
                &&& reply.progress.len() == 0
                &&& next == (JobView { stage: Stage::Decoding, ..job })
                &&& tally == stats
            }
        }),
{
}

/// Whether an answer reports a file as done, with savings that are what its sizes say but never
/// negative, and the share of the original that they make.
pub open spec fn reports_done(
    reply: ReplyView,
    job: JobView,
    original: int,
    new: int,
    message: Seq<char>,
) -> bool {
    let saved = if original > new {
        original - new
    } else {
        0
    };
    let pct = reply.progress[0].saved_pct;
    &&& reply.progress.len() == 1
    &&& reply.progress[0].file == job.source
    &&& reply.progress[0].status == "done"@
    &&& reply.progress[0].message == message
    &&& reply.progress[0].output_path == Some(job.output.path)
    &&& reply.progress[0].saved_bytes == saved
    &&& original > 0 ==> pct * original <= saved * 100 < (pct + 1) * original
    &&& original == 0 ==> pct == 0
}

/// Whether an answer has the source deleted next, or ends the file, as it is asked for.
pub open spec fn deletes_as_asked(reply: ReplyView, next: JobView, delete: bool) -> bool {
    &&& delete ==> reply.action is Delete && next.stage == Stage::Deleting && !reply.send_stats
    &&& !delete ==> reply.action is Stop && next.stage == Stage::Finished && reply.send_stats
}

/// A result that was written counts as one success with the sizes of source and result, is reported as
/// done with what it saved, and as missing its target exactly where it does; the source is deleted next
/// exactly where that is asked for and the output path does not lead to it. A result that could not be
/// written is one failure, and the source stays.
pub proof fn law_written_results_are_successes(
    job: JobView,
    stats: ConvertResult,
    request: ConvertRequest,
    result: Result<(), Seq<char>>,
    same: bool,
)
    requires
        has_place(stats),
        job.original_size >= 0,
        job.new_size >= 0,
        stats.has_room(job.original_size as int, job.new_size as int),
    ensures
        ({
            let (next, tally, reply) = job.step(
                stats,
                request,
                EventView::Written { result, same },
            );
            match result {
                Ok(()) => {
                    &&& one_more_success(
                        tally,
                        stats,
                        job.original_size as int,
                        job.new_size as int,
                    )
                    &&& reports_done(
                        reply,
                        job,
                        job.original_size as int,
                        job.new_size as int,
                        (if job.target_met {
                            "saved:"@
                        } else {
                            "target_unreachable:"@
                        }) + text::digits((job.new_size / 1024) as nat) + "kb"@,
                    )
                    &&& deletes_as_asked(reply, next, request.delete_source && !same)
                },
                Err(message) => {
                    &&& one_more_failure(tally, stats)
                    &&& ends_with(reply, job.source, "failed"@, "write_fail:"@ + message)
                    &&& next.stage == Stage::Finished
                },
            }
        }),
{
    let saved = at_least_zero(job.original_size - job.new_size);
    lemma_share(saved, job.original_size as int);
}

/// A share in whole percent is the largest whole number of percent that is not more than the share.
proof fn lemma_share(saved: int, original: int)
    requires
        0 <= saved,
        saved <= original || saved == 0,
    ensures
        original > 0 ==> {
            let pct = request::percent(saved, original);
            &&& pct * original <= saved * 100 < (pct + 1) * original
            &&& 0 <= pct <= 100
        },
{
    if original > 0 {
        let pct = saved * 100 / original;
        vstd::arithmetic::div_mod::lemma_fundamental_div_mod(saved * 100, original);
        assert(pct * original == original * pct) by (nonlinear_arith);
        assert((pct + 1) * original == original * pct + original) by (nonlinear_arith);
        assert(0 <= pct <= 100) by (nonlinear_arith)
            requires
                pct * original <= saved * 100 < (pct + 1) * original,
                0 <= saved <= original,
                original > 0,
        ;
    }
}

/// An animation that the tool has made, ending well and leaving its output, counts as one success with
/// the sizes of source and result and is reported as done; the source is deleted as after any other
/// success. Anything else that the tool ends with is one failure, and the source stays. Where the batch
/// was cancelled, nothing is counted and nothing is reported.
pub proof fn law_made_animations_are_successes(
    job: JobView,
    stats: ConvertResult,
    request: ConvertRequest,
    original_size: i64,
    cancelled: bool,
    code: i32,
    made: Option<i64>,
    same: bool,
)
    requires
        has_place(stats),
        original_size >= 0,
        made matches Some(size) ==> size >= 0 && stats.has_room(original_size as int, size as int),
    ensures
        ({
            let (next, tally, reply) = job.step(
                stats,
                request,
                EventView::Animated { original_size, cancelled, code, made, same },
            );
            &&& cancelled ==> tally == stats && reply.progress.len() == 0 && !reply.send_stats
                && reply.action is Stop && next.stage == Stage::Abandoned
            &&& !cancelled && code == 0 && made is Some ==> {
                &&& one_more_success(tally, stats, original_size as int, made->0 as int)
                &&& reports_done(
                    reply,
                    job,
                    original_size as int,
                    made->0 as int,
                    "saved:"@ + text::digits((made->0 / 1024) as nat) + "kb"@,
                )
                &&& deletes_as_asked(reply, next, request.delete_source && !same)
            }
            &&& !cancelled && (code != 0 || made is None) ==> {
                &&& one_more_failure(tally, stats)
                &&& ends_with(reply, job.source, "failed"@, "gif_convert_fail"@)
                &&& next.stage == Stage::Finished
            }
        }),
{
    if let Some(size) = made {
        lemma_share(at_least_zero(original_size - size), original_size as int);
    }
}

/// A source that could not be decoded is one failure with its message. One that was deleted is not
/// reported again; one that could not be is, with what was saved, and counts no more than before.
pub proof fn law_what_fails_is_told(
    job: JobView,
    stats: ConvertResult,
    request: ConvertRequest,
    message: Seq<char>,
)
    requires
        has_place(stats),
    ensures
        ({
            let (next, tally, reply) = job.step(stats, request, EventView::DecodeFailed(message));
            &&& one_more_failure(tally, stats)
            &&& ends_with(reply, job.source, "failed"@, message)
            &&& next.stage == Stage::Finished
        }),
        ({
            let (next, tally, reply) = job.step(stats, request, EventView::Deleted(Ok(())));
            &&& tally == stats
            &&& reply.progress.len() == 0 && reply.send_stats && reply.action is Stop
            &&& next.stage == Stage::Finished
        }),
        ({
            let (next, tally, reply) = job.step(stats, request, EventView::Deleted(Err(message)));
            &&& tally == stats
            &&& reply.progress.len() == 1 && reply.send_stats && reply.action is Stop
            &&& reply.progress[0].file == job.source
            &&& reply.progress[0].status == "done"@
            &&& reply.progress[0].message == "delete_fail:"@ + message
            &&& reply.progress[0].saved_bytes == job.saved_bytes
            &&& reply.progress[0].saved_pct == job.saved_pct
            &&& next.stage == Stage::Finished
        }),
{
}

/// A GIF goes to the tool whenever there is one, whatever else the request says: the tool is run on it,
/// and the job waits for it. No other file, and no GIF without the tool, is ever handed to a program;
/// they go the way of a still image, and only a GIF is reported at this point.
pub proof fn law_animations_go_to_the_tool(
    paths: &NativePaths,
    source: &str,
    request: &ConvertRequest,
    tool: &Option<String>,
    quality: i32,
    now: u128,
    begun: (FileJob, Reply),
)
    requires
        call_ensures(FileJob::start, (paths, source, request, tool, quality, now), begun),
    ensures
        ({
            let gif = paths::path_extension(paths.sep(), source@) == "gif"@;
            let (job, reply) = begun;
            &&& job.source@ == source@
            &&& !reply.send_stats
            &&& job.original_size == 0 && job.new_size == 0 && job.saved_bytes == 0
            &&& gif && tool is Some ==> {
                &&& job.stage == Stage::Animating
                &&& reply.action is RunTool
                &&& reply.action->program@ == tool->0@
                &&& reply@.progress.len() == 1
                &&& reply@.progress[0].message == "converting"@
            }
            &&& !(gif && tool is Some) ==> {
                &&& job.stage == Stage::Comparing
                &&& reply.action is CompareFiles
                &&& reply@.progress.len() == if gif {
                    1int
                } else {
                    0int
                }
                &&& gif ==> reply@.progress[0].message == "converting_no_anim"@
            }
            &&& forall|i: int|
                0 <= i < reply@.progress.len() ==> (#[trigger] reply@.progress[i]).file == source@
                    && reply@.progress[i].status == "converting"@
        }),
{
    let (job, reply) = begun;
    assert(job@.source == source@);
    match reply.action {
        Action::RunTool { program, .. } => {
            assert(reply.action@ is RunTool);
        },
        Action::CompareFiles => {
            assert(reply.action@ is CompareFiles);
        },
        _ => {},
    }
}

/// The tool is told to make a WebP animation of exactly this source at exactly the job's output path,
/// with the quality as it is and losslessly as asked for, to run without end and to ask nothing.
pub proof fn law_the_tool_is_told_what_to_make(
    paths: &NativePaths,
    source: &str,
    request: &ConvertRequest,
    tool: &Option<String>,
    quality: i32,
    now: u128,
    begun: (FileJob, Reply),
)
    requires
        call_ensures(FileJob::start, (paths, source, request, tool, quality, now), begun),
        begun.1.action is RunTool,
    ensures
        ({
            let args = begun.1.action->args@;
            &&& args.len() == 12
            &&& args[0]@ == "-y"@
            &&& args[1]@ == "-i"@ && args[2]@ == source@
            &&& args[3]@ == "-c:v"@ && args[4]@ == "libwebp"@
            &&& args[5]@ == "-lossless"@ && args[6]@ == if request.lossless {
                "1"@
            } else {
                "0"@
            }
            &&& args[7]@ == "-q:v"@ && args[8]@ == text::decimal(quality as int)
            &&& args[9]@ == "-loop"@ && args[10]@ == "0"@
            &&& args[11]@ == begun.0.output.path@
        }),
{
    let action = begun.1.action;
    let view = naming::texts(action->args@);
    assert(begun.1@.action == action@);
    assert(view == command::animation_arguments(
        source@,
        begun.0@.output.path,
        request.lossless,
        quality as int,
    ));
    assert forall|i: int| 0 <= i < 12 implies view[i] == (#[trigger] action->args@[i])@ by {}
}

/// The output of a job is named as the naming mode says after the stem of its source, with the
/// extension `webp`, and is where the request puts it.
pub proof fn law_outputs_are_where_they_are_asked_for(
    paths: &NativePaths,
    source: &str,
    request: &ConvertRequest,
    tool: &Option<String>,
    quality: i32,
    now: u128,
    begun: (FileJob, Reply),
)
    requires
        call_ensures(FileJob::start, (paths, source, request, tool, quality, now), begun),
    ensures
        exists|name: Seq<char>| #[trigger]
            naming::placed_as_asked(
                begun.0.output@,
                paths.sep(),
                name,
                *request,
                paths::path_directory(paths.sep(), source@),
                source@,
            ) && naming::named_as_asked(
                name,
                paths::path_stem(paths.sep(), source@),
                "webp"@,
                request.naming_mode@,
                quality as int,
                now as nat,
            ),
{
    let sep = paths.sep();
    let stem = paths::path_stem(sep, source@);
    let name = naming::output_name(
        stem,
        "webp"@,
        request.naming_mode@,
        quality as int,
        now as nat,
    );
    naming::lemma_named_as_asked(
        stem,
        "webp"@,
        request.naming_mode@,
        quality as int,
        now as nat,
    );
    assert(begun.0@.output == planned_output(sep, source@, *request, quality as int, now as nat));
    assert(naming::placed_as_asked(
        begun.0.output@,
        sep,
        name,
        *request,
        paths::path_directory(sep, source@),
        source@,
    ));
}

/// What comes of a decoded source is the form that the request asks for of an image that is sized as it
/// asks, or a failure that has to be.
pub proof fn law_decoded_sources_are_rendered_as_asked(
    outcome: Result<(Seq<u8>, bool), Seq<char>>,
    img: image::DynamicImage,
    request: ConvertRequest,
    quality: i32,
    scaled: (u32, u32),
)
    requires
        render::renderable(img, request, scaled),
        rendering_of(outcome, img, request, quality, scaled),
    ensures
        outcome matches Ok((bytes, met)) ==> exists|from: image::DynamicImage| #[trigger]
            resize::sized_as_asked(from, img, request) && render::form_as_asked(
                render::pixels_of(from),
                request,
                quality as int,
                bytes,
                met,
            ),
        outcome is Err ==> !request.lossless,
        !request.resize_enabled ==> render::fails_as_due(
            resize::image_width(img),
            resize::image_height(img),
            request,
            quality as int,
            match outcome {
                Ok(_) => None,
                Err(message) => Some(message),
            },
        ),
{
    if let Ok(made) = outcome {
        let from = choose|from: image::DynamicImage|
            #[trigger] render::scaled_from(from, img, request, scaled) && made
                == render::rendering(resize::picture_of(from), request, quality as int);
        render::lemma_scaled_as_asked(from, img, request, scaled);
        render::lemma_renderings_are_as_asked(
            resize::picture_of(from),
            request,
            quality as int,
        );
        assert(resize::picture_of(from) == render::pixels_of(from));
        assert(resize::sized_as_asked(from, img, request));
    }
}

/// A source that is beyond what can be handled counts as nothing, is not reported, and ends in a panic;
/// and no other event ever does.
pub proof fn law_only_unmanageable_sources_panic(
    job: JobView,
    stats: ConvertResult,
    request: ConvertRequest,
    event: EventView,
)
    ensures
        ({
            let (next, tally, reply) = job.step(stats, request, event);
            &&& reply.action is Panic <==> event is Unmanageable
            &&& event is Unmanageable ==> tally == stats && reply.progress.len() == 0
                && !reply.send_stats && next.stage == Stage::Abandoned
            &&& next.source == job.source && next.output == job.output
            &&& reply.action is Write ==> event is Rendered
            &&& reply.action !is RunTool && reply.action !is CompareFiles
        }),
{
}

} // verus!
