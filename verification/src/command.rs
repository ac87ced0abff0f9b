//! Running an outside program: its arguments, how long to wait for it and what came of it.
use vstd::prelude::*;
use crate::naming;
use crate::text;

verus! {

/// How long the tool that makes an animation may take, in seconds.
pub const TOOL_SECONDS: u64 = 120;

/// The arguments with which ffmpeg makes an animated WebP.
pub open spec fn animation_arguments(
    source: Seq<char>,
    output: Seq<char>,
    lossless: bool,
    quality: int,
) -> Seq<Seq<char>> {
    seq![
        "-y"@,
        "-i"@,
        source,
        "-c:v"@,
        "libwebp"@,
        "-lossless"@,
        if lossless {
            "1"@
        } else {
            "0"@
        },
        "-q:v"@,
        text::decimal(quality),
        "-loop"@,
        "0"@,
        output,
    ]
}

/// The arguments with which ffmpeg makes an animated WebP.
pub fn animation_args(source: &str, output: &str, lossless: bool, quality: i32) -> (args: Vec<
    String,
>)
    ensures
        naming::texts(args@) == animation_arguments(source@, output@, lossless, quality as int),
{
    let mut q = String::new();
    text::push_decimal(&mut q, quality as i64);
    assert(q@ =~= text::decimal(quality as int));
    let args = vec![
        "-y".to_owned(),
        "-i".to_owned(),
        source.to_owned(),
        "-c:v".to_owned(),
        "libwebp".to_owned(),
        "-lossless".to_owned(),
        if lossless { "1".to_owned() } else { "0".to_owned() },
        "-q:v".to_owned(),
        q,
        "-loop".to_owned(),
        "0".to_owned(),
        output.to_owned(),
    ];
    assert(naming::texts(args@) =~= animation_arguments(
        source@,
        output@,
        lossless,
        quality as int,
    ));
    args
}

/// What the watcher of a program has heard from the one who waits for it.
pub enum Signal {
    /// The program is to be stopped.
    Kill,
    /// Nothing.
    Quiet,
    /// The other one is gone.
    Gone,
}

/// How a program is doing.
pub enum Child {
    /// It has ended.
    Exited,
    /// It is still running.
    Running,
    /// That could not be found out.
    Unknown,
}

/// What the watcher of a program does next.
#[derive(Clone, Copy, Debug, PartialEq, Eq, Structural)]
pub enum Watch {
    /// Stop the program, wait until it is gone, and leave.
    KillAndLeave,
    /// Leave.
    Leave,
    /// Look how the program is doing.
    Look,
    /// Report the program's end and leave.
    ReportExit,
    /// Report that the program cannot be watched and leave.
    ReportError,
    /// Sleep a while and begin again.
    Sleep,
}

/// What the watcher does before it looks at the program: a call to stop it comes first, then a
/// cancelled batch.
pub fn watch_signals(signal: &Signal, cancelled: bool) -> (next: Watch)
    ensures
        next == (match *signal {
            Signal::Kill => Watch::KillAndLeave,
            Signal::Gone => Watch::Leave,
            Signal::Quiet => if cancelled {
                Watch::KillAndLeave
            } else {
                Watch::Look
            },
        }),
{
    match signal {
        Signal::Kill => Watch::KillAndLeave,
        Signal::Gone => Watch::Leave,
        Signal::Quiet => if cancelled {
            Watch::KillAndLeave
        } else {
            Watch::Look
        },
    }
}

/// What the watcher does once it has looked at the program.
pub fn watch_child(child: &Child) -> (next: Watch)
    ensures
        next == (match *child {
            Child::Exited => Watch::ReportExit,
            Child::Running => Watch::Sleep,
            Child::Unknown => Watch::ReportError,
        }),
{
    match child {
        Child::Exited => Watch::ReportExit,
        Child::Running => Watch::Sleep,
        Child::Unknown => Watch::ReportError,
    }
}

/// What the one who waits for a program has heard from its watcher.
pub enum Notice {
    /// The program has ended with this exit code, if it has one.
    Exited(Option<i32>),
    /// The program cannot be watched.
    Failed,
    /// Nothing for now.
    Quiet,
    /// The watcher is gone.
    Gone,
}

/// How the wait for a program has ended.
#[derive(Clone, Copy, Debug, PartialEq, Eq, Structural)]
pub enum Ending {
    /// The program has ended with this exit code, if it has one.
    Exited(Option<i32>),
    /// The program cannot be watched.
    Failed,
    /// The batch was cancelled.
    Cancelled,
    /// The time is up.
    TimedOut,
    /// The watcher is gone.
    Gone,
}

/// How the wait for a program ends, if it does: where nothing was heard, a cancelled batch ends it
/// first, then the time limit.
pub open spec fn ending(notice: Notice, cancelled: bool, elapsed: nat, limit: nat) -> Option<Ending> {
    match notice {
        Notice::Exited(code) => Some(Ending::Exited(code)),
        Notice::Failed => Some(Ending::Failed),
        Notice::Gone => Some(Ending::Gone),
        Notice::Quiet => if cancelled {
            Some(Ending::Cancelled)
        } else if elapsed >= limit {
            Some(Ending::TimedOut)
        } else {
            None
        },
    }
}

/// How the wait for a program ends, or `None` where it goes on. `elapsed` and `limit` are in whole
/// seconds.
pub fn wait_on(notice: &Notice, cancelled: bool, elapsed: u64, limit: u64) -> (end: Option<Ending>)
    ensures
        end == ending(*notice, cancelled, elapsed as nat, limit as nat),
{
    match notice {
        Notice::Exited(code) => Some(Ending::Exited(*code)),
        Notice::Failed => Some(Ending::Failed),
        Notice::Gone => Some(Ending::Gone),
        Notice::Quiet => if cancelled {
            Some(Ending::Cancelled)
        } else if elapsed >= limit {
            Some(Ending::TimedOut)
        } else {
            None
        },
    }
}

impl Ending {
    /// Whether the program has to be stopped by the one who waited for it, and its output is
    /// dropped: it may still be running.
    pub open spec fn stops(self) -> bool {
        self == Ending::Cancelled || self == Ending::TimedOut
    }

    /// Whether the program has to be stopped by the one who waited for it, and its output is
    /// dropped.
    pub fn stops_program(&self) -> (stop: bool)
        ensures
            stop == self.stops(),
    {
        match self {
            Ending::Cancelled | Ending::TimedOut => true,
            _ => false,
        }
    }
}

/// The exit code and the text that come of a program: its own code and output where it has ended,
/// else -1 and the reason. A program that was killed has no code, which is -1 too.
pub open spec fn command_outcome(
    end: Ending,
    output: Seq<char>,
    errors: Seq<char>,
    limit: nat,
) -> (int, Seq<char>) {
    match end {
        Ending::Exited(Some(code)) => (code as int, output + errors),
        Ending::Exited(None) => (-1, output + errors),
        Ending::Failed => (-1, "ERR_PROCESS"@),
        Ending::Cancelled => (-1, "cancelled"@),
        Ending::TimedOut => (-1, "timeout:"@ + text::digits(limit) + "s"@),
        Ending::Gone => (-1, "ERR_CHANNEL"@),
    }
}

/// The exit code and the text that come of a program.
pub fn command_result(end: &Ending, output: &str, errors: &str, limit: u64) -> (result: (i32, String))
    ensures
        (result.0 as int, result.1@) == command_outcome(*end, output@, errors@, limit as nat),
{
    match end {
        Ending::Exited(code) => {
            let mut all = output.to_owned();
            all.append(errors);
            (code.unwrap_or(-1), all)
        },
        Ending::Failed => (-1, "ERR_PROCESS".to_owned()),
        Ending::Cancelled => (-1, "cancelled".to_owned()),
        Ending::TimedOut => {
            let mut message = "timeout:".to_owned();
            text::push_digits(&mut message, limit as u128);
            message.append("s");
            (-1, message)
        },
        Ending::Gone => (-1, "ERR_CHANNEL".to_owned()),
    }
}

/// The exit code and the text for a program that could not be started.
pub fn spawn_failure(error: &str) -> (result: (i32, String))
    ensures
        result.0 == -1,
        result.1@ == "spawn_fail:"@ + error@,
{
    let mut message = "spawn_fail:".to_owned();
    message.append(error);
    (-1, message)
}

/// A program that did not end by itself never looks like a success: its exit code is not zero.
pub proof fn law_only_programs_that_end_succeed(
    end: Ending,
    output: Seq<char>,
    errors: Seq<char>,
    limit: nat,
)
    ensures
        command_outcome(end, output, errors, limit).0 == 0 <==> end == Ending::Exited(Some(0i32)),
{
}

/// The wait for a program ends at the latest once the time is up, and at once when the batch is
/// cancelled.
pub proof fn law_waits_end(notice: Notice, cancelled: bool, elapsed: nat, limit: nat)
    ensures
        ending(notice, cancelled, elapsed, limit) is None <==> notice is Quiet && !cancelled
            && elapsed < limit,
{
}

/// How a wait ends: a program that has ended, or cannot be watched, ends it whatever else holds; while
/// nothing is heard, a cancelled batch ends it before the time does, and the time at its limit.
pub proof fn law_how_waits_end(
    notice: &Notice,
    cancelled: bool,
    elapsed: u64,
    limit: u64,
    end: Option<Ending>,
)
    requires
        call_ensures(wait_on, (notice, cancelled, elapsed, limit), end),
    ensures
        *notice matches Notice::Exited(code) ==> end == Some(Ending::Exited(code)),
        *notice is Failed ==> end == Some(Ending::Failed),
        *notice is Gone ==> end == Some(Ending::Gone),
        *notice is Quiet && cancelled ==> end == Some(Ending::Cancelled),
        *notice is Quiet && !cancelled && elapsed >= limit ==> end == Some(Ending::TimedOut),
        *notice is Quiet && !cancelled && elapsed < limit ==> end is None,
{
}

/// What comes of a program: its own exit code, or one that is none, and all that it has said, first its
/// output and then its errors, where it has ended; else a code that is no success and the reason alone,
/// which is another one for every way in which the wait can end.
pub proof fn law_what_comes_of_programs(
    end: &Ending,
    output: &str,
    errors: &str,
    limit: u64,
    result: (i32, String),
    stop: bool,
)
    requires
        call_ensures(command_result, (end, output, errors, limit), result),
        call_ensures(Ending::stops_program, (end,), stop),
    ensures
        *end matches Ending::Exited(code) ==> result.1@ == output@ + errors@ && (match code {
            Some(n) => result.0 == n,
            None => result.0 == -1,
        }),
        *end !is Exited ==> result.0 == -1,
        *end == Ending::Failed ==> result.1@ == "ERR_PROCESS"@,
        *end == Ending::Cancelled ==> result.1@ == "cancelled"@,
        *end == Ending::Gone ==> result.1@ == "ERR_CHANNEL"@,
        *end == Ending::TimedOut ==> result.1@ == "timeout:"@ + text::digits(limit as nat) + "s"@,
        stop <==> *end == Ending::Cancelled || *end == Ending::TimedOut,
{
}

/// ffmpeg is told what to read and what to write, each behind its own word, to use its WebP encoder, to
/// overwrite without asking and to repeat without end; the quality and whether to be lossless are as
/// they were given.
pub proof fn law_ffmpeg_is_told_what_to_do(
    source: &str,
    output: &str,
    lossless: bool,
    quality: i32,
    args: Vec<String>,
)
    requires
        call_ensures(animation_args, (source, output, lossless, quality), args),
    ensures
        args@.len() == 12,
        args@[0]@ == "-y"@,
        args@[1]@ == "-i"@ && args@[2]@ == source@,
        args@[3]@ == "-c:v"@ && args@[4]@ == "libwebp"@,
        args@[5]@ == "-lossless"@,
        lossless ==> args@[6]@ == "1"@,
        !lossless ==> args@[6]@ == "0"@,
        args@[7]@ == "-q:v"@ && args@[8]@ == text::decimal(quality as int),
        args@[9]@ == "-loop"@ && args@[10]@ == "0"@,
        args@[11]@ == output@,
{
    let view = naming::texts(args@);
    assert(view.len() == 12);
    assert forall|i: int| 0 <= i < 12 implies view[i] == (#[trigger] args@[i])@ by {}
}

} // verus!
