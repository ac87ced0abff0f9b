//! The command line: its options, and what it reports.
use vstd::prelude::*;
use crate::encode;
use crate::encode::Picture;
use crate::naming;
use crate::naming::{OutputPath, OutputView};
use crate::paths;
use crate::paths::NativePaths;
use crate::render;
use crate::resize;
use crate::text;

verus! {

/// The quality where none is given, or one that is no number.
pub const DEFAULT_QUALITY: i32 = 80;

/// What the command line asks for.
#[derive(Debug)]
pub struct CliOptions {
    pub files: Vec<String>,
    pub quality: i32,
    pub lossless: bool,
    pub resize_width: Option<u32>,
    pub output_dir: Option<String>,
    pub recursive: bool,
}

/// What a command line means.
#[derive(Debug)]
pub enum CliCommand {
    /// Explain the options.
    Help,
    /// Complain: there is nothing to convert.
    NoInput,
    /// Convert.
    Convert(CliOptions),
}

/// The content of [`CliOptions`].
pub struct CliView {
    pub files: Seq<Seq<char>>,
    pub quality: int,
    pub lossless: bool,
    pub resize_width: Option<int>,
    pub output_dir: Option<Seq<char>>,
    pub recursive: bool,
}

impl View for CliOptions {
    type V = CliView;

    open spec fn view(&self) -> CliView {
        CliView {
            files: naming::texts(self.files@),
            quality: self.quality as int,
            lossless: self.lossless,
            resize_width: match self.resize_width {
                Some(w) => Some(w as int),
                None => None,
            },
            output_dir: paths::text_of(self.output_dir),
            recursive: self.recursive,
        }
    }
}

impl CliView {
    /// The options before the first argument.
    pub open spec fn defaults() -> CliView {
        CliView {
            files: seq![],
            quality: DEFAULT_QUALITY as int,
            lossless: false,
            resize_width: None,
            output_dir: None,
            recursive: false,
        }
    }

    /// The options once the arguments have been read, or `None` where one of them asks for help.
    /// An option that takes a value takes the next argument, whatever that is, and has no effect as
    /// the last argument. An argument that is no option names a file, unless it begins with a dash.
    pub open spec fn read(self, args: Seq<Seq<char>>) -> Option<CliView>
        decreases args.len(),
    {
        if args.len() == 0 {
            Some(self)
        } else {
            let arg = args[0];
            let rest = args.skip(1);
            if is_quality(arg) {
                if rest.len() > 0 {
                    CliView { quality: quality_value(rest[0]), ..self }.read(rest.skip(1))
                } else {
                    Some(self)
                }
            } else if is_lossless(arg) {
                CliView { lossless: true, ..self }.read(rest)
            } else if is_resize(arg) {
                if rest.len() > 0 {
                    CliView { resize_width: text::u32_value(rest[0]), ..self }.read(rest.skip(1))
                } else {
                    Some(self)
                }
            } else if is_output_dir(arg) {
                if rest.len() > 0 {
                    CliView { output_dir: Some(rest[0]), ..self }.read(rest.skip(1))
                } else {
                    Some(self)
                }
            } else if arg == "--recursive"@ {
                CliView { recursive: true, ..self }.read(rest)
            } else if is_help(arg) {
                None
            } else if arg.len() > 0 && arg[0] == '-' {
                self.read(rest)
            } else {
                CliView { files: self.files.push(arg), ..self }.read(rest)
            }
        }
    }
}

/// Whether an argument is the option for the quality.
pub open spec fn is_quality(arg: Seq<char>) -> bool {
    arg == "--quality"@ || arg == "-q"@
}

/// Whether an argument is the option for lossless results.
pub open spec fn is_lossless(arg: Seq<char>) -> bool {
    arg == "--lossless"@ || arg == "-l"@
}

/// Whether an argument is the option for the width.
pub open spec fn is_resize(arg: Seq<char>) -> bool {
    arg == "--resize"@ || arg == "-r"@
}

/// Whether an argument is the option for the output directory.
pub open spec fn is_output_dir(arg: Seq<char>) -> bool {
    arg == "--output-dir"@ || arg == "-o"@
}

/// Whether an argument asks for help.
pub open spec fn is_help(arg: Seq<char>) -> bool {
    arg == "--help"@ || arg == "-h"@
}

/// The quality that an argument gives.
pub open spec fn quality_value(arg: Seq<char>) -> int {
    match text::i32_value(arg) {
        Some(q) => q,
        None => DEFAULT_QUALITY as int,
    }
}

/// Whether an argument is one of two spellings.
fn is_either(arg: &str, long: &str, short: &str) -> (yes: bool)
    ensures
        yes == (arg@ == long@ || arg@ == short@),
{
    text::same_text(arg, long) || text::same_text(arg, short)
}

/// Whether an argument begins with a dash.
fn is_dashed(arg: &str) -> (yes: bool)
    ensures
        yes == (arg@.len() > 0 && arg@[0] == '-'),
{
    arg.unicode_len() > 0 && arg.get_char(0) == '-'
}

/// Reads a command line.
pub fn parse_args(args: &Vec<String>) -> (command: CliCommand)
    ensures
        match CliView::defaults().read(naming::texts(args@)) {
            None => command is Help,
            Some(options) => if options.files.len() == 0 {
                command is NoInput
            } else {
                command is Convert && command->Convert_0@ == options
            },
        },
{
    let ghost all = naming::texts(args@);
    let mut options = CliOptions {
        files: Vec::new(),
        quality: DEFAULT_QUALITY,
        lossless: false,
        resize_width: None,
        output_dir: None,
        recursive: false,
    };
    assert(options@.files =~= seq![]);
    assert(options@ == CliView::defaults());
    assert(all.skip(0) =~= all);
    let mut i: usize = 0;
    while i < args.len()
        invariant
            i <= args@.len(),
            all == naming::texts(args@),
            options@.read(all.skip(i as int)) == CliView::defaults().read(all),
        decreases args@.len() - i,
    {
        let arg = args[i].as_str();
        let ghost before = options@;
        let ghost rest = all.skip(i as int);
        proof {
            assert(rest[0] == arg@);
            assert(rest.skip(1) =~= all.skip(i + 1));
            if i + 1 < args@.len() {
                assert(rest.skip(1)[0] == args@[i + 1]@);
                assert(rest.skip(1).skip(1) =~= all.skip(i + 2));
            }
        }
        i += 1;
        if is_either(arg, "--quality", "-q") {
            if i < args.len() {
                options.quality = match text::parse_i32(args[i].as_str()) {
                    Some(q) => q,
                    None => DEFAULT_QUALITY,
                };
                i += 1;
            }
        } else if is_either(arg, "--lossless", "-l") {
            options.lossless = true;
        } else if is_either(arg, "--resize", "-r") {
            if i < args.len() {
                options.resize_width = text::parse_u32(args[i].as_str());
                i += 1;
            }
        } else if is_either(arg, "--output-dir", "-o") {
            if i < args.len() {
                options.output_dir = Some(args[i].clone());
                i += 1;
            }
        } else if text::same_text(arg, "--recursive") {
            options.recursive = true;
        } else if is_either(arg, "--help", "-h") {
            return CliCommand::Help;
        } else if !is_dashed(arg) {
            options.files.push(args[i - 1].clone());
            assert(options@.files =~= before.files.push(arg@));
        }
    }
    assert(all.skip(args@.len() as int) =~= seq![]);
    if options.files.is_empty() {
        assert(options@.files.len() == 0);
        CliCommand::NoInput
    } else {
        CliCommand::Convert(options)
    }
}

/// The files that a command line names are among its arguments, and none of them begins with a
/// dash.
pub proof fn law_files_are_undashed_arguments(options: CliView, args: Seq<Seq<char>>)
    requires
        options.read(args) is Some,
    ensures
        forall|f: Seq<char>| #[trigger]
            options.read(args)->Some_0.files.contains(f) ==> options.files.contains(f) || (
            args.contains(f) && !(f.len() > 0 && f[0] == '-')),
    decreases args.len(),
{
    if args.len() > 0 {
        let arg = args[0];
        let rest = args.skip(1);
        assert forall|f: Seq<char>| rest.contains(f) implies #[trigger] args.contains(f) by {
            let i = choose|i: int| 0 <= i < rest.len() && rest[i] == f;
            assert(args[i + 1] == f);
        }
        if is_quality(arg) {
            if rest.len() > 0 {
                lemma_skipped(rest);
                law_files_are_undashed_arguments(
                    CliView { quality: quality_value(rest[0]), ..options },
                    rest.skip(1),
                );
            }
        } else if is_lossless(arg) {
            law_files_are_undashed_arguments(CliView { lossless: true, ..options }, rest);
        } else if is_resize(arg) {
            if rest.len() > 0 {
                lemma_skipped(rest);
                law_files_are_undashed_arguments(
                    CliView { resize_width: text::u32_value(rest[0]), ..options },
                    rest.skip(1),
                );
            }
        } else if is_output_dir(arg) {
            if rest.len() > 0 {
                lemma_skipped(rest);
                law_files_are_undashed_arguments(
                    CliView { output_dir: Some(rest[0]), ..options },
                    rest.skip(1),
                );
            }
        } else if arg == "--recursive"@ {
            law_files_are_undashed_arguments(CliView { recursive: true, ..options }, rest);
        } else if is_help(arg) {
        } else if arg.len() > 0 && arg[0] == '-' {
            law_files_are_undashed_arguments(options, rest);
        } else {
            let next = CliView { files: options.files.push(arg), ..options };
            law_files_are_undashed_arguments(next, rest);
            assert(args.contains(arg));
            assert forall|f: Seq<char>| #[trigger]
                next.files.contains(f) implies options.files.contains(f) || f == arg by {
                let i = choose|i: int| 0 <= i < next.files.len() && next.files[i] == f;
                if i < options.files.len() {
                    assert(options.files[i] == f);
                }
            }
        }
    }
}

/// What is left of a list without its first element is part of the list.
proof fn lemma_skipped(list: Seq<Seq<char>>)
    requires
        list.len() > 0,
    ensures
        forall|f: Seq<char>| #[trigger] list.skip(1).contains(f) ==> list.contains(f),
{
    assert forall|f: Seq<char>| #[trigger] list.skip(1).contains(f) implies list.contains(f) by {
        let i = choose|i: int| 0 <= i < list.skip(1).len() && list.skip(1)[i] == f;
        assert(list[i + 1] == f);
    }
}

/// Where the result of a source goes: into the output directory where there is one, else beside
/// the source.
pub open spec fn cli_output(sep: char, output_dir: Option<Seq<char>>, source: Seq<char>) -> OutputView {
    let name = paths::path_stem(sep, source) + "-webp.webp"@;
    match output_dir {
        Some(dir) => OutputView { dirs: seq![dir], path: paths::joined(sep, dir, name) },
        None => OutputView {
            dirs: seq![],
            path: paths::joined(sep, paths::path_directory(sep, source), name),
        },
    }
}

/// The file name of the result of a source with this stem.
pub fn cli_output_name(stem: &str) -> (name: String)
    ensures
        name@ == stem@ + "-webp.webp"@,
{
    let mut name = stem.to_owned();
    name.append("-webp.webp");
    name
}

/// Where the result of a source goes.
pub fn cli_output_path(paths: &NativePaths, options: &CliOptions, source: &str) -> (out: OutputPath)
    ensures
        out@ == cli_output(paths.sep(), options@.output_dir, source@),
{
    let name = cli_output_name(paths.stem(source).as_str());
    let parent = paths.directory(source);
    let directory = naming::result_directory(&options.output_dir, &None, parent.as_str());
    let path = paths.join(directory.as_str(), name.as_str());
    naming::arranged_output(&options.output_dir, None, path)
}

/// The dimensions of an image once the options have scaled it: to the width asked for, keeping
/// the aspect ratio.
pub open spec fn cli_dimensions(img: image::DynamicImage, width: Option<u32>) -> (u32, u32) {
    match width {
        Some(w) => resize::fitted(
            resize::image_width(img),
            resize::image_height(img),
            w,
            u32::MAX,
        ),
        None => (resize::image_width(img), resize::image_height(img)),
    }
}

/// Whether an image can be scaled and encoded as the options say.
pub open spec fn cli_renderable(
    img: image::DynamicImage,
    width: Option<u32>,
    lossless: bool,
) -> bool {
    let (w, h) = cli_dimensions(img, width);
    &&& width matches Some(to) ==> resize::within_fits(
        resize::image_width(img),
        resize::image_height(img),
        to,
        u32::MAX,
    )
    &&& resize::printable(w, h, resize::image_alpha(img))
    &&& lossless ==> 1 <= w <= encode::MAX_DIMENSION && 1 <= h <= encode::MAX_DIMENSION
}

/// Whether `out` is what the options make of `img`: the image itself where no width is asked for,
/// else one of the right dimensions and the same kind of pixels; the same pixels where the
/// dimensions stay.
pub open spec fn cli_scaled_from(
    out: image::DynamicImage,
    img: image::DynamicImage,
    width: Option<u32>,
) -> bool {
    &&& (resize::image_width(out), resize::image_height(out)) == cli_dimensions(img, width)
    &&& resize::image_alpha(out) == resize::image_alpha(img)
    &&& width is None ==> out == img
    &&& width matches Some(w) ==> resize::scaled_within(img, w, u32::MAX, out)
        && resize::largest_within(
        resize::image_width(img),
        resize::image_height(img),
        w,
        u32::MAX,
        (resize::image_width(out), resize::image_height(out)),
    )
    &&& (resize::image_width(out), resize::image_height(out)) == (
        resize::image_width(img),
        resize::image_height(img),
    ) ==> resize::same_pixels(out, img)
}

/// An image that is resized to a width, where it can be encoded at all, gets exactly that width, and
/// as its height the nearest pixel that keeps the aspect ratio, but at least one.
pub proof fn law_resizing_reaches_the_width(
    out: image::DynamicImage,
    img: image::DynamicImage,
    width: u32,
)
    requires
        width > 0,
        resize::image_width(img) > 0,
        resize::image_height(img) > 0,
        cli_scaled_from(out, img, Some(width)),
        resize::picture_of(out).encodable(),
    ensures
        resize::image_width(out) == width,
        ({
            let full = resize::image_width(img);
            let exact = width * resize::image_height(img);
            let got = resize::image_height(out) * full;
            ||| resize::image_height(out) == 1 && 2 * exact <= 3 * full
            ||| 2 * (got - exact) <= full && 2 * (exact - got) <= full
        }),
{
    let height = resize::image_height(img);
    assert(height * width <= resize::NEAREST_LIMIT) by (nonlinear_arith)
        requires
            height <= u32::MAX,
            width == resize::image_width(out),
            resize::image_width(out) <= 16383,
    ;
    assert(height * width == width * height) by (nonlinear_arith);
}

/// The reason for a failure that the encoder gives by this number.
pub open spec fn encode_reason(code: int) -> Seq<char> {
    "encode error: "@ + encode::error_name(code)
}

/// Whether the reason for a failure, if there was one, is what a refusal calls for.
pub open spec fn gives_refusal(refused: Option<int>, reason: Option<Seq<char>>) -> bool {
    match refused {
        Some(code) => reason == Some(encode_reason(code)),
        None => reason != Some(encode_reason(4)) && reason != Some(encode_reason(5)),
    }
}

/// A reason gives a refusal exactly where the number behind it does.
proof fn lemma_reasons_give_refusals(refused: Option<int>, failure: Option<int>)
    requires
        encode::meets_refusal(refused, failure),
        refused matches Some(code) ==> code == 4 || code == 5,
    ensures
        gives_refusal(
            refused,
            match failure {
                Some(code) => Some(encode_reason(code)),
                None => None,
            },
        ),
{
    if let Some(code) = failure {
        encode::lemma_refusals_have_names(code);
        let head = "encode error: "@;
        assert(encode_reason(code).skip(head.len() as int) =~= encode::error_name(code));
        assert(encode_reason(4).skip(head.len() as int) =~= encode::error_name(4));
        assert(encode_reason(5).skip(head.len() as int) =~= encode::error_name(5));
    }
}

/// Encodes a picture as the options say: losslessly, or with their quality as it was given.
pub fn cli_encode(picture: &Picture, options: &CliOptions) -> (out: Result<Vec<u8>, String>)
    requires
        picture@.well_formed(),
        options.lossless ==> picture@.encodable(),
    ensures
        options.lossless ==> out is Ok,
        out matches Ok(bytes) ==> bytes@ == picture@.encoded(
            options.quality as int,
            options.lossless,
        ),
        out matches Err(reason) ==> !options.lossless && exists|code: i32|
            reason@ == encode_reason(code as int) && #[trigger] call_ensures(
                encode::encode_lossy,
                (picture, options.quality),
                Err(code),
            ),
        !options.lossless ==> gives_refusal(
            encode::refusal(picture.width, picture.height, options.quality as int),
            encode::failure_message(out),
        ),
{
    if options.lossless {
        return match encode::encode_webp(picture, options.quality, true) {
            Ok(bytes) => Ok(bytes),
            Err(message) => Err(message),
        };
    }
    let out = encode::encode_lossy(picture, options.quality);
    proof {
        lemma_reasons_give_refusals(
            encode::refusal(picture.width, picture.height, options.quality as int),
            encode::failure_code(out),
        );
    }
    match out {
        Ok(bytes) => Ok(bytes),
        Err(code) => {
            let mut reason = "encode error: ".to_owned();
            reason.append(encode::encoder_error_name(code));
            assert(reason@ == encode_reason(code as int));
            Err(reason)
        },
    }
}

/// Whether the encoding of a scaled image has failed for a reason.
pub open spec fn cli_encoding_failed(
    from: image::DynamicImage,
    picture: &Picture,
    options: &CliOptions,
    reason: String,
) -> bool {
    picture@ == resize::picture_of(from) && call_ensures(cli_encode, (picture, options), Err(reason))
}

/// Scales and encodes an image as the options say; `None` where that cannot be done at all.
pub fn cli_render(img: image::DynamicImage, options: &CliOptions) -> (out: Option<
    Result<Vec<u8>, String>,
>)
    ensures
        out is Some <==> cli_renderable(img, options.resize_width, options.lossless),
        out matches Some(Ok(bytes)) ==> exists|from: image::DynamicImage|
            #[trigger] cli_scaled_from(from, img, options.resize_width) && bytes@
                == resize::picture_of(from).encoded(options.quality as int, options.lossless),
        out matches Some(Err(reason)) ==> !options.lossless && exists|
            from: image::DynamicImage,
            picture: &Picture,
        |
            cli_scaled_from(from, img, options.resize_width) && #[trigger] cli_encoding_failed(
                from,
                picture,
                options,
                reason,
            ),
        out matches Some(made) ==> (!options.lossless ==> gives_refusal(
            encode::refusal(
                cli_dimensions(img, options.resize_width).0,
                cli_dimensions(img, options.resize_width).1,
                options.quality as int,
            ),
            encode::failure_message(made),
        )),
{
    let ghost before = img;
    let scaled = match options.resize_width {
        Some(w) => {
            if !resize::can_scale_within(resize::width_of(&img), resize::height_of(&img), w, u32::MAX) {
                return None;
            }
            resize::fit_within(&img, w, u32::MAX)
        },
        None => img,
    };
    let (w, h) = (resize::width_of(&scaled), resize::height_of(&scaled));
    if !resize::can_print(&scaled) {
        return None;
    }
    if options.lossless && (w < 1 || w > encode::MAX_DIMENSION || h < 1 || h
        > encode::MAX_DIMENSION) {
        return None;
    }
    assert(cli_scaled_from(scaled, before, options.resize_width));
    let picture = Picture::from_image(&scaled);
    let made = cli_encode(&picture, options);
    if let Err(reason) = &made {
        assert(cli_encoding_failed(scaled, &picture, options, *reason));
    }
    Some(made)
}

/// What became of one file.
pub enum CliOutcome {
    /// It was converted, from this many bytes to this many.
    Converted { original: int, converted: int },
    /// It was not.
    Failed,
}

/// What became of the files so far.
#[derive(Clone, Copy, Debug)]
pub struct CliTally {
    pub success: u32,
    pub fail: u32,
    pub total_saved: i64,
}

/// The content of a [`CliTally`].
pub struct TallyView {
    pub success: nat,
    pub fail: nat,
    pub total_saved: int,
}

impl View for CliTally {
    type V = TallyView;

    open spec fn view(&self) -> TallyView {
        TallyView {
            success: self.success as nat,
            fail: self.fail as nat,
            total_saved: self.total_saved as int,
        }
    }
}

impl TallyView {
    /// The tally with one more outcome.
    pub open spec fn after(self, outcome: CliOutcome) -> TallyView {
        match outcome {
            CliOutcome::Converted { original, converted } => TallyView {
                success: self.success + 1,
                total_saved: self.total_saved + (original - converted),
                ..self
            },
            CliOutcome::Failed => TallyView { fail: self.fail + 1, ..self },
        }
    }

    /// The tally of a list of outcomes.
    pub open spec fn of(outcomes: Seq<CliOutcome>) -> TallyView
        decreases outcomes.len(),
    {
        if outcomes.len() == 0 {
            TallyView { success: 0, fail: 0, total_saved: 0 }
        } else {
            TallyView::of(outcomes.drop_last()).after(outcomes.last())
        }
    }
}

/// The size in whole kilobytes, cut off towards zero.
pub open spec fn kilobytes(bytes: int) -> Seq<char> {
    text::decimal(text::quotient(bytes, 1024)) + "KB"@
}

/// The line for a converted file.
pub open spec fn converted_line(
    source: Seq<char>,
    output: Seq<char>,
    original: int,
    converted: int,
) -> Seq<char> {
    "  OK: "@ + source + " → "@ + output + " ("@ + kilobytes(original) + " → "@ + kilobytes(
        converted,
    ) + ", saved "@ + kilobytes(original - converted) + ")"@
}

/// The line for a file that was not converted.
pub open spec fn failed_line(source: Seq<char>, reason: Seq<char>) -> Seq<char> {
    "  FAIL: "@ + source + " — "@ + reason
}

/// The line before the first file.
pub open spec fn opening_line(files: nat) -> Seq<char> {
    "Processing "@ + text::digits(files) + " files..."@
}

/// The lines after the last file; the first is empty.
pub open spec fn closing_lines(tally: TallyView) -> Seq<char> {
    "\nDone: "@ + text::digits(tally.success) + " success, "@ + text::digits(tally.fail)
        + " failed, total saved: "@ + kilobytes(tally.total_saved)
}

/// Writes a size in whole kilobytes behind a text.
fn push_kilobytes(line: &mut String, bytes: i64)
    ensures
        final(line)@ == old(line)@ + kilobytes(bytes as int),
{
    text::push_decimal(line, text::divide(bytes, 1024));
    line.append("KB");
    assert(line@ =~= old(line)@ + kilobytes(bytes as int));
}

/// The line before the first file.
pub fn processing_line(files: usize) -> (line: String)
    ensures
        line@ == opening_line(files as nat),
{
    let mut line = "Processing ".to_owned();
    text::push_digits(&mut line, files as u128);
    line.append(" files...");
    line
}

/// The reason for a failure to write a result.
pub fn write_reason(error: &str) -> (reason: String)
    ensures
        reason@ == "write error: "@ + error@,
{
    let mut reason = "write error: ".to_owned();
    reason.append(error);
    reason
}

impl CliTally {
    /// The tally before the first file.
    pub fn new() -> (tally: CliTally)
        ensures
            tally@ == TallyView::of(seq![]),
    {
        CliTally { success: 0, fail: 0, total_saved: 0 }
    }

    /// Whether the counters have room for a file converted from `original` bytes to `converted`.
    pub open spec fn has_room(self, original: i64, converted: i64) -> bool {
        &&& self.success < u32::MAX
        &&& i64::MIN <= original - converted <= i64::MAX
        &&& i64::MIN <= self.total_saved + (original - converted) <= i64::MAX
    }

    /// Whether the counters have room for a file converted from `original` bytes to `converted`.
    pub fn can_count(&self, original: i64, converted: i64) -> (can: bool)
        ensures
            can == self.has_room(original, converted),
    {
        let saved: i128 = original as i128 - converted as i128;
        let total: i128 = self.total_saved as i128 + saved;
        self.success < u32::MAX && i64::MIN as i128 <= saved && saved <= i64::MAX as i128
            && i64::MIN as i128 <= total && total <= i64::MAX as i128
    }

    /// Counts a converted file, and gives the line for it.
    pub fn converted(&mut self, source: &str, output: &str, original: i64, converted: i64) -> (line:
        String)
        requires
            old(self).has_room(original, converted),
        ensures
            final(self)@ == old(self)@.after(
                CliOutcome::Converted { original: original as int, converted: converted as int },
            ),
            line@ == converted_line(source@, output@, original as int, converted as int),
    {
        let saved: i64 = original - converted;
        self.total_saved = self.total_saved + saved;
        self.success = self.success + 1;
        let mut line = "  OK: ".to_owned();
        line.append(source);
        line.append(" → ");
        line.append(output);
        line.append(" (");
        push_kilobytes(&mut line, original);
        line.append(" → ");
        push_kilobytes(&mut line, converted);
        line.append(", saved ");
        push_kilobytes(&mut line, saved);
        line.append(")");
        line
    }

    /// Counts a file that was not converted, and gives the line for it.
    pub fn failed(&mut self, source: &str, reason: &str) -> (line: String)
        requires
            old(self).fail < u32::MAX,
        ensures
            final(self)@ == old(self)@.after(CliOutcome::Failed),
            line@ == failed_line(source@, reason@),
    {
        self.fail = self.fail + 1;
        let mut line = "  FAIL: ".to_owned();
        line.append(source);
        line.append(" — ");
        line.append(reason);
        line
    }

    /// The lines after the last file.
    pub fn closing(&self) -> (lines: String)
        ensures
            lines@ == closing_lines(self@),
    {
        let mut lines = "\nDone: ".to_owned();
        text::push_digits(&mut lines, self.success as u128);
        lines.append(" success, ");
        text::push_digits(&mut lines, self.fail as u128);
        lines.append(" failed, total saved: ");
        push_kilobytes(&mut lines, self.total_saved);
        lines
    }
}

/// The bytes that a list of outcomes has saved.
pub open spec fn savings(outcomes: Seq<CliOutcome>) -> int
    decreases outcomes.len(),
{
    if outcomes.len() == 0 {
        0
    } else {
        savings(outcomes.drop_last()) + match outcomes.last() {
            CliOutcome::Converted { original, converted } => original - converted,
            CliOutcome::Failed => 0,
        }
    }
}

/// Every file counts once, as a success or as a failure, and only the converted ones count towards
/// the total saved.
pub proof fn law_every_file_is_tallied_once(outcomes: Seq<CliOutcome>)
    ensures
        TallyView::of(outcomes).success == outcomes.filter(
            |o: CliOutcome| o is Converted,
        ).len(),
        TallyView::of(outcomes).success + TallyView::of(outcomes).fail == outcomes.len(),
        TallyView::of(outcomes).total_saved == savings(outcomes),
    decreases outcomes.len(),
{
    reveal(Seq::filter);
    if outcomes.len() > 0 {
        law_every_file_is_tallied_once(outcomes.drop_last());
    }
}

/// Whether an argument is an option that takes the next argument as its value.
pub open spec fn takes_value(arg: Seq<char>) -> bool {
    arg == "--quality"@ || arg == "-q"@ || arg == "--resize"@ || arg == "-r"@ || arg
        == "--output-dir"@ || arg == "-o"@
}

/// Whether an argument is the value of the one before it, which is an option that takes one and is not
/// itself a value.
pub open spec fn is_value(args: Seq<Seq<char>>, i: int) -> bool
    decreases i,
{
    i > 0 && takes_value(args[i - 1]) && !is_value(args, i - 1)
}

/// The files among the first `n` arguments: those that do not begin with a dash and are no values.
pub open spec fn named_files(args: Seq<Seq<char>>, n: int) -> Seq<Seq<char>>
    decreases n,
{
    if n <= 0 {
        seq![]
    } else {
        let before = named_files(args, n - 1);
        let arg = args[n - 1];
        if is_value(args, n - 1) || (arg.len() > 0 && arg[0] == '-') {
            before
        } else {
            before.push(arg)
        }
    }
}

/// Whether one of two spellings is among the first `n` arguments, other than as a value.
pub open spec fn is_said(args: Seq<Seq<char>>, n: int, long: Seq<char>, short: Seq<char>) -> bool {
    exists|i: int|
        0 <= i < n && !#[trigger] is_value(args, i) && (args[i] == long || args[i] == short)
}

/// The last value among the first `n` arguments of an option with these two spellings, if there is one.
pub open spec fn last_value(
    args: Seq<Seq<char>>,
    n: int,
    long: Seq<char>,
    short: Seq<char>,
) -> Option<Seq<char>>
    decreases n,
{
    if n <= 0 {
        None
    } else if is_value(args, n - 1) && (args[n - 2] == long || args[n - 2] == short) {
        Some(args[n - 1])
    } else {
        last_value(args, n - 1, long, short)
    }
}

/// Whether options say what a command line does: its files are all the arguments that are no values and
/// do not begin with a dash, in order; a switch is on exactly where it is said; and of a value that is
/// given more than once the last one counts, a quality that is no number as eighty and a width that is
/// none as none.
pub open spec fn say_what_is_said(options: CliOptions, args: Seq<Seq<char>>) -> bool {
    let n = args.len() as int;
    &&& naming::texts(options.files@) == named_files(args, n)
    &&& options.lossless == is_said(args, n, "--lossless"@, "-l"@)
    &&& options.recursive == is_said(args, n, "--recursive"@, "--recursive"@)
    &&& match last_value(args, n, "--quality"@, "-q"@) {
        Some(value) => match text::i32_value(value) {
            Some(quality) => options.quality == quality,
            None => options.quality == 80,
        },
        None => options.quality == 80,
    }
    &&& match last_value(args, n, "--resize"@, "-r"@) {
        Some(value) => match text::u32_value(value) {
            Some(width) => options.resize_width is Some && options.resize_width->0 == width,
            None => options.resize_width is None,
        },
        None => options.resize_width is None,
    }
    &&& paths::text_of(options.output_dir) == last_value(args, n, "--output-dir"@, "-o"@)
}

/// A command line means what is said on it: help where that is asked for, other than as a value; else
/// that nothing is to be converted where no argument names a file, and what its options say where one
/// does.
pub proof fn law_command_lines_mean_what_they_say(args: &Vec<String>, command: CliCommand)
    requires
        call_ensures(parse_args, (args,), command),
    ensures
        ({
            let list = naming::texts(args@);
            let helps = is_said(list, list.len() as int, "--help"@, "-h"@);
            let files = named_files(list, list.len() as int);
            &&& command is Help <==> helps
            &&& command is NoInput <==> !helps && files.len() == 0
            &&& command matches CliCommand::Convert(options) ==> say_what_is_said(options, list)
        }),
{
    let list = naming::texts(args@);
    let n = list.len() as int;
    lemma_reading(list, 0);
    assert(list.skip(0) =~= list);
    let start = seen(list, 0);
    assert(start.files =~= CliView::defaults().files);
    assert(!start.lossless && !start.recursive);
    assert(start == CliView::defaults());
    assert(helped_from(list, 0) <==> is_said(list, n, "--help"@, "-h"@)) by {
        if is_said(list, n, "--help"@, "-h"@) {
            let i = choose|i: int|
                0 <= i < n && !#[trigger] is_value(list, i) && (list[i] == "--help"@ || list[i]
                    == "-h"@);
            assert(0 <= i < list.len() && !is_value(list, i));
        }
    }
    if let CliCommand::Convert(options) = command {
        assert(options@ == seen(list, n));
        assert(options@.quality == options.quality);
    }
}

/// A command line without options that take a value and without a call for help has exactly its
/// arguments that do not begin with a dash as its files, in order.
pub proof fn law_plain_arguments_are_files(args: &Vec<String>, command: CliCommand)
    requires
        call_ensures(parse_args, (args,), command),
        forall|i: int|
            0 <= i < args@.len() ==> !takes_value((#[trigger] args@[i])@) && args@[i]@ != "--help"@
                && args@[i]@ != "-h"@,
    ensures
        ({
            let files = naming::texts(args@).filter(
                |arg: Seq<char>| !(arg.len() > 0 && arg[0] == '-'),
            );
            &&& command !is Help
            &&& command is NoInput <==> files.len() == 0
            &&& command matches CliCommand::Convert(options) ==> naming::texts(options.files@)
                == files
        }),
{
    let list = naming::texts(args@);
    assert forall|i: int| 0 <= i < list.len() implies !takes_value(#[trigger] list[i]) && list[i]
        != "--help"@ && list[i] != "-h"@ by {
        assert(list[i] == args@[i]@);
    }
    law_command_lines_mean_what_they_say(args, command);
    lemma_plain_files(list, list.len() as int);
    assert(list.take(list.len() as int) =~= list);
}

/// The files among arguments of which none takes a value.
proof fn lemma_plain_files(args: Seq<Seq<char>>, n: int)
    requires
        0 <= n <= args.len(),
        forall|i: int| 0 <= i < args.len() ==> !takes_value(#[trigger] args[i]),
    ensures
        named_files(args, n) == args.take(n).filter(
            |arg: Seq<char>| !(arg.len() > 0 && arg[0] == '-'),
        ),
    decreases n,
{
    reveal(Seq::filter);
    if n > 0 {
        lemma_plain_files(args, n - 1);
        assert(args.take(n).drop_last() =~= args.take(n - 1));
        assert(args.take(n).last() == args[n - 1]);
    }
}

/// The options as the first `n` arguments have them.
spec fn seen(args: Seq<Seq<char>>, n: int) -> CliView {
    CliView {
        files: named_files(args, n),
        quality: match last_value(args, n, "--quality"@, "-q"@) {
            Some(value) => quality_value(value),
            None => 80,
        },
        lossless: is_said(args, n, "--lossless"@, "-l"@),
        resize_width: match last_value(args, n, "--resize"@, "-r"@) {
            Some(value) => text::u32_value(value),
            None => None,
        },
        output_dir: last_value(args, n, "--output-dir"@, "-o"@),
        recursive: is_said(args, n, "--recursive"@, "--recursive"@),
    }
}

/// Whether help is asked for among the arguments from `i` on, other than as a value.
spec fn helped_from(args: Seq<Seq<char>>, i: int) -> bool {
    exists|k: int|
        i <= k < args.len() && !#[trigger] is_value(args, k) && (args[k] == "--help"@ || args[k]
            == "-h"@)
}

/// No two spellings of different options are the same, and all of them begin with a dash.
proof fn lemma_spellings()
    ensures
        "--quality"@.len() == 9 && "--lossless"@.len() == 10 && "--resize"@.len() == 8,
        "--output-dir"@.len() == 12 && "--recursive"@.len() == 11 && "--help"@.len() == 6,
        "-q"@ == seq!['-', 'q'] && "-l"@ == seq!['-', 'l'] && "-r"@ == seq!['-', 'r'],
        "-o"@ == seq!['-', 'o'] && "-h"@ == seq!['-', 'h'],
        "--quality"@[0] == '-' && "--lossless"@[0] == '-' && "--resize"@[0] == '-',
        "--output-dir"@[0] == '-' && "--recursive"@[0] == '-' && "--help"@[0] == '-',
{
    reveal_strlit("--quality");
    reveal_strlit("--lossless");
    reveal_strlit("--resize");
    reveal_strlit("--output-dir");
    reveal_strlit("--recursive");
    reveal_strlit("--help");
    reveal_strlit("-q");
    reveal_strlit("-l");
    reveal_strlit("-r");
    reveal_strlit("-o");
    reveal_strlit("-h");
    assert("-q"@ =~= seq!['-', 'q']);
    assert("-l"@ =~= seq!['-', 'l']);
    assert("-r"@ =~= seq!['-', 'r']);
    assert("-o"@ =~= seq!['-', 'o']);
    assert("-h"@ =~= seq!['-', 'h']);
}

/// Whether a spelling is among one more argument.
proof fn lemma_said(args: Seq<Seq<char>>, n: int, long: Seq<char>, short: Seq<char>)
    requires
        0 <= n < args.len(),
    ensures
        is_said(args, n + 1, long, short) <==> is_said(args, n, long, short) || (!is_value(args, n)
            && (args[n] == long || args[n] == short)),
{
    if is_said(args, n, long, short) {
        let i = choose|i: int|
            0 <= i < n && !#[trigger] is_value(args, i) && (args[i] == long || args[i] == short);
        assert(0 <= i < n + 1 && !is_value(args, i));
    }
    if is_said(args, n + 1, long, short) {
        let i = choose|i: int|
            0 <= i < n + 1 && !#[trigger] is_value(args, i) && (args[i] == long || args[i] == short);
        if i < n {
            assert(0 <= i < n && !is_value(args, i));
        }
    }
}

/// One more argument, and what is said on the two switches.
proof fn lemma_switches(args: Seq<Seq<char>>, n: int)
    requires
        0 <= n < args.len(),
    ensures
        seen(args, n + 1).lossless == (seen(args, n).lossless || (!is_value(args, n) && is_lossless(
            args[n],
        ))),
        seen(args, n + 1).recursive == (seen(args, n).recursive || (!is_value(args, n) && args[n]
            == "--recursive"@)),
{
    lemma_said(args, n, "--lossless"@, "-l"@);
    lemma_said(args, n, "--recursive"@, "--recursive"@);
}

/// Reading the arguments from one on that is no value, with the options as those before it have them,
/// gives the options as all of them have them, or help where that is asked for.
proof fn lemma_reading(args: Seq<Seq<char>>, i: int)
    requires
        0 <= i <= args.len(),
        !is_value(args, i),
    ensures
        seen(args, i).read(args.skip(i)) == if helped_from(args, i) {
            None
        } else {
            Some(seen(args, args.len() as int))
        },
    decreases args.len() - i,
{
    let n = args.len() as int;
    let rest = args.skip(i);
    lemma_spellings();
    if i < n {
        let arg = args[i];
        assert(rest[0] == arg);
        assert(rest.skip(1) =~= args.skip(i + 1));
        lemma_switches(args, i);
        lemma_help_further(args, i);
        if takes_value(arg) {
            assert(arg.len() > 0 && arg[0] == '-');
            if i + 1 < n {
                assert(is_value(args, i + 1));
                assert(!is_value(args, i + 2));
                assert(rest.skip(1)[0] == args[i + 1]);
                assert(rest.skip(1).skip(1) =~= args.skip(i + 2));
                lemma_switches(args, i + 1);
                lemma_help_further(args, i + 1);
                lemma_reading(args, i + 2);
                assert(last_value(args, i + 1, "--quality"@, "-q"@) == last_value(
                    args,
                    i,
                    "--quality"@,
                    "-q"@,
                ));
                assert(last_value(args, i + 1, "--resize"@, "-r"@) == last_value(
                    args,
                    i,
                    "--resize"@,
                    "-r"@,
                ));
                assert(last_value(args, i + 1, "--output-dir"@, "-o"@) == last_value(
                    args,
                    i,
                    "--output-dir"@,
                    "-o"@,
                ));
                assert(named_files(args, i + 1) == named_files(args, i));
                assert(named_files(args, i + 2) == named_files(args, i));
                let next = seen(args, i + 2);
                if is_quality(arg) {
                    assert(next == (CliView {
                        quality: quality_value(args[i + 1]),
                        ..seen(args, i)
                    }));
                } else if is_resize(arg) {
                    assert(next == (CliView {
                        resize_width: text::u32_value(args[i + 1]),
                        ..seen(args, i)
                    }));
                } else {
                    assert(next == (CliView { output_dir: Some(args[i + 1]), ..seen(args, i) }));
                }
            } else {
                assert(n == i + 1);
                assert(named_files(args, n) == named_files(args, i));
                assert(seen(args, n) == seen(args, i));
                assert(!helped_from(args, n));
            }
        } else {
            assert(!is_value(args, i + 1));
            lemma_reading(args, i + 1);
            let next = seen(args, i + 1);
            if is_lossless(arg) {
                assert(next == (CliView { lossless: true, ..seen(args, i) }));
            } else if arg == "--recursive"@ {
                assert(next == (CliView { recursive: true, ..seen(args, i) }));
            } else if is_help(arg) {
                assert(helped_from(args, i));
            } else if arg.len() > 0 && arg[0] == '-' {
                assert(next == seen(args, i));
            } else {
                assert(next == (CliView { files: seen(args, i).files.push(arg), ..seen(args, i) }));
            }
        }
    } else {
        assert(rest =~= seq![]);
    }
}

/// Whether help is asked for from one argument on, or from the next.
proof fn lemma_help_further(args: Seq<Seq<char>>, i: int)
    requires
        0 <= i < args.len(),
    ensures
        helped_from(args, i) <==> helped_from(args, i + 1) || (!is_value(args, i) && is_help(
            args[i],
        )),
{
    if helped_from(args, i) {
        let k = choose|k: int|
            i <= k < args.len() && !#[trigger] is_value(args, k) && (args[k] == "--help"@ || args[k]
                == "-h"@);
        if k > i {
            assert(i + 1 <= k < args.len() && !is_value(args, k));
        }
    }
    if helped_from(args, i + 1) {
        let k = choose|k: int|
            i + 1 <= k < args.len() && !#[trigger] is_value(args, k) && (args[k] == "--help"@
                || args[k] == "-h"@);
        assert(i <= k < args.len() && !is_value(args, k));
    }
}

/// The result of a source has the stem of the source and one fixed ending, and is in the output
/// directory where there is one, which is then made, else beside the source.
pub proof fn law_command_line_results_are_placed(
    paths: &NativePaths,
    options: &CliOptions,
    source: &str,
    out: OutputPath,
)
    requires
        call_ensures(cli_output_path, (paths, options, source), out),
    ensures
        ({
            let sep = paths.sep();
            let name = paths::path_stem(sep, source@) + "-webp.webp"@;
            match options.output_dir {
                Some(dir) => out.path@ == paths::joined(sep, dir@, name) && naming::texts(
                    out.dirs@,
                ) == seq![dir@],
                None => out.path@ == paths::joined(sep, paths::path_directory(sep, source@), name)
                    && out.dirs@.len() == 0,
            }
        }),
{
    assert(out@.path == out.path@);
    assert(out@.dirs.len() == out.dirs@.len());
}

/// What the command line makes of an image is the encoder's own form, at the quality as it was given or
/// losslessly, of the image itself where no width is asked for, and else of one that has that width,
/// unless it is as high as it can be, and as its height the nearest pixel in step.
pub proof fn law_the_command_line_encodes_what_is_asked(
    img: image::DynamicImage,
    options: &CliOptions,
    out: Option<Result<Vec<u8>, String>>,
)
    requires
        call_ensures(cli_render, (img, options), out),
    ensures
        out matches Some(Ok(bytes)) ==> exists|from: image::DynamicImage| #[trigger]
            widened(from, img, options.resize_width) && bytes@ == ({
                let picture = render::pixels_of(from);
                if options.lossless {
                    encode::webp_lossless(
                        picture.alpha,
                        picture.pixels,
                        picture.width,
                        picture.height,
                    )
                } else {
                    encode::webp_lossy(
                        picture.alpha,
                        picture.pixels,
                        picture.width,
                        picture.height,
                        options.quality as int,
                    )
                }
            }),
        out matches Some(made) ==> {
            &&& options.lossless ==> made is Ok
            &&& !options.lossless && !(0 <= options.quality <= 100) ==> made is Err && made->Err_0@
                == "encode error: "@ + "VP8_ENC_ERROR_INVALID_CONFIGURATION"@
            &&& options.resize_width is None && !options.lossless && 0 <= options.quality <= 100 && !(1
                <= resize::image_width(img) <= 16383 && 1 <= resize::image_height(img) <= 16383)
                ==> made is Err && made->Err_0@ == "encode error: "@
                + "VP8_ENC_ERROR_BAD_DIMENSION"@
        },
        options.resize_width is None && 1 <= resize::image_width(img) <= 16383 && 1
            <= resize::image_height(img) <= 16383 && resize::image_width(img)
            * resize::image_height(img) * 4 <= isize::MAX ==> out is Some,
{
    if let Some(Ok(bytes)) = out {
        let from = choose|from: image::DynamicImage|
            #[trigger] cli_scaled_from(from, img, options.resize_width) && bytes@
                == resize::picture_of(from).encoded(options.quality as int, options.lossless);
        resize::lemma_in_step(
            resize::image_height(from),
            resize::image_height(img),
            resize::image_width(from),
            resize::image_width(img),
        );
        resize::lemma_in_step(
            resize::image_width(from),
            resize::image_width(img),
            resize::image_height(from),
            resize::image_height(img),
        );
        assert(resize::picture_of(from) == render::pixels_of(from));
        assert(widened(from, img, options.resize_width));
    }
}

/// Whether an image is another one at a width, if one is asked for.
pub open spec fn widened(
    out: image::DynamicImage,
    img: image::DynamicImage,
    width: Option<u32>,
) -> bool {
    let (w, h) = (resize::image_width(img) as int, resize::image_height(img) as int);
    let (ow, oh) = (resize::image_width(out) as int, resize::image_height(out) as int);
    &&& resize::image_alpha(out) == resize::image_alpha(img)
    &&& width is None ==> out == img
    &&& width matches Some(to) ==> w > 0 && h > 0 ==> {
        &&& 0 < ow && 0 < oh
        &&& to == 0 ==> ow == 1 && oh == 1
        &&& to > 0 ==> (ow == to && resize::in_step(oh, h, ow, w)) || (oh == u32::MAX
            && resize::in_step(ow, w, oh, h))
    }
}

/// Sizes are told in whole kilobytes, cut off towards zero: no text tells of a kilobyte that is not
/// whole.
pub proof fn law_sizes_are_told_in_whole_kilobytes(bytes: int, whole: int)
    requires
        bytes >= 0,
        whole * 1024 <= bytes < whole * 1024 + 1024,
    ensures
        kilobytes(bytes) == text::digits(whole as nat) + "KB"@,
        bytes > 0 && whole > 0 ==> kilobytes(-bytes) == seq!['-'] + text::digits(whole as nat)
            + "KB"@,
        whole == 0 ==> kilobytes(-bytes) == text::digits(0) + "KB"@,
{
    assert(bytes / 1024 == whole);
    if bytes > 0 && whole > 0 {
        assert(text::quotient(-bytes, 1024) == -whole);
        text::law_digits_are_written_in_tens(whole as nat, 0);
        assert(text::decimal(-whole) == seq!['-'] + text::digits(whole as nat));
    }
}

/// What the command line says: of every file its name, and of one that was converted where it went and
/// its sizes before and after and their difference, of another one why not; before them how many there
/// are, and after them how many of each there were and what was saved in all.
pub proof fn law_what_the_command_line_says(
    source: Seq<char>,
    output: Seq<char>,
    original: int,
    converted: int,
    reason: Seq<char>,
    files: nat,
    tally: TallyView,
)
    ensures
        converted_line(source, output, original, converted) == "  OK: "@ + source + " → "@ + output
            + " ("@ + kilobytes(original) + " → "@ + kilobytes(converted) + ", saved "@ + kilobytes(
            original - converted,
        ) + ")"@,
        failed_line(source, reason) == "  FAIL: "@ + source + " — "@ + reason,
        opening_line(files) == "Processing "@ + text::digits(files) + " files..."@,
        closing_lines(tally) == "\nDone: "@ + text::digits(tally.success) + " success, "@
            + text::digits(tally.fail) + " failed, total saved: "@ + kilobytes(tally.total_saved),
{
}

/// What one more file adds to the tally: one success and the difference of its sizes, whichever is
/// larger, or one failure and nothing else.
pub proof fn law_what_files_add_to_the_tally(tally: TallyView, original: int, converted: int)
    ensures
        ({
            let after = tally.after(CliOutcome::Converted { original, converted });
            &&& after.success == tally.success + 1
            &&& after.fail == tally.fail
            &&& after.total_saved == tally.total_saved + original - converted
        }),
        ({
            let after = tally.after(CliOutcome::Failed);
            &&& after.success == tally.success
            &&& after.fail == tally.fail + 1
            &&& after.total_saved == tally.total_saved
        }),
{
}

/// Images of ordinary size are always rendered: where the scaling is ordinary, and what comes out of it
/// has sides that a WebP picture can have.
pub proof fn law_the_command_line_renders_ordinary_images(
    img: image::DynamicImage,
    options: &CliOptions,
    out: Option<Result<Vec<u8>, String>>,
)
    requires
        call_ensures(cli_render, (img, options), out),
        options.resize_width matches Some(w) ==> resize::ordinary(
            resize::Resize::Within { width: w, height: u32::MAX },
            resize::image_width(img),
            resize::image_height(img),
            (0, 0),
        ),
        ({
            let (w, h) = cli_dimensions(img, options.resize_width);
            1 <= w <= 16383 && 1 <= h <= 16383 && w * h * 4 <= isize::MAX
        }),
    ensures
        out is Some,
        options.lossless ==> out->0 is Ok,
{
    if let Some(w) = options.resize_width {
        resize::lemma_ordinary_fits(
            resize::Resize::Within { width: w, height: u32::MAX },
            resize::image_width(img),
            resize::image_height(img),
            (0, 0),
        );
    }
}

} // verus!
