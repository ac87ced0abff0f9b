//! What a conversion is asked to do, and what it reports.
use vstd::prelude::*;
use crate::paths;
use crate::text;

verus! {

/// A request to convert files.
#[derive(Debug, Clone)]
pub struct ConvertRequest {
    pub files: Vec<String>,
    pub quality: i32,
    pub recursive: bool,
    pub delete_source: bool,
    pub output_dir: Option<String>,
    pub naming_mode: String,
    pub lossless: bool,
    pub strip_exif: bool,
    pub preserve_structure: bool,
    pub target_size_kb: Option<u32>,
    pub resize_enabled: bool,
    pub resize_width: Option<u32>,
    pub resize_height: Option<u32>,
    /// `fit`, `fill` or `shrink`; anything else means `fit`.
    pub resize_mode: String,
    /// The directory that `preserve_structure` measures from.
    pub base_dir: Option<String>,
}

/// How the conversion of one file is coming along.
#[derive(Debug, Clone)]
pub struct FileProgress {
    pub file: String,
    pub status: String,
    pub message: String,
    pub saved_bytes: i64,
    pub saved_pct: i32,
    /// The file that was written, once there is one.
    pub output_path: Option<String>,
}

/// The tally of a batch.
#[derive(Debug, Clone, Copy)]
pub struct ConvertResult {
    pub success_count: u32,
    pub skip_count: u32,
    pub fail_count: u32,
    pub total_original: i64,
    pub total_converted: i64,
    pub saved: i64,
    pub saved_pct: i32,
}

/// The resize mode of a request that names none.
pub fn default_resize_mode() -> (mode: String)
    ensures
        mode@ == "fit"@,
{
    "fit".to_owned()
}

/// The content of a [`FileProgress`].
pub struct ProgressView {
    pub file: Seq<char>,
    pub status: Seq<char>,
    pub message: Seq<char>,
    pub saved_bytes: int,
    pub saved_pct: int,
    pub output_path: Option<Seq<char>>,
}

impl View for FileProgress {
    type V = ProgressView;

    open spec fn view(&self) -> ProgressView {
        ProgressView {
            file: self.file@,
            status: self.status@,
            message: self.message@,
            saved_bytes: self.saved_bytes as int,
            saved_pct: self.saved_pct as int,
            output_path: paths::text_of(self.output_path),
        }
    }
}

/// A report that nothing was saved and nothing written.
pub open spec fn plain_progress(
    file: Seq<char>,
    status: Seq<char>,
    message: Seq<char>,
) -> ProgressView {
    ProgressView { file, status, message, saved_bytes: 0, saved_pct: 0, output_path: None }
}

/// A report on a file, with what it saved.
pub fn progress_with_output(
    file: &str,
    status: &str,
    message: &str,
    saved_bytes: i64,
    saved_pct: i32,
    output_path: Option<String>,
) -> (progress: FileProgress)
    ensures
        progress@ == (ProgressView {
            file: file@,
            status: status@,
            message: message@,
            saved_bytes: saved_bytes as int,
            saved_pct: saved_pct as int,
            output_path: paths::text_of(output_path),
        }),
{
    FileProgress {
        file: file.to_owned(),
        status: status.to_owned(),
        message: message.to_owned(),
        saved_bytes,
        saved_pct,
        output_path,
    }
}

/// A report on a file that saved nothing.
pub fn progress(file: &str, status: &str, message: &str) -> (report: FileProgress)
    ensures
        report@ == plain_progress(file@, status@, message@),
{
    progress_with_output(file, status, message, 0, 0, None)
}

/// The message for a file that could not be opened.
pub fn open_failure(error: &str) -> (message: String)
    ensures
        message@ == "open_fail:"@ + error@,
{
    let mut message = "open_fail:".to_owned();
    message.append(error);
    message
}

/// The message for a file whose format could not be told.
pub fn format_failure(error: &str) -> (message: String)
    ensures
        message@ == "format_fail:"@ + error@,
{
    let mut message = "format_fail:".to_owned();
    message.append(error);
    message
}

/// The message for a file that could not be decoded.
pub fn decode_failure(error: &str) -> (message: String)
    ensures
        message@ == "decode_fail:"@ + error@,
{
    let mut message = "decode_fail:".to_owned();
    message.append(error);
    message
}

/// The share of `original` that `saved` makes, in whole percent; none of an empty file.
pub open spec fn percent(saved: int, original: int) -> int {
    if original > 0 {
        text::quotient(saved * 100, original)
    } else {
        0
    }
}

/// Whether a hundred times `saved` is in range, as the share of it in `original` takes.
pub open spec fn has_share(saved: int, original: int) -> bool {
    original > 0 ==> i64::MIN <= saved * 100 <= i64::MAX
}

/// The share of `original` that `saved` makes, in whole percent, cut down to 32 bits.
pub fn percent_of(saved: i64, original: i64) -> (pct: i32)
    requires
        has_share(saved as int, original as int),
    ensures
        pct == percent(saved as int, original as int) as i32,
{
    if original > 0 {
        #[verifier::truncate]
        (text::divide(saved * 100, original) as i32)
    } else {
        0
    }
}

impl ConvertResult {
    /// The tally before the first file.
    pub open spec fn empty() -> ConvertResult {
        ConvertResult {
            success_count: 0,
            skip_count: 0,
            fail_count: 0,
            total_original: 0,
            total_converted: 0,
            saved: 0,
            saved_pct: 0,
        }
    }

    /// The number of files that have been counted.
    pub open spec fn counted(self) -> nat {
        self.success_count as nat + self.skip_count as nat + self.fail_count as nat
    }

    /// Whether these sizes can be added to the totals without overflow.
    pub open spec fn has_room(self, original: int, converted: int) -> bool {
        &&& i64::MIN <= self.total_original + original <= i64::MAX
        &&& i64::MIN <= self.total_converted + converted <= i64::MAX
    }

    /// Whether the savings can be worked out without overflow.
    pub open spec fn can_be_settled(self) -> bool {
        let gain = self.total_original - self.total_converted;
        &&& i64::MIN <= gain <= i64::MAX
        &&& self.total_original > 0 ==> gain * 100 <= i64::MAX
    }

    /// The tally after a file that was converted.
    pub open spec fn with_success(self, original: int, converted: int) -> ConvertResult {
        ConvertResult {
            success_count: (self.success_count + 1) as u32,
            total_original: (self.total_original + original) as i64,
            total_converted: (self.total_converted + converted) as i64,
            ..self
        }
    }

    /// The tally after a file that was left as it is, at its own size.
    pub open spec fn with_kept(self, original: int) -> ConvertResult {
        ConvertResult {
            skip_count: (self.skip_count + 1) as u32,
            total_original: (self.total_original + original) as i64,
            total_converted: (self.total_converted + original) as i64,
            ..self
        }
    }

    /// The tally after a file that was passed over, whose size does not count.
    pub open spec fn with_skip(self) -> ConvertResult {
        ConvertResult { skip_count: (self.skip_count + 1) as u32, ..self }
    }

    /// The tally after a file that failed, whose size does not count.
    pub open spec fn with_failure(self) -> ConvertResult {
        ConvertResult { fail_count: (self.fail_count + 1) as u32, ..self }
    }

    /// The tally with its savings worked out: never negative, and none where the results are
    /// larger than the originals.
    pub open spec fn with_savings(self) -> ConvertResult {
        let gain = self.total_original - self.total_converted;
        let saved = if gain > 0 {
            gain
        } else {
            0
        };
        ConvertResult {
            saved: saved as i64,
            saved_pct: percent(saved, self.total_original as int) as i32,
            ..self
        }
    }

    /// The tally before the first file.
    pub fn new() -> (stats: ConvertResult)
        ensures
            stats == ConvertResult::empty(),
    {
        ConvertResult {
            success_count: 0,
            skip_count: 0,
            fail_count: 0,
            total_original: 0,
            total_converted: 0,
            saved: 0,
            saved_pct: 0,
        }
    }

    /// Whether one more file of these sizes can be counted in any way, and its savings worked out,
    /// without overflow.
    pub fn can_count(&self, original: i64, converted: i64) -> (room: bool)
        ensures
            room == (self.success_count < u32::MAX && self.skip_count < u32::MAX && self.fail_count
                < u32::MAX && self.has_room(original as int, converted as int) && i64::MIN <= (
            original - converted) * 100 <= i64::MAX),
    {
        let share: i128 = (original as i128 - converted as i128) * 100;
        self.success_count < u32::MAX && self.skip_count < u32::MAX && self.fail_count < u32::MAX
            && self.total_original.checked_add(original).is_some()
            && self.total_converted.checked_add(converted).is_some() && i64::MIN as i128 <= share
            && share <= i64::MAX as i128
    }

    /// Counts a file that was converted.
    pub fn count_success(&mut self, original: i64, converted: i64)
        requires
            old(self).success_count < u32::MAX,
            old(self).has_room(original as int, converted as int),
        ensures
            *final(self) == old(self).with_success(original as int, converted as int),
    {
        self.total_original = self.total_original + original;
        self.total_converted = self.total_converted + converted;
        self.success_count = self.success_count + 1;
    }

    /// Counts a file that was left as it is.
    pub fn count_kept(&mut self, original: i64)
        requires
            old(self).skip_count < u32::MAX,
            old(self).has_room(original as int, original as int),
        ensures
            *final(self) == old(self).with_kept(original as int),
    {
        self.skip_count = self.skip_count + 1;
        self.total_original = self.total_original + original;
        self.total_converted = self.total_converted + original;
    }

    /// Counts a file that was passed over.
    pub fn count_skip(&mut self)
        requires
            old(self).skip_count < u32::MAX,
        ensures
            *final(self) == old(self).with_skip(),
    {
        self.skip_count = self.skip_count + 1;
    }

    /// Counts a file that failed.
    pub fn count_failure(&mut self)
        requires
            old(self).fail_count < u32::MAX,
        ensures
            *final(self) == old(self).with_failure(),
    {
        self.fail_count = self.fail_count + 1;
    }

    /// Works out the savings of a batch.
    pub fn settle(&mut self)
        requires
            old(self).can_be_settled(),
        ensures
            *final(self) == old(self).with_savings(),
    {
        let gain: i64 = self.total_original - self.total_converted;
        self.saved = if gain > 0 {
            gain
        } else {
            0
        };
        self.saved_pct = percent_of(self.saved, self.total_original);
    }
}

/// The savings of a batch are never negative, and where the totals are sizes, they are at most
/// the original total and at most a hundred percent.
pub proof fn law_savings_are_a_share(stats: ConvertResult)
    requires
        stats.total_original >= 0,
        stats.total_converted >= 0,
    ensures
        0 <= stats.with_savings().saved <= stats.total_original,
        0 <= stats.with_savings().saved_pct <= 100,
        stats.with_savings().saved > 0 ==> stats.with_savings().saved == stats.total_original
            - stats.total_converted,
        stats.with_savings().counted() == stats.counted(),
{
    let saved = stats.with_savings().saved as int;
    let original = stats.total_original as int;
    if original > 0 {
        assert(0 <= saved * 100 / original <= 100) by (nonlinear_arith)
            requires
                0 <= saved <= original,
                original > 0,
        ;
    }
}

/// A file that fails or is passed over leaves the totals alone: only files with a result to show
/// for count towards what was saved.
pub proof fn law_only_results_count_in_totals(stats: ConvertResult)
    ensures
        stats.with_failure().total_original == stats.total_original,
        stats.with_failure().total_converted == stats.total_converted,
        stats.with_skip().total_original == stats.total_original,
        stats.with_skip().total_converted == stats.total_converted,
{
}

/// A file that is kept changes nothing about what was saved.
pub proof fn law_kept_files_save_nothing(stats: ConvertResult, original: int)
    requires
        stats.has_room(original, original),
    ensures
        stats.with_kept(original).total_original - stats.with_kept(original).total_converted
            == stats.total_original - stats.total_converted,
{
}

/// A share is told as the largest whole number of percent that it is not less than.
pub proof fn law_shares_are_whole_percent(saved: i64, original: i64, pct: i32)
    requires
        call_ensures(percent_of, (saved, original), pct),
        0 <= saved <= original,
    ensures
        original > 0 ==> pct * original <= saved * 100 < (pct + 1) * original,
        original == 0 ==> pct == 0,
        saved == original && original > 0 ==> pct == 100,
        saved == 0 ==> pct == 0,
{
    if original > 0 {
        let (x, d) = (saved * 100, original as int);
        let p = x / d;
        vstd::arithmetic::div_mod::lemma_fundamental_div_mod(x, d);
        assert(p * d == d * p) by (nonlinear_arith);
        assert((p + 1) * d == d * p + d) by (nonlinear_arith);
        assert(0 <= p <= 100) by (nonlinear_arith)
            requires
                p * d <= x < (p + 1) * d,
                0 <= x <= d * 100,
                d > 0,
        ;
        if saved == original {
            assert(p == 100) by (nonlinear_arith)
                requires
                    p * d <= x < (p + 1) * d,
                    x == d * 100,
                    d > 0,
            ;
        }
        if saved == 0 {
            assert(p == 0) by (nonlinear_arith)
                requires
                    p * d <= x < (p + 1) * d,
                    x == 0,
                    d > 0,
            ;
        }
    }
}

/// What each kind of file adds to the tally: a success its two sizes, a kept file its own size twice, a
/// file that was passed over or has failed nothing; each of them one to its own count and to no other.
/// Working out the savings changes nothing but them.
pub proof fn law_what_files_add(stats: ConvertResult, original: int, converted: int)
    requires
        stats.success_count < u32::MAX,
        stats.skip_count < u32::MAX,
        stats.fail_count < u32::MAX,
        stats.has_room(original, converted),
        stats.has_room(original, original),
    ensures
        ({
            let after = stats.with_success(original, converted);
            &&& after.success_count == stats.success_count + 1
            &&& after.skip_count == stats.skip_count && after.fail_count == stats.fail_count
            &&& after.total_original == stats.total_original + original
            &&& after.total_converted == stats.total_converted + converted
        }),
        ({
            let after = stats.with_kept(original);
            &&& after.skip_count == stats.skip_count + 1
            &&& after.success_count == stats.success_count && after.fail_count == stats.fail_count
            &&& after.total_original == stats.total_original + original
            &&& after.total_converted == stats.total_converted + original
        }),
        stats.with_skip() == (ConvertResult { skip_count: (stats.skip_count + 1) as u32, ..stats }),
        stats.with_failure() == (ConvertResult {
            fail_count: (stats.fail_count + 1) as u32,
            ..stats
        }),
        ({
            let after = stats.with_savings();
            &&& after.success_count == stats.success_count && after.skip_count == stats.skip_count
            &&& after.fail_count == stats.fail_count
            &&& after.total_original == stats.total_original
            &&& after.total_converted == stats.total_converted
        }),
{
}

/// The savings of a batch are what the originals have more than the results, and nothing where they
/// have no more; and their share is told in whole percent of the originals.
pub proof fn law_savings_are_what_was_gained(stats: ConvertResult)
    requires
        stats.total_original >= 0,
        stats.total_converted >= 0,
        stats.can_be_settled(),
    ensures
        ({
            let after = stats.with_savings();
            let (original, saved, pct) = (
                stats.total_original as int,
                after.saved as int,
                after.saved_pct as int,
            );
            &&& stats.total_original >= stats.total_converted ==> saved == stats.total_original
                - stats.total_converted
            &&& stats.total_original <= stats.total_converted ==> saved == 0
            &&& original > 0 ==> pct * original <= saved * 100 < (pct + 1) * original
            &&& original == 0 ==> pct == 0
        }),
{
    law_savings_are_a_share(stats);
    let (saved, original) = (stats.with_savings().saved as int, stats.total_original as int);
    if original > 0 {
        let p = saved * 100 / original;
        vstd::arithmetic::div_mod::lemma_fundamental_div_mod(saved * 100, original);
        assert(p * original == original * p) by (nonlinear_arith);
        assert((p + 1) * original == original * p + original) by (nonlinear_arith);
        assert(0 <= p <= 100) by (nonlinear_arith)
            requires
                p * original <= saved * 100 < (p + 1) * original,
                0 <= saved <= original,
                original > 0,
        ;
    }
}

/// A report holds what it is told of, and one without savings has none and no output.
pub proof fn law_reports_hold_what_they_are_told(
    file: &str,
    status: &str,
    message: &str,
    report: FileProgress,
)
    requires
        call_ensures(progress, (file, status, message), report),
    ensures
        report.file@ == file@,
        report.status@ == status@,
        report.message@ == message@,
        report.saved_bytes == 0,
        report.saved_pct == 0,
        report.output_path is None,
        report@ == plain_progress(file@, status@, message@),
{
    assert(report@.file == file@);
}

/// There is room for every file of an ordinary size: as long as the totals and the sizes are no more
/// than ten million gigabytes and the counts are not full.
pub proof fn law_ordinary_files_can_be_counted(
    stats: &ConvertResult,
    original: i64,
    converted: i64,
    room: bool,
)
    requires
        call_ensures(ConvertResult::can_count, (stats, original, converted), room),
        0 <= original <= 10_000_000_000_000_000,
        0 <= converted <= 10_000_000_000_000_000,
        0 <= stats.total_original <= 10_000_000_000_000_000,
        0 <= stats.total_converted <= 10_000_000_000_000_000,
        stats.success_count < u32::MAX,
        stats.skip_count < u32::MAX,
        stats.fail_count < u32::MAX,
    ensures
        room,
        stats.can_be_settled(),
{
}

} // verus!
