//! WebP encoding at a given quality, and the search for a quality that meets a target size.
use vstd::prelude::*;

verus! {

/// The lowest quality that a search for a target size tries.
pub const LOWEST_QUALITY: i32 = 10;

/// The highest quality that a search for a target size tries.
pub const HIGHEST_QUALITY: i32 = 100;

/// The largest width and height of a WebP picture.
pub const MAX_DIMENSION: u32 = 16383;

/// A decoded picture: rows of 8-bit pixels, red, green and blue, with alpha where the picture has
/// it.
pub struct Picture {
    pub width: u32,
    pub height: u32,
    pub alpha: bool,
    pub pixels: Vec<u8>,
}

/// The content of a [`Picture`].
pub struct PictureView {
    pub width: u32,
    pub height: u32,
    pub alpha: bool,
    pub pixels: Seq<u8>,
}

impl View for Picture {
    type V = PictureView;

    open spec fn view(&self) -> PictureView {
        PictureView {
            width: self.width,
            height: self.height,
            alpha: self.alpha,
            pixels: self.pixels@,
        }
    }
}

impl PictureView {
    /// Whether there are as many bytes as the dimensions ask for, in rows whose length in bytes
    /// fits in an `i32`.
    pub open spec fn well_formed(self) -> bool {
        if self.alpha {
            self.pixels.len() == self.width * self.height * 4 && self.width * 4 <= i32::MAX
        } else {
            self.pixels.len() == self.width * self.height * 3 && self.width * 3 <= i32::MAX
        }
    }

    /// Whether a WebP picture can have these dimensions.
    pub open spec fn encodable(self) -> bool {
        1 <= self.width <= MAX_DIMENSION && 1 <= self.height <= MAX_DIMENSION
    }

    /// The lossy WebP form of the picture.
    pub open spec fn lossy(self, quality: int) -> Seq<u8> {
        webp_lossy(self.alpha, self.pixels, self.width, self.height, quality)
    }

    /// The lossless WebP form of the picture.
    pub open spec fn lossless(self) -> Seq<u8> {
        webp_lossless(self.alpha, self.pixels, self.width, self.height)
    }

    /// The WebP form of the picture.
    pub open spec fn encoded(self, quality: int, lossless: bool) -> Seq<u8> {
        if lossless {
            self.lossless()
        } else {
            self.lossy(quality)
        }
    }
}

/// The number of the error with which the encoder refuses a quality or dimensions, if it does: an
/// invalid configuration comes before dimensions that no WebP picture can have.
pub open spec fn refusal(width: u32, height: u32, quality: int) -> Option<int> {
    if !(0 <= quality <= 100) {
        Some(4)
    } else if !(1 <= width <= MAX_DIMENSION && 1 <= height <= MAX_DIMENSION) {
        Some(5)
    } else {
        None
    }
}

/// Whether a failure, if there was one, is what a refusal calls for: its own number where there is
/// one, else anything but the two numbers of refusals.
pub open spec fn meets_refusal(refused: Option<int>, failure: Option<int>) -> bool {
    match refused {
        Some(code) => failure == Some(code),
        None => failure != Some(4int) && failure != Some(5int),
    }
}

/// The number of an error, if there was one.
pub open spec fn failure_code(out: Result<Vec<u8>, i32>) -> Option<int> {
    match out {
        Ok(_) => None,
        Err(code) => Some(code as int),
    }
}

/// The bytes that `webp::Encoder::encode_simple` makes without the lossless flag.
pub uninterp spec fn webp_lossy(
    alpha: bool,
    pixels: Seq<u8>,
    width: u32,
    height: u32,
    quality: int,
) -> Seq<u8>;

/// The bytes that `webp::Encoder::encode_lossless` makes.
pub uninterp spec fn webp_lossless(
    alpha: bool,
    pixels: Seq<u8>,
    width: u32,
    height: u32,
) -> Seq<u8>;

/// The width, the height and the bytes of red, green and blue that `webp::Decoder::decode` gives of a
/// WebP file without alpha.
pub uninterp spec fn webp_shown(bytes: Seq<u8>) -> (u32, u32, Seq<u8>);

/// Calls `webp::Encoder::encode_simple` on RGBA pixels; an error is handed on as its number.
/// Trusted: within a process the same arguments make the same bytes; a quality outside 0 to 100 is
/// refused as an invalid configuration, dimensions that no WebP picture can have as bad dimensions,
/// and nothing else fails with one of these two errors. It is not stated when the call succeeds:
/// that also depends on the memory at hand.
#[verifier::external_body]
fn encode_rgba(pixels: &[u8], width: u32, height: u32, quality: i16) -> (out: Result<Vec<u8>, i32>)
    requires
        pixels@.len() == width * height * 4,
        width * 4 <= i32::MAX,
    ensures
        out matches Ok(bytes) ==> bytes@ == webp_lossy(true, pixels@, width, height, quality as int),
        meets_refusal(refusal(width, height, quality as int), failure_code(out)),
{
    webp::Encoder::from_rgba(pixels, width, height)
        .encode_simple(false, quality.into())
        .map(|memory| memory.to_vec())
        .map_err(|error| error as i32)
}

/// Calls `webp::Encoder::encode_simple` on RGB pixels. Trusted as [`encode_rgba`] is.
#[verifier::external_body]
fn encode_rgb(pixels: &[u8], width: u32, height: u32, quality: i16) -> (out: Result<Vec<u8>, i32>)
    requires
        pixels@.len() == width * height * 3,
        width * 3 <= i32::MAX,
    ensures
        out matches Ok(bytes) ==> bytes@ == webp_lossy(false, pixels@, width, height, quality as int),
        meets_refusal(refusal(width, height, quality as int), failure_code(out)),
{
    webp::Encoder::from_rgb(pixels, width, height)
        .encode_simple(false, quality.into())
        .map(|memory| memory.to_vec())
        .map_err(|error| error as i32)
}

/// Calls `webp::Encoder::encode_lossless` on RGBA pixels, which panics on dimensions that no WebP
/// picture can have, and when memory runs out. Trusted: within a process the same arguments make
/// the same bytes.
#[verifier::external_body]
fn encode_rgba_lossless(pixels: &[u8], width: u32, height: u32) -> (bytes: Vec<u8>)
    requires
        pixels@.len() == width * height * 4,
        1 <= width <= MAX_DIMENSION,
        1 <= height <= MAX_DIMENSION,
    ensures
        bytes@ == webp_lossless(true, pixels@, width, height),
{
    webp::Encoder::from_rgba(pixels, width, height).encode_lossless().to_vec()
}

/// Calls `webp::Encoder::encode_lossless` on RGB pixels. Trusted as [`encode_rgba_lossless`] is, and
/// that it is lossless: decoding gives the pixels back. The same is not stated with alpha, where the
/// colours of what is fully transparent are not kept.
#[verifier::external_body]
fn encode_rgb_lossless(pixels: &[u8], width: u32, height: u32) -> (bytes: Vec<u8>)
    requires
        pixels@.len() == width * height * 3,
        1 <= width <= MAX_DIMENSION,
        1 <= height <= MAX_DIMENSION,
    ensures
        bytes@ == webp_lossless(false, pixels@, width, height),
        webp_shown(bytes@) == (width, height, pixels@),
{
    webp::Encoder::from_rgb(pixels, width, height).encode_lossless().to_vec()
}

/// The name of the encoder's error with this number.
pub open spec fn error_name(code: int) -> Seq<char> {
    if code == 0 {
        "VP8_ENC_OK"@
    } else if code == 1 {
        "VP8_ENC_ERROR_OUT_OF_MEMORY"@
    } else if code == 2 {
        "VP8_ENC_ERROR_BITSTREAM_OUT_OF_MEMORY"@
    } else if code == 3 {
        "VP8_ENC_ERROR_NULL_PARAMETER"@
    } else if code == 4 {
        "VP8_ENC_ERROR_INVALID_CONFIGURATION"@
    } else if code == 5 {
        "VP8_ENC_ERROR_BAD_DIMENSION"@
    } else if code == 6 {
        "VP8_ENC_ERROR_PARTITION0_OVERFLOW"@
    } else if code == 7 {
        "VP8_ENC_ERROR_PARTITION_OVERFLOW"@
    } else if code == 8 {
        "VP8_ENC_ERROR_BAD_WRITE"@
    } else if code == 9 {
        "VP8_ENC_ERROR_FILE_TOO_BIG"@
    } else if code == 10 {
        "VP8_ENC_ERROR_USER_ABORT"@
    } else {
        "VP8_ENC_ERROR_LAST"@
    }
}

/// The message for the encoder's error with this number.
pub open spec fn failure_text(code: int) -> Seq<char> {
    "encode_fail:"@ + error_name(code)
}

/// Whether the message of a failure, if there was one, is what a refusal calls for.
pub open spec fn tells_refusal(refused: Option<int>, message: Option<Seq<char>>) -> bool {
    match refused {
        Some(code) => message == Some(failure_text(code)),
        None => message != Some(failure_text(4)) && message != Some(failure_text(5)),
    }
}

/// The message of a failure, if there was one.
pub open spec fn failure_message<T>(out: Result<T, String>) -> Option<Seq<char>> {
    match out {
        Ok(_) => None,
        Err(message) => Some(message@),
    }
}

/// The two numbers of refusals have names that no other number has.
pub(crate) proof fn lemma_refusals_have_names(code: int)
    ensures
        error_name(code) == error_name(4) ==> code == 4,
        error_name(code) == error_name(5) ==> code == 5,
{
    reveal_strlit("VP8_ENC_OK");
    reveal_strlit("VP8_ENC_ERROR_OUT_OF_MEMORY");
    reveal_strlit("VP8_ENC_ERROR_BITSTREAM_OUT_OF_MEMORY");
    reveal_strlit("VP8_ENC_ERROR_NULL_PARAMETER");
    reveal_strlit("VP8_ENC_ERROR_INVALID_CONFIGURATION");
    reveal_strlit("VP8_ENC_ERROR_BAD_DIMENSION");
    reveal_strlit("VP8_ENC_ERROR_PARTITION0_OVERFLOW");
    reveal_strlit("VP8_ENC_ERROR_PARTITION_OVERFLOW");
    reveal_strlit("VP8_ENC_ERROR_BAD_WRITE");
    reveal_strlit("VP8_ENC_ERROR_FILE_TOO_BIG");
    reveal_strlit("VP8_ENC_ERROR_USER_ABORT");
    reveal_strlit("VP8_ENC_ERROR_LAST");
    assert("VP8_ENC_OK"@.len() == 10);
    assert("VP8_ENC_ERROR_OUT_OF_MEMORY"@.len() == 27);
    assert("VP8_ENC_ERROR_BITSTREAM_OUT_OF_MEMORY"@.len() == 37);
    assert("VP8_ENC_ERROR_NULL_PARAMETER"@.len() == 28);
    assert("VP8_ENC_ERROR_INVALID_CONFIGURATION"@.len() == 35);
    assert("VP8_ENC_ERROR_BAD_DIMENSION"@.len() == 27);
    assert("VP8_ENC_ERROR_PARTITION0_OVERFLOW"@.len() == 33);
    assert("VP8_ENC_ERROR_PARTITION_OVERFLOW"@.len() == 32);
    assert("VP8_ENC_ERROR_BAD_WRITE"@.len() == 23);
    assert("VP8_ENC_ERROR_FILE_TOO_BIG"@.len() == 26);
    assert("VP8_ENC_ERROR_USER_ABORT"@.len() == 24);
    assert("VP8_ENC_ERROR_LAST"@.len() == 18);
    // Only one other name is as long as one of the two, and it differs behind its head.
    assert("VP8_ENC_ERROR_OUT_OF_MEMORY"@[14] == 'O');
    assert("VP8_ENC_ERROR_BAD_DIMENSION"@[14] == 'B');
}

/// A message tells of a refusal exactly where the number behind it does.
proof fn lemma_messages_tell_refusals(refused: Option<int>, failure: Option<int>)
    requires
        meets_refusal(refused, failure),
        refused matches Some(code) ==> code == 4 || code == 5,
    ensures
        tells_refusal(
            refused,
            match failure {
                Some(code) => Some(failure_text(code)),
                None => None,
            },
        ),
{
    if let Some(code) = failure {
        lemma_refusals_have_names(code);
        let head = "encode_fail:"@;
        assert(failure_text(code).skip(head.len() as int) =~= error_name(code));
        assert(failure_text(4).skip(head.len() as int) =~= error_name(4));
        assert(failure_text(5).skip(head.len() as int) =~= error_name(5));
    }
}

/// The name of the encoder's error with this number.
pub fn encoder_error_name(code: i32) -> (name: &'static str)
    ensures
        name@ == error_name(code as int),
{
    match code {
        0 => "VP8_ENC_OK",
        1 => "VP8_ENC_ERROR_OUT_OF_MEMORY",
        2 => "VP8_ENC_ERROR_BITSTREAM_OUT_OF_MEMORY",
        3 => "VP8_ENC_ERROR_NULL_PARAMETER",
        4 => "VP8_ENC_ERROR_INVALID_CONFIGURATION",
        5 => "VP8_ENC_ERROR_BAD_DIMENSION",
        6 => "VP8_ENC_ERROR_PARTITION0_OVERFLOW",
        7 => "VP8_ENC_ERROR_PARTITION_OVERFLOW",
        8 => "VP8_ENC_ERROR_BAD_WRITE",
        9 => "VP8_ENC_ERROR_FILE_TOO_BIG",
        10 => "VP8_ENC_ERROR_USER_ABORT",
        _ => "VP8_ENC_ERROR_LAST",
    }
}

/// The message for the encoder's error with this number.
pub fn encode_failure(code: i32) -> (message: String)
    ensures
        message@ == failure_text(code as int),
{
    let mut message = "encode_fail:".to_owned();
    message.append(encoder_error_name(code));
    message
}

/// Whether the encoder has failed with this number on these pixels.
spec fn call_failed(
    alpha: bool,
    pixels: &[u8],
    width: u32,
    height: u32,
    quality: i16,
    code: i32,
) -> bool {
    if alpha {
        call_ensures(encode_rgba, (pixels, width, height, quality), Err(code))
    } else {
        call_ensures(encode_rgb, (pixels, width, height, quality), Err(code))
    }
}

/// Whether the encoder itself has failed with this number on a picture, at this quality or, where
/// that is out of range, at one that is too.
pub closed spec fn encoder_failed(picture: PictureView, quality: int, code: i32) -> bool {
    exists|pixels: &[u8], q: i16|
        pixels@ == picture.pixels && (if 0 <= quality <= 100 {
            q == quality
        } else {
            !(0 <= q <= 100)
        }) && #[trigger] call_failed(
            picture.alpha,
            pixels,
            picture.width,
            picture.height,
            q,
            code,
        )
}

/// Encodes lossily; an error is handed on as its number. A quality outside 0 to 100 and dimensions
/// that no WebP picture can have are refused, each with a number of its own.
pub fn encode_lossy(picture: &Picture, quality: i32) -> (out: Result<Vec<u8>, i32>)
    requires
        picture@.well_formed(),
    ensures
        out matches Ok(bytes) ==> bytes@ == picture@.lossy(quality as int),
        out matches Err(code) ==> encoder_failed(picture@, quality as int, code),
        meets_refusal(
            refusal(picture.width, picture.height, quality as int),
            failure_code(out),
        ),
{
    let (width, height) = (picture.width, picture.height);
    let q: i16 = if quality < 0 {
        -1
    } else if quality > 100 {
        101
    } else {
        quality as i16
    };
    let pixels = picture.pixels.as_slice();
    let out = if picture.alpha {
        encode_rgba(pixels, width, height, q)
    } else {
        encode_rgb(pixels, width, height, q)
    };
    if let Err(code) = &out {
        assert(call_failed(picture.alpha, pixels, width, height, q, *code));
    }
    out
}

/// Encodes a picture to WebP with the given quality, or losslessly.
pub fn encode_webp(picture: &Picture, quality: i32, lossless: bool) -> (out: Result<
    Vec<u8>,
    String,
>)
    requires
        picture@.well_formed(),
        lossless ==> picture@.encodable(),
    ensures
        out matches Ok(bytes) ==> bytes@ == picture@.encoded(quality as int, lossless),
        lossless && !picture.alpha ==> webp_shown(out->Ok_0@) == (
            picture.width,
            picture.height,
            picture.pixels@,
        ),
        out matches Err(message) ==> !lossless && exists|code: i32|
            message@ == failure_text(code as int) && #[trigger] call_ensures(
                encode_lossy,
                (picture, quality),
                Err(code),
            ),
        !lossless ==> tells_refusal(
            refusal(picture.width, picture.height, quality as int),
            failure_message(out),
        ),
{
    if lossless {
        let (width, height) = (picture.width, picture.height);
        if picture.alpha {
            Ok(encode_rgba_lossless(picture.pixels.as_slice(), width, height))
        } else {
            Ok(encode_rgb_lossless(picture.pixels.as_slice(), width, height))
        }
    } else {
        let out = encode_lossy(picture, quality);
        proof {
            lemma_messages_tell_refusals(
                refusal(picture.width, picture.height, quality as int),
                failure_code(out),
            );
        }
        match out {
            Ok(bytes) => Ok(bytes),
            Err(code) => Err(encode_failure(code)),
        }
    }
}

/// Where a search for a target size stands: the qualities from `lo` to `hi` are still open, `best`
/// is the last form within the limit and `fallback` the smallest one beyond it.
pub struct SearchState {
    pub limit: nat,
    pub lo: int,
    pub hi: int,
    pub best: Option<Seq<u8>>,
    pub fallback: Option<Seq<u8>>,
}

impl SearchState {
    /// The search before its first trial.
    pub open spec fn start(limit: nat) -> SearchState {
        SearchState {
            limit,
            lo: LOWEST_QUALITY as int,
            hi: HIGHEST_QUALITY as int,
            best: None,
            fallback: None,
        }
    }

    /// Whether no quality is left to try.
    pub open spec fn over(self) -> bool {
        self.lo > self.hi
    }

    /// The quality to try next.
    pub open spec fn middle(self) -> int {
        (self.lo + self.hi) / 2
    }

    /// The search after a trial of the middle quality that gave `bytes`: within the limit, higher
    /// qualities are left; beyond it, lower ones.
    pub open spec fn after(self, bytes: Seq<u8>) -> SearchState {
        if bytes.len() <= self.limit {
            SearchState { best: Some(bytes), lo: self.middle() + 1, ..self }
        } else {
            SearchState {
                fallback: match self.fallback {
                    Some(f) => if bytes.len() < f.len() {
                        Some(bytes)
                    } else {
                        Some(f)
                    },
                    None => Some(bytes),
                },
                hi: self.middle() - 1,
                ..self
            }
        }
    }

    /// The search after all its trials, where `form` gives the bytes for each quality.
    pub open spec fn finished(self, form: spec_fn(int) -> Seq<u8>) -> SearchState
        decreases self.hi - self.lo + 1,
    {
        if self.over() {
            self
        } else {
            self.after(form(self.middle())).finished(form)
        }
    }

    /// The qualities that the search goes on to try, where `form` gives the bytes for each.
    pub open spec fn trials(self, form: spec_fn(int) -> Seq<u8>) -> Seq<int>
        decreases self.hi - self.lo + 1,
    {
        if self.over() {
            seq![]
        } else {
            seq![self.middle()] + self.after(form(self.middle())).trials(form)
        }
    }

    /// Whether the search is where trials of `form` have brought it: `best` is the form just below
    /// the open qualities, the one just above them is beyond the limit, and `fallback` is some
    /// form.
    pub open spec fn reached(self, form: spec_fn(int) -> Seq<u8>) -> bool {
        &&& self.well_formed()
        &&& self.best matches Some(b) ==> b == form(self.lo - 1)
        &&& self.hi < HIGHEST_QUALITY ==> form(self.hi + 1).len() > self.limit
        &&& self.fallback matches Some(f) ==> f.len() <= form(self.hi + 1).len() && exists|q: int|
            LOWEST_QUALITY <= q <= HIGHEST_QUALITY && f == #[trigger] form(q)
    }

    /// What the search settles on, and whether that is within the limit: the last form within it,
    /// else the smallest beyond it.
    pub open spec fn outcome(self) -> Option<(Seq<u8>, bool)> {
        match (self.best, self.fallback) {
            (Some(b), _) => Some((b, true)),
            (None, Some(f)) => Some((f, false)),
            (None, None) => None,
        }
    }

    /// What every search keeps.
    pub open spec fn well_formed(self) -> bool {
        &&& LOWEST_QUALITY <= self.lo <= self.hi + 1
        &&& self.hi <= HIGHEST_QUALITY
        &&& self.best is Some <==> self.lo > LOWEST_QUALITY
        &&& self.fallback is Some <==> self.hi < HIGHEST_QUALITY
        &&& self.best matches Some(b) ==> b.len() <= self.limit
        &&& self.fallback matches Some(f) ==> f.len() > self.limit
    }
}

/// A search for the highest quality whose encoded form stays within a size.
pub struct SizeSearch {
    limit: u64,
    lo: i32,
    hi: i32,
    best: Option<Vec<u8>>,
    fallback: Option<Vec<u8>>,
}

/// The content of optional bytes.
pub open spec fn bytes_of(bytes: Option<Vec<u8>>) -> Option<Seq<u8>> {
    match bytes {
        Some(b) => Some(b@),
        None => None,
    }
}

impl View for SizeSearch {
    type V = SearchState;

    closed spec fn view(&self) -> SearchState {
        SearchState {
            limit: self.limit as nat,
            lo: self.lo as int,
            hi: self.hi as int,
            best: bytes_of(self.best),
            fallback: bytes_of(self.fallback),
        }
    }
}

impl SizeSearch {
    /// A search for a form of at most `target_kb` KiB.
    pub fn new(target_kb: u32) -> (search: SizeSearch)
        ensures
            search@ == SearchState::start(target_kb as nat * 1024),
            search@.well_formed(),
    {
        SizeSearch {
            limit: target_kb as u64 * 1024,
            lo: LOWEST_QUALITY,
            hi: HIGHEST_QUALITY,
            best: None,
            fallback: None,
        }
    }

    /// The quality to try next, or `None` when the search is over.
    pub fn next_quality(&self) -> (quality: Option<i32>)
        requires
            self@.well_formed(),
        ensures
            match quality {
                Some(q) => !self@.over() && q == self@.middle() && LOWEST_QUALITY <= q
                    <= HIGHEST_QUALITY,
                None => self@.over(),
            },
    {
        if self.lo > self.hi {
            None
        } else {
            Some((self.lo + self.hi) / 2)
        }
    }

    /// Takes in the form that the quality tried last has given.
    pub fn record(&mut self, encoded: Vec<u8>)
        requires
            old(self)@.well_formed(),
            !old(self)@.over(),
        ensures
            final(self)@ == old(self)@.after(encoded@),
            final(self)@.well_formed(),
    {
        let mid: i32 = (self.lo + self.hi) / 2;
        if encoded.len() as u64 <= self.limit {
            self.best = Some(encoded);
            self.lo = mid + 1;
        } else {
            let smaller: bool = match &self.fallback {
                Some(f) => encoded.len() < f.len(),
                None => true,
            };
            if smaller {
                self.fallback = Some(encoded);
            }
            self.hi = mid - 1;
        }
    }

    /// What the search settles on, and whether that is within the limit.
    pub fn outcome(self) -> (outcome: Option<(Vec<u8>, bool)>)
        ensures
            match outcome {
                Some((bytes, met)) => self@.outcome() == Some((bytes@, met)),
                None => self@.outcome() is None,
            },
    {
        match (self.best, self.fallback) {
            (Some(b), _) => Some((b, true)),
            (None, Some(f)) => Some((f, false)),
            (None, None) => None,
        }
    }
}

impl PictureView {
    /// What a search for a target size settles on for this picture, and whether that meets the
    /// target.
    pub open spec fn sized(self, target_kb: nat) -> (Seq<u8>, bool) {
        SearchState::start(target_kb * 1024).finished(|q: int| self.lossy(q)).outcome()->0
    }
}

/// A search that has begun has something to settle on.
proof fn lemma_search_keeps(state: SearchState, form: spec_fn(int) -> Seq<u8>)
    requires
        state.well_formed(),
    ensures
        state.finished(form).well_formed(),
        state.finished(form).over(),
        state.finished(form).limit == state.limit,
        state.finished(form).outcome() is Some,
    decreases state.hi - state.lo + 1,
{
    if !state.over() {
        lemma_search_keeps(state.after(form(state.middle())), form);
    }
}

/// Encodes to a target size: the search for the highest quality that meets it, by halving. Where
/// the target is out of reach, the smallest form that was tried is returned and `false` beside it.
/// A lossless form has no quality to search: it meets the target or it does not. A search fails
/// only where one of its trials does.
pub fn encode_target_size(picture: &Picture, target_kb: u32, lossless: bool) -> (out: Result<
    (Vec<u8>, bool),
    String,
>)
    requires
        picture@.well_formed(),
        lossless ==> picture@.encodable(),
    ensures
        lossless ==> out is Ok && out->Ok_0.0@ == picture@.lossless() && out->Ok_0.1 == (
        picture@.lossless().len() <= target_kb * 1024),
        !lossless ==> (out matches Ok(sized) ==> (sized.0@, sized.1) == picture@.sized(
            target_kb as nat,
        )),
        out matches Err(message) ==> !lossless && exists|quality: i32|
            LOWEST_QUALITY <= quality <= HIGHEST_QUALITY && #[trigger] call_ensures(
                encode_webp,
                (picture, quality, false),
                Err(message),
            ),
        !lossless ==> tells_refusal(
            refusal(picture.width, picture.height, LOWEST_QUALITY as int),
            failure_message(out),
        ),
{
    if lossless {
        return match encode_webp(picture, 100, true) {
            Ok(bytes) => {
                let met: bool = bytes.len() as u64 <= target_kb as u64 * 1024;
                Ok((bytes, met))
            },
            Err(message) => Err(message),
        };
    }
    let mut search = SizeSearch::new(target_kb);
    let ghost form = |q: int| picture@.lossy(q);
    let ghost start = search@;
    proof {
        lemma_search_keeps(start, form);
    }
    loop
        invariant
            picture@.well_formed(),
            !lossless,
            form == |q: int| picture@.lossy(q),
            search@.well_formed(),
            search@.finished(form) == start.finished(form),
            !picture@.encodable() ==> search@ == start,
            start == SearchState::start(target_kb as nat * 1024),
        ensures
            search@.over(),
        decreases search@.hi - search@.lo + 1,
    {
        match search.next_quality() {
            Some(quality) => match encode_webp(picture, quality, false) {
                Ok(bytes) => search.record(bytes),
                Err(message) => return Err(message),
            },
            None => break,
        }
    }
    match search.outcome() {
        Some(sized) => Ok(sized),
        None => match encode_webp(picture, 80, false) {
            Ok(bytes) => Ok((bytes, false)),
            Err(message) => Err(message),
        },
    }
}

/// Trials keep a search where trials can bring it.
proof fn lemma_search_reaches(state: SearchState, form: spec_fn(int) -> Seq<u8>)
    requires
        state.reached(form),
    ensures
        state.finished(form).reached(form),
        state.finished(form).over(),
        state.finished(form).limit == state.limit,
    decreases state.hi - state.lo + 1,
{
    if !state.over() {
        let next = state.after(form(state.middle()));
        assert(next.reached(form));
        lemma_search_reaches(next, form);
    }
}

/// What the trials of a search leave behind: the form of the highest quality tried within the
/// limit, and the smallest of the forms tried beyond it.
proof fn lemma_trials(state: SearchState, form: spec_fn(int) -> Seq<u8>)
    requires
        state.well_formed(),
    ensures
        ({
            let end = state.finished(form);
            let tried = state.trials(form);
            &&& end.limit == state.limit
            &&& forall|i: int| 0 <= i < tried.len() ==> state.lo <= #[trigger] tried[i] <= state.hi
            &&& (forall|i: int| 0 <= i < tried.len() ==> form(#[trigger] tried[i]).len()
                > state.limit) ==> end.best == state.best
            &&& forall|i: int|
                0 <= i < tried.len() && form(#[trigger] tried[i]).len() <= state.limit
                    ==> end.best is Some && (exists|k: int|
                    0 <= k < tried.len() && tried[k] >= tried[i] && end.best == Some(
                        form(#[trigger] tried[k]),
                    ))
            &&& forall|i: int|
                0 <= i < tried.len() && form(#[trigger] tried[i]).len() > state.limit
                    ==> end.fallback is Some && end.fallback->0.len() <= form(tried[i]).len()
            &&& state.fallback is Some ==> end.fallback is Some && end.fallback->0.len()
                <= state.fallback->0.len()
            &&& end.fallback == state.fallback || exists|k: int|
                0 <= k < tried.len() && end.fallback == Some(form(#[trigger] tried[k]))
        }),
    decreases state.hi - state.lo + 1,
{
    if !state.over() {
        let mid = state.middle();
        let next = state.after(form(mid));
        lemma_trials(next, form);
        let end = state.finished(form);
        let tried = state.trials(form);
        let rest = next.trials(form);
        assert(tried[0] == mid);
        assert forall|k: int| 0 <= k < rest.len() implies tried[k + 1] == #[trigger] rest[k] by {}
        assert forall|i: int| 0 <= i < tried.len() implies state.lo <= #[trigger] tried[i]
            <= state.hi by {
            if i > 0 {
                assert(tried[i] == rest[i - 1]);
            }
        }
        if forall|i: int| 0 <= i < tried.len() ==> form(#[trigger] tried[i]).len() > state.limit {
            assert(form(tried[0]).len() > state.limit);
            assert forall|i: int| 0 <= i < rest.len() implies form(#[trigger] rest[i]).len()
                > state.limit by {
                assert(tried[i + 1] == rest[i]);
            }
        }
        assert forall|i: int|
            0 <= i < tried.len() && form(#[trigger] tried[i]).len()
                <= state.limit implies end.best is Some && (exists|k: int|
            0 <= k < tried.len() && tried[k] >= tried[i] && end.best == Some(
                form(#[trigger] tried[k]),
            )) by {
            if i > 0 {
                assert(tried[i] == rest[i - 1]);
                let k = choose|k: int|
                    0 <= k < rest.len() && rest[k] >= rest[i - 1] && end.best == Some(
                        form(#[trigger] rest[k]),
                    );
                assert(tried[k + 1] == rest[k]);
            } else if forall|j: int| 0 <= j < rest.len() ==> form(#[trigger] rest[j]).len()
                > next.limit {
                assert(end.best == Some(form(tried[0])));
            } else {
                let j = choose|j: int|
                    0 <= j < rest.len() && form(#[trigger] rest[j]).len() <= next.limit;
                let k = choose|k: int|
                    0 <= k < rest.len() && rest[k] >= rest[j] && end.best == Some(
                        form(#[trigger] rest[k]),
                    );
                assert(tried[k + 1] == rest[k]);
            }
        }
        assert forall|i: int|
            0 <= i < tried.len() && form(#[trigger] tried[i]).len()
                > state.limit implies end.fallback is Some && end.fallback->0.len() <= form(
            tried[i],
        ).len() by {
            if i > 0 {
                assert(tried[i] == rest[i - 1]);
            }
        }
        if end.fallback == next.fallback {
            if next.fallback != state.fallback {
                assert(end.fallback == Some(form(tried[0])));
            }
        } else {
            let k = choose|k: int|
                0 <= k < rest.len() && end.fallback == Some(form(#[trigger] rest[k]));
            assert(tried[k + 1] == rest[k]);
        }
    }
}

/// A search for a target size returns the form of some quality from the lowest to the highest.
/// It reports the target as met exactly when that form is within the limit, and then the next
/// higher quality, if there is one, is beyond it. It reports the target as missed only where the
/// lowest quality is beyond the limit too, and then returns no more bytes than that has.
pub proof fn law_search_stops_at_the_limit(limit: nat, form: spec_fn(int) -> Seq<u8>)
    ensures
        SearchState::start(limit).finished(form).outcome() matches Some((bytes, met)) && {
            &&& met <==> bytes.len() <= limit
            &&& met ==> exists|q: int|
                LOWEST_QUALITY <= q <= HIGHEST_QUALITY && bytes == #[trigger] form(q) && (q
                    == HIGHEST_QUALITY || form(q + 1).len() > limit)
            &&& !met ==> form(LOWEST_QUALITY as int).len() > limit && bytes.len() <= form(
                LOWEST_QUALITY as int,
            ).len() && exists|q: int|
                LOWEST_QUALITY <= q <= HIGHEST_QUALITY && bytes == #[trigger] form(q)
        },
{
    let start = SearchState::start(limit);
    lemma_search_keeps(start, form);
    lemma_search_reaches(start, form);
    let end = start.finished(form);
    if end.best is Some {
        assert(form(end.lo - 1) == end.best->0);
    }
}

/// Where a higher quality never takes fewer bytes, a search for a target size returns the form of
/// the highest quality that is within the limit; where no quality is, it returns a form that no
/// quality can make smaller.
pub proof fn law_search_finds_the_highest_quality(limit: nat, form: spec_fn(int) -> Seq<u8>)
    requires
        forall|a: int, b: int|
            LOWEST_QUALITY <= a <= b <= HIGHEST_QUALITY ==> (#[trigger] form(a)).len() <= (
            #[trigger] form(b)).len(),
    ensures
        SearchState::start(limit).finished(form).outcome() matches Some((bytes, met)) && {
            &&& met <==> form(LOWEST_QUALITY as int).len() <= limit
            &&& met ==> exists|q: int|
                LOWEST_QUALITY <= q <= HIGHEST_QUALITY && bytes == #[trigger] form(q)
                    && bytes.len() <= limit && forall|r: int|
                    q < r <= HIGHEST_QUALITY ==> (#[trigger] form(r)).len() > limit
            &&& !met ==> forall|r: int|
                LOWEST_QUALITY <= r <= HIGHEST_QUALITY ==> bytes.len() <= (#[trigger] form(r)).len()
        },
{
    law_search_stops_at_the_limit(limit, form);
    let (bytes, met) = SearchState::start(limit).finished(form).outcome()->0;
    if met {
        let q = choose|q: int|
            LOWEST_QUALITY <= q <= HIGHEST_QUALITY && bytes == #[trigger] form(q) && (q
                == HIGHEST_QUALITY || form(q + 1).len() > limit);
        assert(form(LOWEST_QUALITY as int).len() <= form(q).len());
        assert forall|r: int| q < r <= HIGHEST_QUALITY implies (#[trigger] form(r)).len()
            > limit by {
            assert(form(q + 1).len() <= form(r).len());
        }
    } else {
        let low = form(LOWEST_QUALITY as int);
        assert forall|r: int| LOWEST_QUALITY <= r <= HIGHEST_QUALITY implies bytes.len() <= (
        #[trigger] form(r)).len() by {
            assert(low.len() <= form(r).len());
        }
    }
}

/// Whatever the sizes are, a search for a target size returns the form of the highest quality that
/// it tried within the limit, and where every trial was beyond it, the smallest form that it tried.
pub proof fn law_search_returns_the_best_trial(limit: nat, form: spec_fn(int) -> Seq<u8>)
    ensures
        SearchState::start(limit).finished(form).outcome() matches Some((bytes, met)) && {
            let tried = SearchState::start(limit).trials(form);
            &&& exists|k: int| 0 <= k < tried.len() && bytes == form(#[trigger] tried[k])
            &&& met ==> forall|i: int|
                0 <= i < tried.len() && form(#[trigger] tried[i]).len() <= limit ==> (exists|k: int|
                    0 <= k < tried.len() && tried[k] >= tried[i] && bytes == form(
                        #[trigger] tried[k],
                    ))
            &&& !met ==> forall|i: int|
                0 <= i < tried.len() ==> bytes.len() <= form(#[trigger] tried[i]).len()
        },
{
    let start = SearchState::start(limit);
    lemma_search_keeps(start, form);
    lemma_trials(start, form);
    let end = start.finished(form);
    let tried = start.trials(form);
    assert forall|i: int| 0 <= i < tried.len() && end.best is None implies form(
        #[trigger] tried[i],
    ).len() > limit by {}
    if end.best is Some {
        let i = choose|i: int| 0 <= i < tried.len() && form(#[trigger] tried[i]).len() <= limit;
        let k = choose|k: int|
            0 <= k < tried.len() && tried[k] >= tried[i] && end.best == Some(
                form(#[trigger] tried[k]),
            );
        assert(end.best->0 == form(tried[k]));
    }
}

/// Lossless encoding of a picture without alpha always succeeds, gives the same bytes at every
/// quality, and loses nothing: decoding the bytes gives the dimensions and every pixel back.
pub proof fn law_lossless_loses_nothing(
    picture: &Picture,
    quality: i32,
    other: i32,
    out: Result<Vec<u8>, String>,
    again: Result<Vec<u8>, String>,
)
    requires
        picture@.well_formed(),
        picture@.encodable(),
        !picture.alpha,
        call_ensures(encode_webp, (picture, quality, true), out),
        call_ensures(encode_webp, (picture, other, true), again),
    ensures
        out is Ok,
        again is Ok,
        out->Ok_0@ == again->Ok_0@,
        webp_shown(out->Ok_0@) == (picture.width, picture.height, picture.pixels@),
{
}

/// Where every quality that a search may try can be encoded, the search succeeds. Where a higher
/// quality never takes fewer bytes besides, it gives the form of the highest quality within the
/// target and says that the target is met; and where none is within it, a form that no quality makes
/// smaller, and says that it is not.
pub proof fn law_searches_succeed_where_their_trials_do(
    picture: &Picture,
    target_kb: u32,
    out: Result<(Vec<u8>, bool), String>,
)
    requires
        picture@.well_formed(),
        call_ensures(encode_target_size, (picture, target_kb, false), out),
        forall|q: i32, trial: Result<Vec<u8>, String>|
            LOWEST_QUALITY <= q <= HIGHEST_QUALITY && #[trigger] call_ensures(
                encode_webp,
                (picture, q, false),
                trial,
            ) ==> trial is Ok,
    ensures
        out is Ok,
        (forall|a: int, b: int|
            LOWEST_QUALITY <= a <= b <= HIGHEST_QUALITY ==> (#[trigger] picture@.lossy(a)).len() <= (
            #[trigger] picture@.lossy(b)).len()) ==> {
            let (bytes, met) = (out->Ok_0.0@, out->Ok_0.1);
            &&& met <==> picture@.lossy(LOWEST_QUALITY as int).len() <= target_kb * 1024
            &&& met ==> exists|q: int|
                LOWEST_QUALITY <= q <= HIGHEST_QUALITY && bytes == #[trigger] picture@.lossy(q)
                    && bytes.len() <= target_kb * 1024 && forall|r: int|
                    q < r <= HIGHEST_QUALITY ==> (#[trigger] picture@.lossy(r)).len() > target_kb
                        * 1024
            &&& !met ==> forall|r: int|
                LOWEST_QUALITY <= r <= HIGHEST_QUALITY ==> bytes.len() <= (
                #[trigger] picture@.lossy(r)).len()
        },
{
    let form = |q: int| picture@.lossy(q);
    let limit = target_kb as nat * 1024;
    if forall|a: int, b: int|
        LOWEST_QUALITY <= a <= b <= HIGHEST_QUALITY ==> (#[trigger] picture@.lossy(a)).len() <= (
        #[trigger] picture@.lossy(b)).len() {
        assert forall|a: int, b: int|
            LOWEST_QUALITY <= a <= b <= HIGHEST_QUALITY implies (#[trigger] form(a)).len() <= (
        #[trigger] form(b)).len() by {
            assert(picture@.lossy(a).len() <= picture@.lossy(b).len());
        }
        law_search_finds_the_highest_quality(limit, form);
        let (bytes, met) = (out->Ok_0.0@, out->Ok_0.1);
        if met {
            let q = choose|q: int|
                LOWEST_QUALITY <= q <= HIGHEST_QUALITY && bytes == #[trigger] form(q) && bytes.len()
                    <= limit && forall|r: int|
                    q < r <= HIGHEST_QUALITY ==> (#[trigger] form(r)).len() > limit;
            assert(bytes == picture@.lossy(q));
            assert forall|r: int| q < r <= HIGHEST_QUALITY implies (#[trigger] picture@.lossy(
                r,
            )).len() > target_kb * 1024 by {
                assert(form(r).len() > limit);
            }
        } else {
            assert forall|r: int| LOWEST_QUALITY <= r <= HIGHEST_QUALITY implies bytes.len() <= (
            #[trigger] picture@.lossy(r)).len() by {
                assert(bytes.len() <= form(r).len());
            }
        }
    }
}

/// What bytes are the form of a picture that a target size calls for, told of the encoder's own forms:
/// a lossless form, or a lossy one at some quality from 10 to 100. The target is said to be met exactly
/// where the bytes are within it. Where it is met, the next higher quality, if there is one, is beyond
/// it. Where it is not, the lowest quality was tried and is beyond it too, and no quality that was tried
/// has fewer bytes; and where a higher quality never takes fewer bytes, no quality at all has fewer, and
/// a target is met at the highest that can.
pub open spec fn sized_form(
    picture: PictureView,
    limit: int,
    lossless: bool,
    bytes: Seq<u8>,
    met: bool,
) -> bool {
    let form = |q: int|
        webp_lossy(picture.alpha, picture.pixels, picture.width, picture.height, q);
    let rising = forall|a: int, b: int|
        10 <= a <= b <= 100 ==> (#[trigger] form(a)).len() <= (#[trigger] form(b)).len();
    &&& met <==> bytes.len() <= limit
    &&& lossless ==> bytes == webp_lossless(
        picture.alpha,
        picture.pixels,
        picture.width,
        picture.height,
    )
    &&& !lossless ==> exists|q: int|
        10 <= q <= 100 && bytes == #[trigger] form(q) && (met ==> q == 100 || form(q + 1).len()
            > limit)
    &&& !lossless && !met ==> form(10).len() > limit && bytes.len() <= form(10).len()
    &&& !lossless ==> {
        let tried = SearchState::start(limit as nat).trials(form);
        &&& exists|i: int| 0 <= i < tried.len() && bytes == form(#[trigger] tried[i])
        &&& !met ==> tried.contains(10) && forall|i: int|
            0 <= i < tried.len() ==> bytes.len() <= form(#[trigger] tried[i]).len()
    }
    &&& !lossless && rising && !met ==> forall|r: int|
        10 <= r <= 100 ==> bytes.len() <= (#[trigger] form(r)).len()
    &&& !lossless && rising && met ==> exists|q: int|
        10 <= q <= 100 && bytes == #[trigger] form(q) && forall|r: int|
            q < r <= 100 ==> (#[trigger] form(r)).len() > limit
}

/// A search for a target size gives the form that the target calls for whenever it succeeds, and a
/// lossless form is always given.
pub proof fn law_targets_get_their_form(
    picture: &Picture,
    target_kb: u32,
    lossless: bool,
    out: Result<(Vec<u8>, bool), String>,
)
    requires
        call_ensures(encode_target_size, (picture, target_kb, lossless), out),
        lossless ==> picture@.encodable(),
    ensures
        lossless ==> out is Ok,
        out matches Ok(made) ==> sized_form(
            picture@,
            target_kb * 1024,
            lossless,
            made.0@,
            made.1,
        ),
{
    if out is Ok {
        let (bytes, met) = (out->Ok_0.0@, out->Ok_0.1);
        if !lossless {
            lemma_sized_form(picture@, target_kb as nat, bytes, met);
        }
    }
}

/// A search that finds nothing within the limit has tried the lowest quality.
proof fn lemma_lowest_is_tried(state: SearchState, form: spec_fn(int) -> Seq<u8>)
    requires
        state.well_formed(),
        state.best is None,
        state.finished(form).best is None,
        !state.over(),
    ensures
        state.trials(form).contains(LOWEST_QUALITY as int),
    decreases state.hi - state.lo + 1,
{
    let tried = state.trials(form);
    let next = state.after(form(state.middle()));
    assert(tried[0] == state.middle());
    lemma_trials(next, form);
    if state.middle() != LOWEST_QUALITY {
        if next.best is Some {
            lemma_search_keeps(next, form);
            lemma_best_stays(next, form);
        } else {
            lemma_lowest_is_tried(next, form);
            let rest = next.trials(form);
            let i = choose|i: int| 0 <= i < rest.len() && rest[i] == LOWEST_QUALITY;
            assert(tried[i + 1] == rest[i]);
        }
    }
}

/// A search that has found something within the limit ends with something.
proof fn lemma_best_stays(state: SearchState, form: spec_fn(int) -> Seq<u8>)
    requires
        state.well_formed(),
        state.best is Some,
    ensures
        state.finished(form).best is Some,
    decreases state.hi - state.lo + 1,
{
    if !state.over() {
        lemma_best_stays(state.after(form(state.middle())), form);
    }
}

/// What a search settles on is the form that the target calls for.
pub(crate) proof fn lemma_sized_form(
    picture: PictureView,
    target_kb: nat,
    bytes: Seq<u8>,
    met: bool,
)
    requires
        picture.sized(target_kb) == (bytes, met),
    ensures
        sized_form(picture, (target_kb * 1024) as int, false, bytes, met),
        SearchState::start(target_kb * 1024).finished(|q: int| picture.lossy(q)).outcome() == Some(
            (bytes, met),
        ),
{
    let limit = target_kb * 1024;
    lemma_search_keeps(SearchState::start(limit), |q: int| picture.lossy(q));
    let form = |q: int| picture.lossy(q);
    let other = |q: int|
        webp_lossy(picture.alpha, picture.pixels, picture.width, picture.height, q);
    assert(form =~= other);
    law_search_stops_at_the_limit(limit, other);
    law_search_returns_the_best_trial(limit, other);
    if !met {
        lemma_lowest_is_tried(SearchState::start(limit), other);
    }
    if forall|a: int, b: int|
        10 <= a <= b <= 100 ==> (#[trigger] other(a)).len() <= (#[trigger] other(b)).len() {
        law_search_finds_the_highest_quality(limit, other);
    }
}

/// Encoding gives the encoder's own form of exactly this picture, at exactly this quality, or its
/// lossless one; and lossless encoding never fails.
pub proof fn law_forms_are_the_encoder_s(
    picture: &Picture,
    quality: i32,
    lossless: bool,
    out: Result<Vec<u8>, String>,
)
    requires
        call_ensures(encode_webp, (picture, quality, lossless), out),
    ensures
        lossless ==> out is Ok,
        out matches Ok(bytes) ==> bytes@ == if lossless {
            webp_lossless(picture.alpha, picture.pixels@, picture.width, picture.height)
        } else {
            webp_lossy(
                picture.alpha,
                picture.pixels@,
                picture.width,
                picture.height,
                quality as int,
            )
        },
        !lossless && !(0 <= quality <= 100) ==> out is Err && out->Err_0@ == "encode_fail:"@
            + "VP8_ENC_ERROR_INVALID_CONFIGURATION"@,
        !lossless && 0 <= quality <= 100 && !(1 <= picture.width <= 16383 && 1 <= picture.height
            <= 16383) ==> out is Err && out->Err_0@ == "encode_fail:"@
            + "VP8_ENC_ERROR_BAD_DIMENSION"@,
{
}

/// Lossy encoding gives the encoder's own form of exactly this picture, at exactly this quality, and
/// refuses a quality out of range before anything else, and then dimensions that no WebP picture can
/// have.
pub proof fn law_lossy_forms_are_the_encoder_s(
    picture: &Picture,
    quality: i32,
    out: Result<Vec<u8>, i32>,
)
    requires
        call_ensures(encode_lossy, (picture, quality), out),
    ensures
        out matches Ok(bytes) ==> bytes@ == webp_lossy(
            picture.alpha,
            picture.pixels@,
            picture.width,
            picture.height,
            quality as int,
        ),
        (out is Err && out->Err_0 == 4) <==> !(0 <= quality <= 100),
        (out is Err && out->Err_0 == 5) <==> 0 <= quality <= 100 && !(1 <= picture.width <= 16383 && 1
            <= picture.height <= 16383),
{
}

} // verus!
