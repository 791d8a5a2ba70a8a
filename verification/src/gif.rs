//! Animated GIF overlay: decoded frames and time-based frame selection.

use image::AnimationDecoder;
use vstd::prelude::*;

verus! {

/// `std::time::Instant`, carried through as an opaque value.
#[verifier::external_type_specification]
#[verifier::external_body]
pub struct ExInstant(std::time::Instant);

/// `image::ImageError`, carried through as an opaque value.
#[verifier::external_type_specification]
#[verifier::external_body]
pub struct ExImageError(image::ImageError);

/// One frame of an animation as the GIF decoder hands it out: the full canvas,
/// RGBA row by row, and the frame's delay as a fraction of milliseconds.
pub struct DecodedGifFrame {
    pub width: u32,
    pub height: u32,
    pub pixels: Vec<u8>,
    pub delay_numer: u32,
    pub delay_denom: u32,
}

/// A decoded frame by its plain values: width, height, pixels, delay numerator, delay denominator.
pub open spec fn decoded_frame_view(f: DecodedGifFrame) -> (u32, u32, Seq<u8>, u32, u32) {
    (f.width, f.height, f.pixels@, f.delay_numer, f.delay_denom)
}

/// The frames that the `image` crate's GIF decoder produces from a file's bytes, or
/// `None` where it refuses them.
pub uninterp spec fn decoded_gif(data: Seq<u8>) -> Option<Seq<(u32, u32, Seq<u8>, u32, u32)>>;

/// Decodes every frame of a GIF with `image::codecs::gif::GifDecoder`
/// (`GifDecoder::new`, `into_frames`, `collect_frames`). The contract claims only that
/// the outcome is a function of the bytes: it succeeds exactly when `decoded_gif` is
/// `Some`, and then hands out those frames in order.
#[verifier::external_body]
fn decode_gif_frames(data: &[u8]) -> (r: Result<Vec<DecodedGifFrame>, image::ImageError>)
    ensures
        r is Ok == decoded_gif(data@) is Some,
        r matches Ok(v) ==> v@.map_values(|f: DecodedGifFrame| decoded_frame_view(f)) == decoded_gif(data@)->0,
{
    let decoder = image::codecs::gif::GifDecoder::new(std::io::Cursor::new(data))?;
    let mut out = Vec::new();
    for f in decoder.into_frames().collect_frames()? {
        let (delay_numer, delay_denom) = f.delay().numer_denom_ms();
        let buffer = f.into_buffer();
        let (width, height) = (buffer.width(), buffer.height());
        out.push(DecodedGifFrame { width, height, pixels: buffer.into_raw(), delay_numer, delay_denom });
    }
    Ok(out)
}

/// The RGBA pixels that `image::imageops::resize` with the `Triangle` filter produces from an
/// image of the given size, scaled to the new size.
pub uninterp spec fn triangle_resized(pixels: Seq<u8>, width: u32, height: u32, new_width: u32, new_height: u32) -> Seq<u8>;

/// Whether `image::imageops::resize` can allocate its buffers for this scaling: the
/// intermediate image (`width` by `new_height`, where the source is not empty) and the
/// result (`new_width` by `new_height`), at four samples a pixel, must each be counted in a
/// `usize`; it panics otherwise.
pub open spec fn resize_fits(width: u32, height: u32, new_width: u32, new_height: u32) -> bool {
    &&& new_width * new_height * 4 <= usize::MAX
    &&& (width > 0 && height > 0) ==> width * new_height * 4 <= usize::MAX
}

/// Scales RGBA pixels with `image::imageops::resize` and the `Triangle` filter. The pixels
/// are exactly `width * height * 4` bytes, so `ImageBuffer::from_raw` accepts them. The
/// result depends on the arguments alone; the contract names it `triangle_resized` and
/// claims nothing more of it.
#[verifier::external_body]
fn resize_triangle(pixels: Vec<u8>, width: u32, height: u32, new_width: u32, new_height: u32) -> (r: Option<Vec<u8>>)
    requires
        pixels@.len() == width * height * 4,
        resize_fits(width, height, new_width, new_height),
    ensures
        r is Some,
        r matches Some(v) ==> v@ == triangle_resized(pixels@, width, height, new_width, new_height),
{
    match image::RgbaImage::from_raw(width, height, pixels) {
        Some(image) => Some(
            image::imageops::resize(&image, new_width, new_height, image::imageops::FilterType::Triangle).into_raw(),
        ),
        None => None,
    }
}

/// A frame's pixels at the size it is drawn: unchanged where the frame already has that
/// size, otherwise scaled with the `Triangle` filter.
pub fn scale_frame(frame: &DecodedGifFrame, target_width: u32, target_height: u32) -> (r: Vec<u8>)
    requires
        frame.pixels@.len() == frame.width * frame.height * 4,
        (frame.width != target_width || frame.height != target_height) ==> resize_fits(
            frame.width,
            frame.height,
            target_width,
            target_height,
        ),
    ensures
        frame.width == target_width && frame.height == target_height ==> r@ == frame.pixels@,
        frame.width != target_width || frame.height != target_height ==> r@ == triangle_resized(
            frame.pixels@,
            frame.width,
            frame.height,
            target_width,
            target_height,
        ),
{
    let pixels = frame.pixels.clone();
    if frame.width == target_width && frame.height == target_height {
        pixels
    } else {
        match resize_triangle(pixels, frame.width, frame.height, target_width, target_height) {
            Some(v) => v,
            None => Vec::new(),
        }
    }
}

/// The current instant, from `std::time::Instant::now`. Nothing is claimed of it.
#[verifier::external_body]
fn now() -> std::time::Instant {
    std::time::Instant::now()
}

/// How long each decoded frame is shown, in order.
pub open spec fn spec_delays(fs: Seq<(u32, u32, Seq<u8>, u32, u32)>) -> Seq<u64> {
    Seq::new(fs.len(), |i: int| spec_frame_delay_ms(fs[i].3, fs[i].4))
}

/// Time elapsed since `start`, from `Instant::elapsed`. It depends on the clock, so
/// nothing is claimed of it.
#[verifier::external_body]
fn elapsed(start: &std::time::Instant) -> std::time::Duration {
    start.elapsed()
}

/// Whole milliseconds of a duration, from `Duration::as_millis`. Durations are opaque
/// here, so nothing is claimed of the number.
#[verifier::external_body]
fn whole_millis(d: std::time::Duration) -> u128 {
    d.as_millis()
}

/// Sum of the first `n` delays.
pub open spec fn sum_prefix(d: Seq<u64>, n: int) -> nat
    decreases n,
{
    if n <= 0 || n > d.len() {
        0
    } else {
        (sum_prefix(d, n - 1) + d[n - 1]) as nat
    }
}

/// Sums of prefixes grow with their length.
pub proof fn lemma_sum_prefix_monotone(d: Seq<u64>, i: int, j: int)
    requires
        0 <= i <= j <= d.len(),
    ensures
        sum_prefix(d, i) <= sum_prefix(d, j),
    decreases j - i,
{
    if i < j {
        lemma_sum_prefix_monotone(d, i, j - 1);
    }
}

/// Delay of a frame in whole milliseconds: the fraction rounded down, 100 where the
/// denominator is 0, and never less than 10 so that no frame has a zero delay.
pub open spec fn spec_frame_delay_ms(numer: u32, denom: u32) -> u64 {
    let ms: u64 = if denom > 0 {
        (numer / denom) as u64
    } else {
        100
    };
    if ms < 10 {
        10
    } else {
        ms
    }
}

/// Delay of a frame in whole milliseconds, from the fraction the decoder gives.
pub fn frame_delay_ms(numer: u32, denom: u32) -> (r: u64)
    ensures
        r == spec_frame_delay_ms(numer, denom),
        r >= 10,
{
    let ms: u64 = if denom > 0 {
        (numer as u64) / (denom as u64)
    } else {
        100
    };
    if ms < 10 {
        10
    } else {
        ms
    }
}

/// The frame shown `elapsed` milliseconds into a looping animation: the first frame whose
/// window, counted from the start of the current loop, has not ended yet.
pub open spec fn shows_frame(delays: Seq<u64>, total: nat, elapsed: nat, i: int) -> bool {
    let pos = elapsed % total;
    &&& 0 <= i < delays.len()
    &&& pos < sum_prefix(delays, i + 1)
    &&& forall|j: int| 1 <= j <= i ==> #[trigger] sum_prefix(delays, j) <= pos
}

/// Index of the frame to show `elapsed_ms` milliseconds into an animation that loops
/// indefinitely, whose frames last `delays_ms` and together `total_ms`.
pub fn frame_at(delays_ms: &[u64], total_ms: u64, elapsed_ms: u64) -> (r: usize)
    requires
        delays_ms@.len() >= 1,
        total_ms == sum_prefix(delays_ms@, delays_ms@.len() as int),
        total_ms > 0,
    ensures
        shows_frame(delays_ms@, total_ms as nat, elapsed_ms as nat, r as int),
{
    let pos = elapsed_ms % total_ms;
    let n = delays_ms.len();
    let mut accumulated: u64 = 0;
    let mut i: usize = 0;
    while i < n
        invariant
            n == delays_ms@.len(),
            total_ms == sum_prefix(delays_ms@, n as int),
            pos == elapsed_ms % total_ms,
            pos < total_ms,
            i <= n,
            accumulated == sum_prefix(delays_ms@, i as int),
            forall|j: int| 1 <= j <= i ==> #[trigger] sum_prefix(delays_ms@, j) <= pos,
        decreases n - i,
    {
        proof {
            lemma_sum_prefix_monotone(delays_ms@, i + 1, n as int);
        }
        accumulated = accumulated + delays_ms[i];
        if pos < accumulated {
            return i;
        }
        i = i + 1;
    }
    n - 1
}

/// The frame shown is the same one loop later: the animation repeats every `total` ms.
pub proof fn lemma_frame_at_loops(delays: Seq<u64>, total: nat, elapsed: nat, i: int)
    requires
        total > 0,
        shows_frame(delays, total, elapsed, i),
    ensures
        shows_frame(delays, total, elapsed + total, i),
{
    assert((elapsed + total) % total == elapsed % total) by (nonlinear_arith)
        requires
            total > 0,
    ;
}

/// Exactly one frame is shown at a time.
pub proof fn lemma_frame_at_unique(delays: Seq<u64>, total: nat, elapsed: nat, i: int, k: int)
    requires
        total > 0,
        shows_frame(delays, total, elapsed, i),
        shows_frame(delays, total, elapsed, k),
    ensures
        i == k,
{
    if i < k {
        assert(sum_prefix(delays, i + 1) <= elapsed % total);
    } else if k < i {
        assert(sum_prefix(delays, k + 1) <= elapsed % total);
    }
}

/// Why a GIF could not be loaded.
#[derive(Debug, Clone, Copy, PartialEq, Eq, Structural)]
pub enum GifError {
    /// The decoder refused the bytes.
    Decode,
    /// The file holds no frame.
    NoFrames,
    /// The frames' delays add up to more than `u64::MAX` milliseconds.
    DurationOverflow,
}

/// What building an animation of these decoded frames gives: `NoFrames` without a frame;
/// `DurationOverflow` where the delays add up to more than `u64::MAX` milliseconds;
/// otherwise the frames in order, each with its delay, and the first frame's size.
pub open spec fn animation_from(fs: Seq<(u32, u32, Seq<u8>, u32, u32)>, r: Result<GifAnimation, GifError>) -> bool {
    if fs.len() == 0 {
        r == Err::<GifAnimation, GifError>(GifError::NoFrames)
    } else if sum_prefix(spec_delays(fs), fs.len() as int) > u64::MAX {
        r == Err::<GifAnimation, GifError>(GifError::DurationOverflow)
    } else {
        r matches Ok(a) && {
            &&& a.frames().map_values(|f: DecodedGifFrame| decoded_frame_view(f)) == fs
            &&& a.delays() == spec_delays(fs)
            &&& a.original_size() == (fs[0].0, fs[0].1)
        }
    }
}

/// Decoded animated GIF with time-based frame selection.
pub struct GifAnimation {
    frames: Vec<DecodedGifFrame>,
    delays_ms: Vec<u64>,
    total_duration_ms: u64,
    start: std::time::Instant,
    /// Original (unscaled) dimensions of the first frame.
    original_width: u32,
    original_height: u32,
}

impl GifAnimation {
    /// The animation's frames.
    pub closed spec fn frames(&self) -> Seq<DecodedGifFrame> {
        self.frames@
    }

    /// Width and height of the first frame.
    pub closed spec fn original_size(&self) -> (u32, u32) {
        (self.original_width, self.original_height)
    }

    /// How long each frame is shown, in milliseconds.
    pub closed spec fn delays(&self) -> Seq<u64> {
        self.delays_ms@
    }

    /// One delay per frame, at least one frame, delays of at least 10 ms and their sum kept.
    #[verifier::type_invariant]
    spec fn wf(&self) -> bool {
        &&& self.frames@.len() == self.delays_ms@.len()
        &&& self.frames@.len() >= 1
        &&& self.total_duration_ms == sum_prefix(self.delays_ms@, self.delays_ms@.len() as int)
        &&& forall|i: int| 0 <= i < self.delays_ms@.len() ==> #[trigger] self.delays_ms@[i] >= 10
    }

    /// Load and decode all frames of an animated GIF from the file's bytes. The animation's
    /// clock starts now.
    pub fn load(data: &[u8]) -> (r: Result<GifAnimation, GifError>)
        ensures
            decoded_gif(data@) is None ==> r == Err::<GifAnimation, GifError>(GifError::Decode),
            decoded_gif(data@) matches Some(fs) ==> animation_from(fs, r),
    {
        match decode_gif_frames(data) {
            Ok(frames) => GifAnimation::from_frames(frames),
            Err(_) => Err(GifError::Decode),
        }
    }

    /// An animation of decoded frames, each shown for its own delay. The animation's clock
    /// starts now.
    pub fn from_frames(frames: Vec<DecodedGifFrame>) -> (r: Result<GifAnimation, GifError>)
        ensures
            animation_from(frames@.map_values(|f: DecodedGifFrame| decoded_frame_view(f)), r),
    {
        if frames.len() == 0 {
            return Err(GifError::NoFrames);
        }
        let ghost fs = frames@.map_values(|f: DecodedGifFrame| decoded_frame_view(f));
        let mut delays_ms: Vec<u64> = Vec::new();
        let mut total: u64 = 0;
        let mut i: usize = 0;
        while i < frames.len()
            invariant
                frames@.map_values(|f: DecodedGifFrame| decoded_frame_view(f)) == fs,
                i <= frames@.len(),
                delays_ms@.len() == i,
                total == sum_prefix(delays_ms@, i as int),
                forall|k: int| 0 <= k < i ==> #[trigger] delays_ms@[k] == spec_frame_delay_ms(fs[k].3, fs[k].4),
                delays_ms@ == spec_delays(fs).take(i as int),
                fs.len() == frames@.len(),
            decreases frames@.len() - i,
        {
            let d = frame_delay_ms(frames[i].delay_numer, frames[i].delay_denom);
            assert(decoded_frame_view(frames@[i as int]) == fs[i as int]);
            let ghost before = delays_ms@;
            delays_ms.push(d);
            assert(delays_ms@.subrange(0, i as int) =~= before);
            assert forall|n: int| 0 <= n <= i implies sum_prefix(delays_ms@, n) == sum_prefix(before, n) by {
                lemma_sum_prefix_prefix(before, delays_ms@, n);
            }
            assert(delays_ms@ =~= spec_delays(fs).take(i + 1));
            total = match total.checked_add(d) {
                Some(t) => t,
                None => {
                    proof {
                        lemma_sum_prefix_prefix(delays_ms@, spec_delays(fs), i + 1);
                        lemma_sum_prefix_monotone(spec_delays(fs), i + 1, fs.len() as int);
                    }
                    return Err(GifError::DurationOverflow);
                },
            };
            i = i + 1;
        }
        proof {
            assert(spec_delays(fs).take(i as int) =~= spec_delays(fs));
        }
        let original_width = frames[0].width;
        let original_height = frames[0].height;
        assert(decoded_frame_view(frames@[0]) == fs[0]);
        Ok(GifAnimation {
            frames,
            delays_ms,
            total_duration_ms: total,
            start: now(),
            original_width,
            original_height,
        })
    }

    /// Returns the index of the frame that should be displayed right now.
    /// The animation loops indefinitely.
    pub fn current_frame_index(&self) -> (r: usize)
        ensures
            r < self.frames().len(),
            self.frames().len() == 1 ==> r == 0,
            self.frames().len() > 1 ==> exists|elapsed: u64| shows_frame(
                self.delays(),
                sum_prefix(self.delays(), self.delays().len() as int),
                elapsed as nat,
                r as int,
            ),
    {
        proof {
            use_type_invariant(self);
        }
        if self.frames.len() <= 1 {
            return 0;
        }
        proof {
            lemma_sum_prefix_monotone(self.delays_ms@, 1, self.delays_ms@.len() as int);
            assert(sum_prefix(self.delays_ms@, 0) == 0);
            assert(sum_prefix(self.delays_ms@, 1) == self.delays_ms@[0]);
        }
        let elapsed_ms = #[verifier::truncate] (whole_millis(elapsed(&self.start)) as u64);
        let r = frame_at(self.delays_ms.as_slice(), self.total_duration_ms, elapsed_ms);
        assert(shows_frame(self.delays(), sum_prefix(self.delays(), self.delays().len() as int), elapsed_ms as nat, r as int));
        r
    }

    /// Get the current frame's pixel data (based on wall-clock time).
    pub fn current_frame(&self) -> (r: &DecodedGifFrame)
        ensures
            exists|i: int| 0 <= i < self.frames().len() && *r == self.frames()[i],
    {
        let i = self.current_frame_index();
        &self.frames[i]
    }

    /// Width of the first frame, before any scaling.
    pub fn original_width(&self) -> (r: u32)
        ensures
            r == self.original_size().0,
    {
        self.original_width
    }

    /// Height of the first frame, before any scaling.
    pub fn original_height(&self) -> (r: u32)
        ensures
            r == self.original_size().1,
    {
        self.original_height
    }

    /// Number of frames in the animation.
    pub fn frame_count(&self) -> (r: usize)
        ensures
            r == self.frames().len(),
    {
        self.frames.len()
    }
}

/// Prefix sums only read the prefix.
proof fn lemma_sum_prefix_prefix(a: Seq<u64>, b: Seq<u64>, n: int)
    requires
        0 <= n <= a.len() <= b.len(),
        b.subrange(0, a.len() as int) == a,
    ensures
        sum_prefix(a, n) == sum_prefix(b, n),
    decreases n,
{
    if n > 0 {
        assert(b[n - 1] == b.subrange(0, a.len() as int)[n - 1]);
        lemma_sum_prefix_prefix(a, b, n - 1);
    }
}

} // verus!
