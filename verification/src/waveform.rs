//! Waveform extraction: downmixing interleaved PCM to mono, envelope
//! decimation, the staircase outline that a canvas strokes, and the zoom
//! state that the keyboard drives.
//!
//! Everything here works in whole sample units. A renderer multiplies the
//! horizontal units by `width / samples.len()` and the vertical units by
//! `height / amplitude_range` to reach pixels.

use vstd::prelude::*;

verus! {

/// Largest magnitude the zoom multiplier reaches. Above it a single
/// precision multiplier no longer changes when one unit is added, so the
/// whole-unit zoom stops here as well.
pub const ZOOM_LIMIT: i32 = 16_777_216;

/// Largest sample width, in bits, for which the amplitude range is
/// representable.
pub const MAX_BITS_PER_SAMPLE: u32 = 30;

/// Sum of a run of samples.
pub open spec fn sample_sum(s: Seq<i16>) -> int
    decreases s.len(),
{
    if s.len() == 0 {
        0
    } else {
        sample_sum(s.drop_last()) + s.last()
    }
}

/// Quotient rounded toward zero, for a positive divisor.
pub open spec fn trunc_div(a: int, b: int) -> int {
    if a >= 0 {
        a / b
    } else {
        -((-a) / b)
    }
}

/// Mean of one frame, rounded toward zero.
pub open spec fn frame_average(frame: Seq<i16>) -> int {
    trunc_div(sample_sum(frame), frame.len() as int)
}

/// The `i`-th frame of an interleaved stream with `channels` channels.
pub open spec fn frame_at(stream: Seq<i16>, channels: int, i: int) -> Seq<i16> {
    stream.subrange(i * channels, (i + 1) * channels)
}

/// Mono stream for an interleaved one: one averaged sample per complete
/// frame, a trailing partial frame dropped.
pub open spec fn downmix(stream: Seq<i16>, channels: int) -> Seq<i16> {
    Seq::new(
        (stream.len() as int / channels) as nat,
        |i: int| frame_average(frame_at(stream, channels, i)) as i16,
    )
}

/// Magnitude of a sample.
pub open spec fn magnitude(x: i16) -> int {
    if x < 0 {
        -(x as int)
    } else {
        x as int
    }
}

/// Representative of a chunk: the sample of largest magnitude, the last
/// such sample where several share it, and zero for an empty chunk.
pub open spec fn chunk_peak(chunk: Seq<i16>) -> i16
    decreases chunk.len(),
{
    if chunk.len() == 0 {
        0i16
    } else {
        let earlier = chunk_peak(chunk.drop_last());
        if magnitude(chunk.last()) >= magnitude(earlier) {
            chunk.last()
        } else {
            earlier
        }
    }
}

/// Number of chunks of `factor` samples that cover `len` samples, the last
/// one possibly shorter.
pub open spec fn chunk_count(len: int, factor: int) -> int {
    (len + factor - 1) / factor
}

/// The `k`-th chunk of `factor` samples.
pub open spec fn chunk_at(samples: Seq<i16>, factor: int, k: int) -> Seq<i16> {
    let end = if (k + 1) * factor < samples.len() {
        (k + 1) * factor
    } else {
        samples.len() as int
    };
    samples.subrange(k * factor, end)
}

/// Envelope of a mono stream: the peak of each chunk, in order.
pub open spec fn decimated(samples: Seq<i16>, factor: int) -> Seq<i16> {
    Seq::new(
        chunk_count(samples.len() as int, factor) as nat,
        |k: int| chunk_peak(chunk_at(samples, factor, k)),
    )
}

/// Two to the power `bits`.
pub open spec fn amplitude_range(bits: u32) -> int {
    vstd::arithmetic::power2::pow2(bits as nat) as int
}

/// A point of the outline in sample units.
#[derive(Clone, Copy, Debug, PartialEq, Eq, Structural)]
pub struct PathPoint {
    /// Horizontal position: chunk start times zoom.
    pub x: i128,
    /// Vertical position: sample value shifted into `0..amplitude_range`.
    pub y: i64,
}

/// One drawing instruction of the outline.
#[derive(Clone, Copy, Debug, PartialEq, Eq, Structural)]
pub enum PathOp {
    LineTo(PathPoint),
    MoveTo(PathPoint),
    Close,
}

/// Whether a key press was used.
#[derive(Clone, Copy, Debug, PartialEq, Eq, Structural)]
pub enum EventStatus {
    Captured,
    Ignored,
}

/// Zoom and scroll of one waveform view.
#[derive(Clone, Copy, Debug, PartialEq, Eq, Structural)]
pub struct WaveFormState {
    pub zoom: i32,
    pub scroll: i32,
}

/// Zoom after one step up.
pub open spec fn zoomed_in(zoom: i32) -> i32 {
    if zoom < ZOOM_LIMIT {
        (zoom + 1) as i32
    } else {
        zoom
    }
}

/// Zoom after one step down. There is no floor at one or at zero.
pub open spec fn zoomed_out(zoom: i32) -> i32 {
    if zoom > -ZOOM_LIMIT {
        (zoom - 1) as i32
    } else {
        zoom
    }
}

impl Default for WaveFormState {
    fn default() -> (state: WaveFormState)
        ensures
            state.zoom == 1,
            state.scroll == 0,
    {
        WaveFormState { zoom: 1, scroll: 0 }
    }
}

impl WaveFormState {
    /// Raises the zoom by one unit; it stays put once it has reached
    /// `ZOOM_LIMIT`.
    pub fn zoom_in(&mut self)
        ensures
            final(self).zoom == zoomed_in(old(self).zoom),
            final(self).scroll == old(self).scroll,
    {
        if self.zoom < ZOOM_LIMIT {
            self.zoom = self.zoom + 1;
        }
    }

    /// Lowers the zoom by one unit, through zero and below; it stays put
    /// once it has reached `-ZOOM_LIMIT`.
    pub fn zoom_out(&mut self)
        ensures
            final(self).zoom == zoomed_out(old(self).zoom),
            final(self).scroll == old(self).scroll,
    {
        if self.zoom > -ZOOM_LIMIT {
            self.zoom = self.zoom - 1;
        }
    }
}

/// Mono sample buffer of one opened file, with the outline that was drawn
/// last.
#[derive(Debug)]
pub struct WaveForm {
    pub samples: Vec<i16>,
    pub bits_per_sample: u32,
    pub sample_rate: u32,
    /// The outline as last drawn; `None` once a change of zoom has made it
    /// stale, until it is drawn again.
    pub cache: Option<Vec<PathOp>>,
}

/// Chunk size used for drawing: every sample is drawn.
pub const DEFAULT_DECIMATION: usize = 1;

/// The `i`-th horizontal position of the outline.
pub open spec fn step_x(i: int, factor: int, zoom: i32) -> int {
    i * factor * zoom
}

/// Vertical position of a sample value.
pub open spec fn level(sample: i16, bits: u32) -> int {
    sample + amplitude_range(bits) / 2
}

/// Vertical position at which step `i` starts: the level of the previous
/// representative, or of silence for the first step.
pub open spec fn entry_level(peaks: Seq<i16>, bits: u32, i: int) -> int {
    if i == 0 {
        level(0i16, bits)
    } else {
        level(peaks[i - 1], bits)
    }
}

/// Instruction `j` of the staircase over `peaks`: four per representative
/// (a run at the old level, then a jump to the new one, the pen set down
/// again after each), and a closing instruction at the end.
pub open spec fn staircase_op(peaks: Seq<i16>, factor: int, zoom: i32, bits: u32, j: int) -> PathOp {
    let i = j / 4;
    if i >= peaks.len() {
        PathOp::Close
    } else {
        let x = step_x(i, factor, zoom) as i128;
        let h = PathPoint { x, y: entry_level(peaks, bits, i) as i64 };
        let v = PathPoint { x, y: level(peaks[i], bits) as i64 };
        if j % 4 == 0 {
            PathOp::LineTo(h)
        } else if j % 4 == 1 {
            PathOp::MoveTo(h)
        } else if j % 4 == 2 {
            PathOp::LineTo(v)
        } else {
            PathOp::MoveTo(v)
        }
    }
}

/// The whole staircase over `peaks`.
pub open spec fn staircase(peaks: Seq<i16>, factor: int, zoom: i32, bits: u32) -> Seq<PathOp> {
    Seq::new((4 * peaks.len() + 1) as nat, |j: int| staircase_op(peaks, factor, zoom, bits, j))
}

/// What a key press does to the view: `+` and `=` zoom in, `-` zooms out,
/// any other key leaves the view alone.
pub open spec fn state_after_key(state: WaveFormState, key: char) -> WaveFormState {
    if key == '+' || key == '=' {
        WaveFormState { zoom: zoomed_in(state.zoom), scroll: state.scroll }
    } else if key == '-' {
        WaveFormState { zoom: zoomed_out(state.zoom), scroll: state.scroll }
    } else {
        state
    }
}

/// Whether a key is one of the zoom keys.
pub open spec fn is_zoom_key(key: char) -> bool {
    key == '+' || key == '=' || key == '-'
}

/// The sum of a frame lies between the frame length times the least and
/// the greatest sample value.
pub proof fn lemma_sample_sum_bounds(s: Seq<i16>)
    ensures
        -32768 * s.len() <= sample_sum(s) <= 32767 * s.len(),
    decreases s.len(),
{
    if s.len() > 0 {
        lemma_sample_sum_bounds(s.drop_last());
    }
}

/// The mean of a non-empty frame is itself a sample value, so storing it
/// in sixteen bits loses nothing.
pub proof fn lemma_frame_average_fits(frame: Seq<i16>)
    requires
        frame.len() > 0,
    ensures
        -32768 <= frame_average(frame) <= 32767,
{
    lemma_sample_sum_bounds(frame);
    let n = frame.len() as int;
    let a = sample_sum(frame);
    if a >= 0 {
        assert(0 <= a / n <= 32767) by (nonlinear_arith)
            requires
                0 <= a <= 32767 * n,
                n > 0,
        ;
    } else {
        assert(0 <= (-a) / n <= 32768) by (nonlinear_arith)
            requires
                0 <= -a <= 32768 * n,
                n > 0,
        ;
    }
}

/// A frame whose samples all equal `v` sums to its length times `v`.
pub proof fn lemma_constant_sum(frame: Seq<i16>, v: i16)
    requires
        forall|i: int| 0 <= i < frame.len() ==> frame[i] == v,
    ensures
        sample_sum(frame) == frame.len() * v,
    decreases frame.len(),
{
    if frame.len() > 0 {
        lemma_constant_sum(frame.drop_last(), v);
        assert(frame.len() * v == (frame.len() - 1) * v + v) by (nonlinear_arith);
    }
}

/// Downmixing a stream of constant value yields that value in every mono
/// sample, for any number of channels.
pub proof fn lemma_downmix_constant(stream: Seq<i16>, channels: int, v: i16)
    requires
        channels > 0,
        forall|i: int| 0 <= i < stream.len() ==> stream[i] == v,
    ensures
        downmix(stream, channels).len() == stream.len() as int / channels,
        forall|k: int|
            0 <= k < downmix(stream, channels).len() ==> #[trigger] downmix(stream, channels)[k]
                == v,
{
    let frames = stream.len() as int / channels;
    assert forall|k: int| 0 <= k < frames implies #[trigger] downmix(stream, channels)[k]
        == v by {
        lemma_frame_in_range(stream.len() as int, channels, k);
        let frame = frame_at(stream, channels, k);
        lemma_constant_sum(frame, v);
        let n = channels;
        let vi = v as int;
        if vi >= 0 {
            assert((n * vi) / n == vi) by (nonlinear_arith)
                requires
                    n > 0,
                    vi >= 0,
            ;
        } else {
            assert((-(n * vi)) / n == -vi) by (nonlinear_arith)
                requires
                    n > 0,
                    vi < 0,
            ;
            assert(n * vi < 0) by (nonlinear_arith)
                requires
                    n > 0,
                    vi < 0,
            ;
        }
    }
}

/// Every complete frame lies inside the stream.
pub proof fn lemma_frame_in_range(len: int, channels: int, k: int)
    requires
        channels > 0,
        len >= 0,
        0 <= k < len / channels,
    ensures
        0 <= k * channels,
        (k + 1) * channels <= len,
        (k + 1) * channels == k * channels + channels,
{
    assert((k + 1) * channels <= len && 0 <= k * channels && (k + 1) * channels == k * channels
        + channels) by (nonlinear_arith)
        requires
            channels > 0,
            len >= 0,
            0 <= k < len / channels,
    ;
}

/// The representative of a non-empty chunk is one of its samples, no sample
/// of the chunk exceeds it in magnitude, and every sample after it is
/// strictly smaller in magnitude.
pub proof fn lemma_chunk_peak_is_extreme(chunk: Seq<i16>) -> (at: int)
    requires
        chunk.len() > 0,
    ensures
        0 <= at < chunk.len(),
        chunk[at] == chunk_peak(chunk),
        forall|j: int| 0 <= j < chunk.len() ==> magnitude(chunk[j]) <= magnitude(chunk_peak(chunk)),
        forall|j: int| at < j < chunk.len() ==> magnitude(chunk[j]) < magnitude(chunk_peak(chunk)),
    decreases chunk.len(),
{
    let head = chunk.drop_last();
    if head.len() == 0 {
        assert(chunk_peak(head) == 0i16);
        chunk.len() - 1
    } else {
        let earlier = lemma_chunk_peak_is_extreme(head);
        assert forall|j: int| 0 <= j < chunk.len() implies magnitude(chunk[j]) <= magnitude(
            chunk_peak(chunk),
        ) by {
            if j < head.len() {
                assert(head[j] == chunk[j]);
            }
        }
        if magnitude(chunk.last()) >= magnitude(chunk_peak(head)) {
            chunk.len() - 1
        } else {
            assert(head[earlier] == chunk[earlier]);
            assert forall|j: int| earlier < j < chunk.len() implies magnitude(chunk[j])
                < magnitude(chunk_peak(chunk)) by {
                if j < head.len() {
                    assert(head[j] == chunk[j]);
                }
            }
            earlier
        }
    }
}

/// The chunks cover the samples: chunk `k` starts inside the stream.
pub proof fn lemma_chunk_start_in_range(len: int, factor: int, k: int)
    requires
        factor > 0,
        len >= 0,
        0 <= k < chunk_count(len, factor),
    ensures
        0 <= k * factor < len,
{
    let x = len + factor - 1;
    vstd::arithmetic::div_mod::lemma_fundamental_div_mod(x, factor);
    let cc = x / factor;
    let r = x % factor;
    assert(0 <= r < factor) by {
        vstd::arithmetic::div_mod::lemma_mod_bound(x, factor);
    }
    assert(0 <= k * factor < len) by (nonlinear_arith)
        requires
            x == factor * cc + r,
            0 <= r < factor,
            0 <= k < cc,
            x == len + factor - 1,
            factor > 0,
    ;
}

/// The number of chunks once the last, possibly shorter, chunk is counted.
pub proof fn lemma_chunk_count_at_end(len: int, factor: int, k: int)
    requires
        factor > 0,
        k >= 0,
        k * factor < len <= (k + 1) * factor,
    ensures
        chunk_count(len, factor) == k + 1,
{
    let x = len + factor - 1;
    let r = len - k * factor - 1;
    assert(x == (k + 1) * factor + r) by (nonlinear_arith)
        requires
            x == len + factor - 1,
            r == len - k * factor - 1,
    ;
    assert(0 <= r < factor) by (nonlinear_arith)
        requires
            r == len - k * factor - 1,
            k * factor < len <= (k + 1) * factor,
    ;
    vstd::arithmetic::div_mod::lemma_fundamental_div_mod_converse(x, factor, k + 1, r);
}

/// The envelope has one representative per chunk: its length is the
/// number of samples divided by the factor, rounded up, and so never more
/// than the number of samples.
pub proof fn lemma_decimated_length(samples: Seq<i16>, factor: int)
    requires
        factor > 0,
    ensures
        decimated(samples, factor).len() == chunk_count(samples.len() as int, factor),
        decimated(samples, factor).len() <= samples.len(),
        (decimated(samples, factor).len() - 1) * factor < samples.len() || samples.len() == 0,
        samples.len() <= decimated(samples, factor).len() * factor,
{
    let len = samples.len() as int;
    let x = len + factor - 1;
    vstd::arithmetic::div_mod::lemma_fundamental_div_mod(x, factor);
    vstd::arithmetic::div_mod::lemma_mod_bound(x, factor);
    let cc = x / factor;
    let r = x % factor;
    assert(0 <= cc <= len) by (nonlinear_arith)
        requires
            len + factor - 1 == factor * cc + r,
            0 <= r < factor,
            len >= 0,
    ;
    assert((cc - 1) * factor < len || len == 0) by (nonlinear_arith)
        requires
            len + factor - 1 == factor * cc + r,
            0 <= r < factor,
            len >= 0,
    ;
    assert(len <= cc * factor) by (nonlinear_arith)
        requires
            len + factor - 1 == factor * cc + r,
            0 <= r < factor,
    ;
}

/// With a factor of one the envelope is the sample sequence itself.
pub proof fn lemma_decimation_by_one_is_identity(samples: Seq<i16>)
    ensures
        decimated(samples, 1) == samples,
{
    assert(decimated(samples, 1).len() == samples.len());
    assert forall|k: int| 0 <= k < samples.len() implies decimated(samples, 1)[k]
        == samples[k] by {
        let chunk = chunk_at(samples, 1, k);
        assert(chunk.len() == 1);
        assert(chunk.drop_last().len() == 0);
        assert(chunk_peak(chunk.drop_last()) == 0i16);
        assert(chunk.last() == samples[k]);
    }
    assert(decimated(samples, 1) =~= samples);
}

/// Magnitude of a sample.
fn magnitude_of(x: i16) -> (m: i32)
    ensures
        m == magnitude(x),
{
    if x < 0 {
        -(x as i32)
    } else {
        x as i32
    }
}

impl WaveForm {
    /// The sample width is small enough for the amplitude range to be
    /// computed.
    pub open spec fn well_formed(&self) -> bool {
        self.bits_per_sample <= MAX_BITS_PER_SAMPLE
    }

    /// Builds the mono buffer of a decoded stream: each complete frame of
    /// `channels` interleaved samples becomes its mean, rounded toward zero.
    pub fn from_interleaved(stream: &Vec<i16>, channels: u16, sample_rate: u32) -> (wave: WaveForm)
        requires
            channels > 0,
        ensures
            wave.samples@ == downmix(stream@, channels as int),
            wave.bits_per_sample == 16,
            wave.sample_rate == sample_rate,
            wave.cache is None,
            wave.well_formed(),
    {
        let n: usize = channels as usize;
        let frames: usize = stream.len() / n;
        let mut samples: Vec<i16> = Vec::new();
        let mut i: usize = 0;
        while i < frames
            invariant
                n == channels,
                n > 0,
                frames == stream.len() / n,
                i <= frames,
                samples@.len() == i,
                forall|k: int|
                    0 <= k < i ==> #[trigger] samples@[k] == frame_average(
                        frame_at(stream@, n as int, k),
                    ) as i16,
            decreases frames - i,
        {
            proof {
                lemma_frame_in_range(stream.len() as int, n as int, i as int);
            }
            let base: usize = i * n;
            let ghost frame = frame_at(stream@, n as int, i as int);
            let mut acc: i64 = 0;
            let mut j: usize = 0;
            while j < n
                invariant
                    j <= n,
                    n <= 65535,
                    base + n <= stream.len(),
                    frame == stream@.subrange(base as int, base + n),
                    acc == sample_sum(frame.subrange(0, j as int)),
                    -32768 * j <= acc <= 32767 * j,
                decreases n - j,
            {
                proof {
                    let next = frame.subrange(0, j + 1);
                    assert(next.drop_last() =~= frame.subrange(0, j as int));
                    assert(next.last() == stream@[base + j]);
                }
                acc = acc + stream[base + j] as i64;
                j = j + 1;
            }
            proof {
                assert(frame.subrange(0, n as int) =~= frame);
                lemma_frame_average_fits(frame);
            }
            let avg: i64 = if acc >= 0 {
                acc / (n as i64)
            } else {
                -((-acc) / (n as i64))
            };
            samples.push(avg as i16);
            i = i + 1;
        }
        proof {
            assert(samples@ =~= downmix(stream@, channels as int));
        }
        WaveForm { samples, bits_per_sample: 16, sample_rate, cache: None }
    }

    /// Two to the power of the sample width: the height of the band that
    /// the samples, shifted by half of it, are drawn in.
    pub fn amplitude_range(&self) -> (range: i64)
        requires
            self.well_formed(),
        ensures
            range == amplitude_range(self.bits_per_sample),
            1 <= range <= 0x4000_0000,
    {
        let mut range: i64 = 1;
        let mut k: u32 = 0;
        proof {
            vstd::arithmetic::power2::lemma2_to64();
        }
        while k < self.bits_per_sample
            invariant
                k <= self.bits_per_sample <= 30,
                range == vstd::arithmetic::power2::pow2(k as nat),
                1 <= range <= 0x4000_0000,
                vstd::arithmetic::power2::pow2(30) == 0x4000_0000,
            decreases self.bits_per_sample - k,
        {
            proof {
                vstd::arithmetic::power2::lemma_pow2_unfold((k + 1) as nat);
                vstd::arithmetic::power2::lemma_pow2_strictly_increases(k as nat, 30);
            }
            range = range * 2;
            k = k + 1;
            proof {
                if k < 30 {
                    vstd::arithmetic::power2::lemma_pow2_strictly_increases(k as nat, 30);
                }
            }
        }
        range
    }

    /// Envelope of the buffer: one representative per chunk of `factor`
    /// samples, the one of largest magnitude.
    pub fn decimate(&self, factor: usize) -> (peaks: Vec<i16>)
        requires
            factor > 0,
        ensures
            peaks@ == decimated(self.samples@, factor as int),
    {
        let len: usize = self.samples.len();
        let mut peaks: Vec<i16> = Vec::new();
        let mut start: usize = 0;
        proof {
            assert(chunk_count(0, factor as int) == 0) by (nonlinear_arith)
                requires
                    factor > 0,
            ;
            assert(peaks@.len() * factor == 0) by (nonlinear_arith)
                requires
                    peaks@.len() == 0,
            ;
        }
        while start < len
            invariant
                factor > 0,
                len == self.samples.len(),
                start <= len,
                start < len ==> start == peaks@.len() * factor,
                start == len ==> peaks@.len() == chunk_count(len as int, factor as int),
                peaks@.len() <= chunk_count(len as int, factor as int),
                forall|k: int|
                    0 <= k < peaks@.len() ==> #[trigger] peaks@[k] == chunk_peak(
                        chunk_at(self.samples@, factor as int, k),
                    ),
            decreases len - start,
        {
            let ghost k = peaks@.len() as int;
            let end: usize = if len - start > factor {
                start + factor
            } else {
                len
            };
            proof {
                assert((k + 1) * factor == k * factor + factor) by (nonlinear_arith);
                if end == len {
                    lemma_chunk_count_at_end(len as int, factor as int, k);
                } else {
                    assert(k + 1 < chunk_count(len as int, factor as int)) by {
                        if chunk_count(len as int, factor as int) <= k + 1 {
                            vstd::arithmetic::div_mod::lemma_fundamental_div_mod(
                                len + factor - 1,
                                factor as int,
                            );
                            vstd::arithmetic::div_mod::lemma_mod_bound(
                                len + factor - 1,
                                factor as int,
                            );
                            let cc = chunk_count(len as int, factor as int);
                            let r = (len + factor - 1) % (factor as int);
                            assert(false) by (nonlinear_arith)
                                requires
                                    len + factor - 1 == factor * cc + r,
                                    0 <= r < factor,
                                    cc <= k + 1,
                                    (k + 1) * factor < len,
                            ;
                        }
                    }
                }
            }
            let ghost chunk = chunk_at(self.samples@, factor as int, k);
            assert(chunk == self.samples@.subrange(start as int, end as int));
            let mut peak: i16 = 0;
            let mut j: usize = start;
            while j < end
                invariant
                    start <= j <= end <= len,
                    len == self.samples.len(),
                    chunk == self.samples@.subrange(start as int, end as int),
                    peak == chunk_peak(chunk.subrange(0, j - start)),
                decreases end - j,
            {
                proof {
                    let next = chunk.subrange(0, j + 1 - start);
                    assert(next.drop_last() =~= chunk.subrange(0, j - start));
                    assert(next.last() == self.samples@[j as int]);
                }
                let s: i16 = self.samples[j];
                if magnitude_of(s) >= magnitude_of(peak) {
                    peak = s;
                }
                j = j + 1;
            }
            proof {
                assert(chunk.subrange(0, end - start) =~= chunk);
            }
            peaks.push(peak);
            start = end;
        }
        proof {
            assert(peaks@ =~= decimated(self.samples@, factor as int));
        }
        peaks
    }

    /// Outline of the envelope as a staircase: for each representative a
    /// horizontal run at the previous level and a vertical jump to its own,
    /// then a closing instruction. Positions are in sample units; the
    /// horizontal ones carry the zoom.
    pub fn to_path(&self, state: &WaveFormState, decimation: usize) -> (ops: Vec<PathOp>)
        requires
            self.well_formed(),
            decimation > 0,
        ensures
            ops@ == staircase(
                decimated(self.samples@, decimation as int),
                decimation as int,
                state.zoom,
                self.bits_per_sample,
            ),
    {
        let peaks = self.decimate(decimation);
        let half: i64 = self.amplitude_range() / 2;
        let zoom: i128 = state.zoom as i128;
        let mut ops: Vec<PathOp> = Vec::new();
        let mut old_y: i64 = half;
        let mut i: usize = 0;
        let ghost want = staircase(peaks@, decimation as int, state.zoom, self.bits_per_sample);
        while i < peaks.len()
            invariant
                i <= peaks@.len(),
                decimation > 0,
                peaks@ == decimated(self.samples@, decimation as int),
                half == amplitude_range(self.bits_per_sample) / 2,
                0 <= half <= 0x2000_0000,
                zoom == state.zoom,
                want == staircase(peaks@, decimation as int, state.zoom, self.bits_per_sample),
                old_y == entry_level(peaks@, self.bits_per_sample, i as int),
                ops@.len() == 4 * i,
                forall|j: int| 0 <= j < ops@.len() ==> #[trigger] ops@[j] == want[j],
            decreases peaks@.len() - i,
        {
            proof {
                lemma_chunk_start_in_range(
                    self.samples@.len() as int,
                    decimation as int,
                    i as int,
                );
            }
            let len: usize = self.samples.len();
            assert(0 <= i * decimation < len);
            let start: usize = i * decimation;
            proof {
                assert(-0x8000_0000 * 0x1_0000_0000_0000_0000 <= start * zoom <= 0x8000_0000
                    * 0x1_0000_0000_0000_0000) by (nonlinear_arith)
                    requires
                        0 <= start < 0x1_0000_0000_0000_0000,
                        -0x8000_0000 <= zoom <= 0x8000_0000,
                ;
            }
            let x: i128 = (start as i128) * zoom;
            let y: i64 = peaks[i] as i64 + half;
            let h = PathPoint { x, y: old_y };
            let v = PathPoint { x, y };
            ops.push(PathOp::LineTo(h));
            ops.push(PathOp::MoveTo(h));
            ops.push(PathOp::LineTo(v));
            ops.push(PathOp::MoveTo(v));
            old_y = y;
            i = i + 1;
        }
        ops.push(PathOp::Close);
        proof {
            assert(ops@ =~= want);
        }
        ops
    }

    /// The outline for the view as it is now.
    pub open spec fn outline(&self, state: WaveFormState) -> Seq<PathOp> {
        staircase(
            decimated(self.samples@, DEFAULT_DECIMATION as int),
            DEFAULT_DECIMATION as int,
            state.zoom,
            self.bits_per_sample,
        )
    }

    /// The outline that is kept, if one is.
    pub open spec fn cached(&self) -> Option<Seq<PathOp>> {
        match self.cache {
            Some(ops) => Some(ops@),
            None => None,
        }
    }

    /// Draws the outline for the view as it is now, and keeps it. What was
    /// kept before is not looked at: the outline is always computed anew.
    pub fn draw(&mut self, state: &WaveFormState) -> (ops: Vec<PathOp>)
        requires
            old(self).well_formed(),
        ensures
            ops@ == old(self).outline(*state),
            final(self).cached() == Some(ops@),
            final(self).samples == old(self).samples,
            final(self).bits_per_sample == old(self).bits_per_sample,
            final(self).sample_rate == old(self).sample_rate,
    {
        self.cache = None;
        let ops = self.to_path(state, DEFAULT_DECIMATION);
        let mut kept: Vec<PathOp> = Vec::new();
        let mut i: usize = 0;
        while i < ops.len()
            invariant
                i <= ops@.len(),
                kept@ == ops@.subrange(0, i as int),
            decreases ops@.len() - i,
        {
            kept.push(ops[i]);
            assert(kept@ =~= ops@.subrange(0, i + 1));
            i = i + 1;
        }
        assert(kept@ =~= ops@);
        self.cache = Some(kept);
        ops
    }

    /// Handles a key press over the waveform: the zoom keys change the view
    /// and are captured, and the outline that was kept is dropped, so that
    /// it is computed anew when next drawn; every other key is ignored and
    /// changes nothing.
    pub fn update(&mut self, state: &mut WaveFormState, key: char) -> (status: EventStatus)
        ensures
            *final(state) == state_after_key(*old(state), key),
            status == if is_zoom_key(key) {
                EventStatus::Captured
            } else {
                EventStatus::Ignored
            },
            final(self).cached() == if is_zoom_key(key) {
                None
            } else {
                old(self).cached()
            },
            final(self).samples == old(self).samples,
            final(self).bits_per_sample == old(self).bits_per_sample,
            final(self).sample_rate == old(self).sample_rate,
    {
        if key == '+' || key == '=' {
            state.zoom_in();
            self.cache = None;
            EventStatus::Captured
        } else if key == '-' {
            state.zoom_out();
            self.cache = None;
            EventStatus::Captured
        } else {
            EventStatus::Ignored
        }
    }
}

} // verus!
