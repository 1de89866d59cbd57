//! Grains: short, randomly placed and randomly sized regions of a recording.

use crate::random::uniform_u32;
use vstd::prelude::*;

verus! {

/// Number of grain streams that run side by side.
pub const N_GRAINS: u32 = 5;

/// Longest grain, in milliseconds.
pub const GRAIN_MS: u32 = 1000;

/// Number of samples in one chunk handed to the mixer.
pub const GRAIN_BUF_N_SAMPLES: usize = 1024 * 1024;

/// A recording is left after fewer than this many grains.
pub const WAV_MAX_TTL: u32 = 10;

/// The draw that sizes a grain counts in steps of one part in this many.
pub const LEN_DRAW_STEPS: u32 = 1_000_000;

/// Taper fraction of the window when none is given, in thousandths.
pub const DEFAULT_TUKEY_WINDOW_ALPHA: u32 = 500;

/// Length of a grain whose longest form has `max_len` frames, for a draw
/// that stands for the fraction `u = draw / LEN_DRAW_STEPS`:
/// `max_len * (3/5 + 2/5 * u)`, rounded down. The shortest grain is three
/// fifths of the longest.
pub open spec fn tossed_len(max_len: int, draw: int) -> int {
    max_len * (3_000_000 + 2 * draw) / 5_000_000
}

/// A tossed length lies between three fifths of the longest grain and the
/// longest grain itself.
pub proof fn lemma_tossed_len_bounds(max_len: int, draw: int)
    requires
        0 <= max_len,
        0 <= draw < LEN_DRAW_STEPS,
    ensures
        tossed_len(max_len, draw) <= max_len,
        3 * max_len - 4 <= 5 * tossed_len(max_len, draw),
        max_len % 5 == 0 ==> 3 * max_len <= 5 * tossed_len(max_len, draw),
{
    let w = 3_000_000 + 2 * draw;
    let p = max_len * w;
    let q = p / 5_000_000;
    assert(max_len * 3_000_000 <= p <= max_len * 5_000_000) by (nonlinear_arith)
        requires
            0 <= max_len,
            3_000_000 <= w <= 5_000_000,
            p == max_len * w,
    ;
    assert(5_000_000 * q <= p < 5_000_000 * q + 5_000_000) by (nonlinear_arith)
        requires
            q == p / 5_000_000,
    ;
    if max_len % 5 == 0 {
        let k = max_len / 5;
        assert(max_len == 5 * k);
    }
}

/// What the window leaves of a frame.
#[derive(Clone, Copy, Debug, PartialEq, Eq, Structural)]
pub enum Amplitude {
    /// The flat middle of the window: the frame is kept as it is.
    Full,
    /// The raised-cosine edge: the frame is scaled by
    /// `(1 - cos(2 * pi * num / den)) / 2`.
    Raised { num: u64, den: u64 },
}

/// Distance of frame `pos` from the nearer end of a grain of `len` frames.
pub open spec fn folded(pos: int, len: int) -> int {
    if 2 * pos >= len {
        len - pos
    } else {
        pos
    }
}

/// The Tukey window at frame `pos` of a grain of `len` frames, with the taper
/// fraction `alpha` in thousandths: on the first and last `alpha * len / 2000`
/// frames a raised cosine over a period of `alpha * len / 1000` frames, full
/// in between.
pub open spec fn tukey(pos: int, len: int, alpha: int) -> Amplitude {
    let n = folded(pos, len);
    if 2000 * n < alpha * len {
        Amplitude::Raised { num: (1000 * n) as u64, den: (alpha * len) as u64 }
    } else {
        Amplitude::Full
    }
}

/// The taper fraction that stands for an optional one.
pub open spec fn alpha_or_default(alpha: Option<u32>) -> int {
    match alpha {
        Some(a) => a as int,
        None => DEFAULT_TUKEY_WINDOW_ALPHA as int,
    }
}

/// The window is symmetric: a frame and its mirror image about the middle of
/// the grain get the same amplitude.
pub proof fn lemma_tukey_symmetric(pos: int, len: int, alpha: int)
    requires
        0 <= pos <= len,
    ensures
        tukey(pos, len, alpha) == tukey(len - pos, len, alpha),
{
}

/// The window opens from silence: at frame 0 the cosine is taken at a phase
/// of zero, where the amplitude `(1 - cos(0)) / 2` is 0.
pub proof fn lemma_tukey_silent_at_start(len: int, alpha: int)
    requires
        0 < len,
        0 < alpha,
    ensures
        tukey(0, len, alpha) == (Amplitude::Raised { num: 0, den: (alpha * len) as u64 }),
{
    assert(0 < alpha * len) by (nonlinear_arith)
        requires
            0 < len,
            0 < alpha,
    ;
}

/// The middle of the grain is kept in full, for every taper fraction up to
/// the default one and every grain but that of a single frame, whose middle
/// is also its first frame.
pub proof fn lemma_tukey_full_at_middle(len: int, alpha: int)
    requires
        0 <= len,
        len != 1,
        0 <= alpha <= DEFAULT_TUKEY_WINDOW_ALPHA,
    ensures
        tukey(len / 2, len, alpha) == Amplitude::Full,
{
    let n = folded(len / 2, len);
    assert(2 * n >= len - 1);
    assert(alpha * len <= 500 * len) by (nonlinear_arith)
        requires
            0 <= len,
            0 <= alpha <= 500,
    ;
}

/// Whether a decoded sample sits at either end of its range.
pub open spec fn is_extreme(s: i16) -> bool {
    s == i16::MAX || s == i16::MIN
}

/// Whether any sample of a grain sits at either end of its range.
pub open spec fn has_extreme(samples: Seq<i16>) -> bool {
    exists|i: int| 0 <= i < samples.len() && is_extreme(#[trigger] samples[i])
}

/// A region of a recording: where it starts, how long it is, and how long
/// it can get.
#[derive(Debug)]
pub struct Grain {
    start: u32,
    len: u32,
    max_len: u32,
}

impl Clone for Grain {
    fn clone(&self) -> (g: Self)
        ensures
            g == *self,
    {
        proof {
            use_type_invariant(self);
        }
        Grain { start: self.start, len: self.len, max_len: self.max_len }
    }
}

impl Copy for Grain {

}

impl Grain {
    #[verifier::type_invariant]
    spec fn inv(self) -> bool {
        &&& self.max_len % GRAIN_MS == 0
        &&& self.len <= self.max_len
        &&& 3 * self.max_len <= 5 * self.len
    }

    /// First frame of the grain in its recording.
    pub closed spec fn spec_start(&self) -> u32 {
        self.start
    }

    /// Number of frames in the grain.
    pub closed spec fn spec_len(&self) -> u32 {
        self.len
    }

    /// Number of frames in the longest grain.
    pub closed spec fn spec_max_len(&self) -> u32 {
        self.max_len
    }

    /// Whether a recording of `n` frames can hold every grain that a toss may
    /// give, with one frame to spare behind it.
    pub open spec fn spec_fits(&self, n: u32) -> bool {
        n >= self.spec_max_len() + 2
    }

    /// A grain of `GRAIN_MS` milliseconds at `sr` frames per second, at the
    /// start of its recording. The rate is taken in whole frames per
    /// millisecond.
    pub fn new(sr: u32) -> (g: Self)
        ensures
            g.spec_start() == 0,
            g.spec_max_len() == GRAIN_MS * (sr / 1000),
            g.spec_len() == g.spec_max_len(),
    {
        let sr_ms: u32 = sr / 1000;
        let len: u32 = GRAIN_MS * sr_ms;
        Grain { start: 0, max_len: len, len }
    }

    #[verifier::when_used_as_spec(spec_start)]
    pub fn start(&self) -> (r: u32)
        ensures
            r == self.spec_start(),
    {
        self.start
    }

    /// The length, which never leaves the band between three fifths of the
    /// longest grain and the longest grain.
    #[verifier::when_used_as_spec(spec_len)]
    pub fn len(&self) -> (r: u32)
        ensures
            r == self.spec_len(),
            r <= self.spec_max_len(),
            3 * self.spec_max_len() <= 5 * r,
    {
        proof {
            use_type_invariant(self);
        }
        self.len
    }

    #[verifier::when_used_as_spec(spec_max_len)]
    pub fn max_len(&self) -> (r: u32)
        ensures
            r == self.spec_max_len(),
            r % GRAIN_MS == 0,
    {
        proof {
            use_type_invariant(self);
        }
        self.max_len
    }

    #[verifier::when_used_as_spec(spec_fits)]
    pub fn fits(&self, n: u32) -> (r: bool)
        ensures
            r == self.spec_fits(n),
    {
        n >= 2 && n - 2 >= self.max_len
    }

    /// Sizes and places the grain from two given draws: `len_draw` stands for
    /// the fraction `len_draw / LEN_DRAW_STEPS`, `start_draw` is the first
    /// frame.
    pub fn toss_with(&mut self, n: u32, len_draw: u32, start_draw: u32)
        requires
            len_draw < LEN_DRAW_STEPS,
            start_draw + tossed_len(old(self).spec_max_len() as int, len_draw as int) + 1 < n,
        ensures
            final(self).spec_max_len() == old(self).spec_max_len(),
            final(self).spec_len() == tossed_len(old(self).spec_max_len() as int, len_draw as int),
            final(self).spec_start() == start_draw,
    {
        proof {
            use_type_invariant(&*self);
            lemma_tossed_len_bounds(self.max_len as int, len_draw as int);
        }
        self.len = Self::len_for(self.max_len, len_draw);
        self.start = start_draw;
    }

    /// Tosses the grain in the air and lets it land somewhere in a recording
    /// of `n` frames: the length is drawn first, then the start among the
    /// places that leave one frame behind the grain.
    pub fn toss(&mut self, n: u32)
        requires
            old(self).spec_fits(n),
        ensures
            final(self).spec_max_len() == old(self).spec_max_len(),
            exists|draw: int|
                0 <= draw < LEN_DRAW_STEPS && final(self).spec_len() == #[trigger] tossed_len(
                    old(self).spec_max_len() as int,
                    draw,
                ),
            final(self).spec_len() <= final(self).spec_max_len(),
            3 * final(self).spec_max_len() <= 5 * final(self).spec_len(),
            final(self).spec_start() + final(self).spec_len() + 1 < n,
    {
        proof {
            use_type_invariant(&*self);
        }
        let len_draw: u32 = uniform_u32(0, LEN_DRAW_STEPS);
        proof {
            lemma_tossed_len_bounds(self.max_len as int, len_draw as int);
        }
        let len: u32 = Self::len_for(self.max_len, len_draw);
        let start_draw: u32 = uniform_u32(0, n - 1 - len);
        self.toss_with(n, len_draw, start_draw);
    }

    /// Number of interleaved stereo samples that the grain covers.
    pub fn n_samples(&self) -> (r: u64)
        ensures
            r == 2 * self.spec_len(),
    {
        2 * (self.len as u64)
    }

    /// Amplitude of the window at frame `pos` of the grain. `alpha` is the
    /// taper fraction in thousandths.
    pub fn amplitude(&self, pos: usize, alpha: Option<u32>) -> (a: Amplitude)
        requires
            pos <= self.spec_len(),
        ensures
            a == tukey(pos as int, self.spec_len() as int, alpha_or_default(alpha)),
    {
        let alpha: u64 = match alpha {
            Some(a) => a as u64,
            None => DEFAULT_TUKEY_WINDOW_ALPHA as u64,
        };
        let len: u64 = self.len as u64;
        let pos: u64 = pos as u64;
        let n: u64 = if 2 * pos >= len {
            len - pos
        } else {
            pos
        };
        assert(alpha * len <= 0xffff_ffff * 0xffff_ffff) by (nonlinear_arith)
            requires
                0 <= alpha <= 0xffff_ffff,
                0 <= len <= 0xffff_ffff,
        ;
        let period: u64 = alpha * len;
        if 2000 * n < period {
            Amplitude::Raised { num: 1000 * n, den: period }
        } else {
            Amplitude::Full
        }
    }

    /// The window for the first `n_samples` interleaved stereo samples of the
    /// grain: both samples of a frame get the amplitude of their frame.
    pub fn envelope(&self, n_samples: usize, alpha: Option<u32>) -> (env: Vec<Amplitude>)
        requires
            n_samples <= 2 * self.spec_len(),
        ensures
            env@.len() == n_samples,
            forall|i: int|
                0 <= i < n_samples ==> env@[i] == tukey(
                    i / 2,
                    self.spec_len() as int,
                    alpha_or_default(alpha),
                ),
    {
        let mut env: Vec<Amplitude> = Vec::new();
        let mut i: usize = 0;
        while i < n_samples
            invariant
                i <= n_samples,
                n_samples <= 2 * self.spec_len(),
                env@.len() == i,
                forall|j: int|
                    0 <= j < i ==> env@[j] == tukey(
                        j / 2,
                        self.spec_len() as int,
                        alpha_or_default(alpha),
                    ),
            decreases n_samples - i,
        {
            env.push(self.amplitude(i / 2, alpha));
            i += 1;
        }
        env
    }

    fn len_for(max_len: u32, len_draw: u32) -> (len: u32)
        requires
            len_draw < LEN_DRAW_STEPS,
        ensures
            len == tossed_len(max_len as int, len_draw as int),
    {
        let weight: u64 = 3_000_000 + 2 * (len_draw as u64);
        assert(max_len * weight <= 0xffff_ffff * 5_000_000) by (nonlinear_arith)
            requires
                0 <= max_len <= 0xffff_ffff,
                0 <= weight <= 5_000_000,
        ;
        let scaled: u64 = (max_len as u64) * weight;
        proof {
            lemma_tossed_len_bounds(max_len as int, len_draw as int);
        }
        (scaled / 5_000_000) as u32
    }
}

/// What taking `samples` in behind `pending` gives: the chunk to send, where
/// `GRAIN_BUF_N_SAMPLES` samples have come together, and the samples that
/// wait on.
pub open spec fn pushed<T>(pending: Seq<T>, samples: Seq<T>) -> (Option<Seq<T>>, Seq<T>) {
    let all = pending + samples;
    if all.len() >= GRAIN_BUF_N_SAMPLES {
        (
            Some(all.subrange(0, GRAIN_BUF_N_SAMPLES as int)),
            all.subrange(GRAIN_BUF_N_SAMPLES as int, all.len() as int),
        )
    } else {
        (None, all)
    }
}

/// The chunks sent and the samples left waiting after a run of grains was
/// taken in behind `pending`, one after the other.
pub open spec fn pushed_all<T>(pending: Seq<T>, grains: Seq<Seq<T>>) -> (Seq<Seq<T>>, Seq<T>)
    decreases grains.len(),
{
    if grains.len() == 0 {
        (Seq::empty(), pending)
    } else {
        let before = pushed_all(pending, grains.drop_last());
        let now = pushed(before.1, grains.last());
        match now.0 {
            Some(chunk) => (before.0.push(chunk), now.1),
            None => (before.0, now.1),
        }
    }
}

/// The samples of a run of grains or chunks, one behind the other.
pub open spec fn joined<T>(parts: Seq<Seq<T>>) -> Seq<T>
    decreases parts.len(),
{
    if parts.len() == 0 {
        Seq::empty()
    } else {
        joined(parts.drop_last()) + parts.last()
    }
}

/// A stream sends what it took in: the chunks sent, one behind the other
/// and with the samples left waiting behind them, are the samples that waited
/// at first with those of the grains behind them. Every chunk is full, so it
/// holds whole stereo frames.
pub proof fn lemma_chunks_are_what_was_pushed<T>(pending: Seq<T>, grains: Seq<Seq<T>>)
    ensures
        joined(pushed_all(pending, grains).0) + pushed_all(pending, grains).1 == pending + joined(
            grains,
        ),
        forall|i: int|
            0 <= i < pushed_all(pending, grains).0.len() ==> (#[trigger] pushed_all(
                pending,
                grains,
            ).0[i]).len() == GRAIN_BUF_N_SAMPLES,
        joined(pushed_all(pending, grains).0).len() == pushed_all(pending, grains).0.len()
            * GRAIN_BUF_N_SAMPLES,
    decreases grains.len(),
{
    if grains.len() > 0 {
        let before = pushed_all(pending, grains.drop_last());
        let all = before.1 + grains.last();
        let now = pushed(before.1, grains.last());
        lemma_chunks_are_what_was_pushed(pending, grains.drop_last());
        match now.0 {
            Some(chunk) => {
                let chunks = before.0.push(chunk);
                assert(chunks.drop_last() =~= before.0);
                assert(chunk + now.1 =~= all);
                assert(joined(chunks) + now.1 =~= joined(before.0) + (chunk + now.1));
                assert(joined(before.0) + all =~= (joined(before.0) + before.1) + grains.last());
                assert((pending + joined(grains.drop_last())) + grains.last() =~= pending + joined(
                    grains,
                ));
                assert(joined(chunks).len() == joined(before.0).len() + GRAIN_BUF_N_SAMPLES);
                assert((before.0.len() + 1) * GRAIN_BUF_N_SAMPLES == before.0.len()
                    * GRAIN_BUF_N_SAMPLES + GRAIN_BUF_N_SAMPLES) by (nonlinear_arith);
            },
            None => {
                assert(joined(before.0) + all =~= (joined(before.0) + before.1) + grains.last());
                assert((pending + joined(grains.drop_last())) + grains.last() =~= pending + joined(
                    grains,
                ));
            },
        }
    } else {
        assert(joined(Seq::<Seq<T>>::empty()) + pending =~= pending + joined(grains));
    }
}

/// Where less than a chunk waited at first and every grain holds less than
/// a chunk, less than a chunk is left waiting, and the number of chunks sent
/// is the number of samples that came together, divided by the length of a
/// chunk: at least one as soon as that many have come.
pub proof fn lemma_chunks_sent<T>(pending: Seq<T>, grains: Seq<Seq<T>>)
    requires
        pending.len() < GRAIN_BUF_N_SAMPLES,
        forall|i: int| 0 <= i < grains.len() ==> (#[trigger] grains[i]).len() < GRAIN_BUF_N_SAMPLES,
    ensures
        pushed_all(pending, grains).1.len() < GRAIN_BUF_N_SAMPLES,
        pushed_all(pending, grains).0.len() == (pending.len() + joined(grains).len())
            / GRAIN_BUF_N_SAMPLES as nat,
    decreases grains.len(),
{
    lemma_chunks_are_what_was_pushed(pending, grains);
    if grains.len() > 0 {
        assert forall|i: int| 0 <= i < grains.drop_last().len() implies (
        #[trigger] grains.drop_last()[i]).len() < GRAIN_BUF_N_SAMPLES by {
            assert(grains.drop_last()[i] == grains[i]);
        }
        lemma_chunks_sent(pending, grains.drop_last());
    }
    let sent = pushed_all(pending, grains).0;
    let left = pushed_all(pending, grains).1;
    let total = pending.len() + joined(grains).len();
    assert((joined(sent) + left).len() == (pending + joined(grains)).len());
    assert(sent.len() * 1_048_576 + left.len() == total);
    assert(sent.len() == total / 1_048_576) by (nonlinear_arith)
        requires
            sent.len() * 1_048_576 + left.len() == total,
            0 <= left.len() < 1_048_576,
    ;
}

/// A grain of a recording that runs at less than 525000 frames per second
/// holds less than a chunk.
pub proof fn lemma_grain_is_less_than_a_chunk(sr: u32, len: int)
    requires
        sr < 525_000,
        0 <= len <= GRAIN_MS * (sr / 1000),
    ensures
        2 * len < GRAIN_BUF_N_SAMPLES,
{
}

/// One grain stream: it stays with a recording for a few grains, cuts them
/// at random places, and collects their samples into chunks of
/// `GRAIN_BUF_N_SAMPLES`.
pub struct GrainMaker<T> {
    grain: Grain,
    send_buf: Vec<T>,
    ttl: u32,
    n_frames: u32,
    src_sr: u32,
    sink_sr: u32,
}

impl<T> GrainMaker<T> {
    #[verifier::type_invariant]
    spec fn inv(self) -> bool {
        &&& self.ttl < WAV_MAX_TTL
        &&& self.ttl > 0 ==> self.grain.spec_fits(self.n_frames)
    }

    /// The grain as it was cut last.
    pub closed spec fn spec_grain(&self) -> Grain {
        self.grain
    }

    /// The samples that wait for their chunk to fill, oldest first.
    pub closed spec fn pending(&self) -> Seq<T> {
        self.send_buf@
    }

    /// Number of grains still to cut from the recording at hand.
    pub closed spec fn spec_ttl(&self) -> u32 {
        self.ttl
    }

    /// Number of frames in the recording at hand.
    pub closed spec fn spec_n_frames(&self) -> u32 {
        self.n_frames
    }

    /// Frame rate of the recording at hand.
    pub closed spec fn spec_src_sr(&self) -> u32 {
        self.src_sr
    }

    /// Frame rate of the output.
    pub closed spec fn spec_sink_sr(&self) -> u32 {
        self.sink_sr
    }

    /// A stream for an output of `sink_sr` frames per second, with no
    /// recording at hand and nothing waiting.
    pub fn new(sink_sr: u32) -> (m: Self)
        ensures
            m.spec_ttl() == 0,
            m.pending() == Seq::<T>::empty(),
            m.spec_sink_sr() == sink_sr,
            m.spec_src_sr() == sink_sr,
            m.spec_n_frames() == 0,
            m.spec_grain().spec_start() == 0,
            m.spec_grain().spec_len() == GRAIN_MS * (sink_sr / 1000),
            m.spec_grain().spec_max_len() == GRAIN_MS * (sink_sr / 1000),
    {
        GrainMaker {
            grain: Grain::new(sink_sr),
            send_buf: Vec::new(),
            ttl: 0,
            n_frames: 0,
            src_sr: sink_sr,
            sink_sr,
        }
    }

    /// Takes up a recording of `n_frames` frames at `src_sr` frames per
    /// second, and draws for how many grains to stay with it. A recording
    /// too short to hold the longest grain and its spare frame is refused:
    /// the stream is then left with none at hand.
    pub fn open(&mut self, src_sr: u32, n_frames: u32) -> (taken: bool)
        ensures
            taken == (n_frames >= GRAIN_MS * (src_sr / 1000) + 2),
            taken ==> 1 <= final(self).spec_ttl() < WAV_MAX_TTL,
            !taken ==> final(self).spec_ttl() == 0,
            final(self).spec_grain().spec_start() == 0,
            final(self).spec_grain().spec_len() == GRAIN_MS * (src_sr / 1000),
            final(self).spec_grain().spec_max_len() == GRAIN_MS * (src_sr / 1000),
            final(self).spec_src_sr() == src_sr,
            final(self).spec_n_frames() == n_frames,
            final(self).spec_sink_sr() == old(self).spec_sink_sr(),
            final(self).pending() == old(self).pending(),
    {
        self.ttl = 0;
        self.src_sr = src_sr;
        self.n_frames = n_frames;
        self.grain = Grain::new(src_sr);
        if self.grain.fits(n_frames) {
            self.ttl = toss_ttl();
            true
        } else {
            false
        }
    }

    /// Cuts the next grain from the recording at hand and gives its first
    /// frame and its number of frames, or gives nothing where the stay with
    /// the recording is over and another one is to be picked.
    pub fn next_grain(&mut self) -> (cut: Option<(u32, u32)>)
        ensures
            final(self).pending() == old(self).pending(),
            final(self).spec_n_frames() == old(self).spec_n_frames(),
            final(self).spec_src_sr() == old(self).spec_src_sr(),
            final(self).spec_sink_sr() == old(self).spec_sink_sr(),
            final(self).spec_grain().spec_max_len() == old(self).spec_grain().spec_max_len(),
            match cut {
                None => old(self).spec_ttl() == 0 && final(self).spec_ttl() == 0
                    && final(self).spec_grain() == old(self).spec_grain(),
                Some((start, len)) => {
                    &&& old(self).spec_ttl() > 0
                    &&& final(self).spec_ttl() == old(self).spec_ttl() - 1
                    &&& start == final(self).spec_grain().spec_start()
                    &&& len == final(self).spec_grain().spec_len()
                    &&& exists|draw: int|
                        0 <= draw < LEN_DRAW_STEPS && len == #[trigger] tossed_len(
                            old(self).spec_grain().spec_max_len() as int,
                            draw,
                        )
                    &&& len <= final(self).spec_grain().spec_max_len()
                    &&& 3 * final(self).spec_grain().spec_max_len() <= 5 * len
                    &&& start + len + 1 < old(self).spec_n_frames()
                },
            },
    {
        proof {
            use_type_invariant(&*self);
        }
        if self.ttl == 0 {
            return None;
        }
        let mut grain: Grain = self.grain;
        grain.toss(self.n_frames);
        self.grain = grain;
        self.ttl = self.ttl - 1;
        Some((grain.start(), grain.len()))
    }

    /// Whether the grains of the recording at hand run at another rate than
    /// the output and have to be converted.
    pub fn needs_resampling(&self) -> (r: bool)
        ensures
            r == (self.spec_src_sr() != self.spec_sink_sr()),
    {
        self.src_sr != self.sink_sr
    }

    #[verifier::when_used_as_spec(spec_grain)]
    pub fn grain(&self) -> (g: Grain)
        ensures
            g == self.spec_grain(),
    {
        self.grain
    }

    /// Number of samples that wait for their chunk to fill.
    pub fn n_pending(&self) -> (r: usize)
        ensures
            r == self.pending().len(),
    {
        self.send_buf.len()
    }

    /// Number of grains still to cut from the recording at hand.
    #[verifier::when_used_as_spec(spec_ttl)]
    pub fn ttl(&self) -> (r: u32)
        ensures
            r == self.spec_ttl(),
            r < WAV_MAX_TTL,
    {
        proof {
            use_type_invariant(self);
        }
        self.ttl
    }

    /// Takes a grain's samples in behind those that wait, and hands out a
    /// chunk of `GRAIN_BUF_N_SAMPLES` once that many have come together. A
    /// chunk holds whole stereo frames.
    pub fn push(&mut self, samples: &mut Vec<T>) -> (chunk: Option<Vec<T>>)
        ensures
            final(samples)@.len() == 0,
            final(self).pending() == pushed(old(self).pending(), old(samples)@).1,
            match chunk {
                Some(c) => pushed(old(self).pending(), old(samples)@).0 == Some(c@),
                None => pushed(old(self).pending(), old(samples)@).0 is None,
            },
            chunk is Some <==> old(self).pending().len() + old(samples)@.len()
                >= GRAIN_BUF_N_SAMPLES,
            match chunk {
                Some(c) => c@.len() == GRAIN_BUF_N_SAMPLES && c@.len() % 2 == 0 && c@
                    + final(self).pending() == old(self).pending() + old(samples)@,
                None => final(self).pending() == old(self).pending() + old(samples)@
                    && final(self).pending().len() < GRAIN_BUF_N_SAMPLES,
            },
            final(self).spec_grain() == old(self).spec_grain(),
            final(self).spec_ttl() == old(self).spec_ttl(),
            final(self).spec_n_frames() == old(self).spec_n_frames(),
            final(self).spec_src_sr() == old(self).spec_src_sr(),
            final(self).spec_sink_sr() == old(self).spec_sink_sr(),
    {
        proof {
            use_type_invariant(&*self);
        }
        let mut send_buf: Vec<T> = Vec::new();
        core::mem::swap(&mut self.send_buf, &mut send_buf);
        let chunk = accumulate(&mut send_buf, samples, GRAIN_BUF_N_SAMPLES);
        self.send_buf = send_buf;
        proof {
            let all = old(self).pending() + old(samples)@;
            if chunk is Some {
                let c = chunk->0@;
                assert(c =~= all.subrange(0, GRAIN_BUF_N_SAMPLES as int));
                assert(self.send_buf@ =~= all.subrange(
                    GRAIN_BUF_N_SAMPLES as int,
                    all.len() as int,
                ));
            }
        }
        chunk
    }
}

/// Number of grains to cut from a recording before the next one is picked.
pub fn toss_ttl() -> (ttl: u32)
    ensures
        1 <= ttl < WAV_MAX_TTL,
{
    uniform_u32(1, WAV_MAX_TTL)
}

/// Whether a decoded grain clips.
pub fn too_loud(samples: &Vec<i16>) -> (r: bool)
    ensures
        r == has_extreme(samples@),
{
    let mut i: usize = 0;
    while i < samples.len()
        invariant
            i <= samples.len(),
            forall|j: int| 0 <= j < i ==> !is_extreme(#[trigger] samples@[j]),
        decreases samples.len() - i,
    {
        let s: i16 = samples[i];
        if s == i16::MAX || s == i16::MIN {
            return true;
        }
        i += 1;
    }
    false
}

/// Replaces a grain that clips by silence of the same length, and tells
/// whether it did. One sample at either end of the range is enough.
pub fn mute_too_loud(samples: &mut Vec<i16>) -> (muted: bool)
    ensures
        muted == has_extreme(old(samples)@),
        final(samples)@.len() == old(samples)@.len(),
        muted ==> forall|i: int| 0 <= i < final(samples)@.len() ==> final(samples)@[i] == 0,
        !muted ==> final(samples)@ == old(samples)@,
{
    if !too_loud(samples) {
        return false;
    }
    let n: usize = samples.len();
    let mut i: usize = 0;
    while i < n
        invariant
            i <= n,
            n == samples@.len(),
            forall|j: int| 0 <= j < i ==> samples@[j] == 0,
        decreases n - i,
    {
        samples[i] = 0;
        i += 1;
    }
    true
}

/// Cuts the first `chunk_len` samples off `send_buf` once it holds that
/// many, and keeps what follows them.
pub fn take_chunk<T>(send_buf: &mut Vec<T>, chunk_len: usize) -> (chunk: Option<Vec<T>>)
    ensures
        match chunk {
            Some(c) => old(send_buf)@.len() >= chunk_len && c@ == old(send_buf)@.subrange(
                0,
                chunk_len as int,
            ) && final(send_buf)@ == old(send_buf)@.subrange(
                chunk_len as int,
                old(send_buf)@.len() as int,
            ),
            None => old(send_buf)@.len() < chunk_len && final(send_buf)@ == old(send_buf)@,
        },
{
    if send_buf.len() < chunk_len {
        return None;
    }
    let mut rest: Vec<T> = send_buf.split_off(chunk_len);
    core::mem::swap(send_buf, &mut rest);
    Some(rest)
}

/// Moves a grain's samples behind those that wait in `send_buf`, then cuts
/// a chunk off the front if there is one. No sample is dropped or moved out
/// of its order.
pub fn accumulate<T>(
    send_buf: &mut Vec<T>,
    samples: &mut Vec<T>,
    chunk_len: usize,
) -> (chunk: Option<Vec<T>>)
    ensures
        final(samples)@.len() == 0,
        chunk is Some <==> old(send_buf)@.len() + old(samples)@.len() >= chunk_len,
        match chunk {
            Some(c) => c@.len() == chunk_len && c@ + final(send_buf)@ == old(send_buf)@
                + old(samples)@,
            None => final(send_buf)@ == old(send_buf)@ + old(samples)@ && final(send_buf)@.len()
                < chunk_len,
        },
{
    send_buf.append(samples);
    let ghost all = send_buf@;
    let chunk = take_chunk(send_buf, chunk_len);
    proof {
        if all.len() >= chunk_len {
            assert(all.subrange(0, chunk_len as int) + all.subrange(
                chunk_len as int,
                all.len() as int,
            ) =~= all);
        }
    }
    chunk
}

} // verus!
