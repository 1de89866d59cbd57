//! Descriptors of stereo recordings, and the corpus that a survey collects.

use vstd::prelude::*;
use vstd::string::StrSliceExecFns;

verus! {

/// What the header of a recording says of its format.
#[derive(Clone, Copy, Debug, PartialEq, Eq, Structural)]
pub struct WavSpec {
    pub channels: u16,
    pub sample_rate: u32,
    pub bits_per_sample: u16,
}

/// A span of time in milliseconds, as the fraction `num / den`. Nothing is
/// rounded away: a recording of a few frames still lasts a little.
#[derive(Clone, Copy, Debug, PartialEq, Eq, Structural)]
pub struct Millis {
    pub num: u64,
    pub den: u32,
}

impl Millis {
    /// Whether the span is longer than nothing.
    pub open spec fn is_positive(self) -> bool {
        self.num > 0 && self.den > 0
    }

    /// Whether the span is longer than `ms` milliseconds.
    pub open spec fn exceeds(self, ms: u32) -> bool {
        self.num > ms * self.den
    }
}

/// Duration of `n_samples` frames at `sample_rate` frames per second:
/// `n_samples * 1000 / sample_rate` milliseconds.
pub open spec fn duration_ms(n_samples: u32, sample_rate: u32) -> Millis {
    Millis { num: (n_samples * 1000) as u64, den: sample_rate }
}

/// The duration, held down to `cap_ms` where one is given.
pub open spec fn spec_capped_ms(n_samples: u32, sample_rate: u32, cap_ms: Option<u32>) -> Millis {
    let wav_ms = duration_ms(n_samples, sample_rate);
    match cap_ms {
        Some(cap) if wav_ms.exceeds(cap) => Millis { num: cap as u64, den: 1 },
        _ => wav_ms,
    }
}

/// Whether a recording with this header enters the corpus: it is stereo, has
/// a frame rate and at least one frame, and is not capped to nothing.
pub open spec fn describable(spec: WavSpec, n_samples: u32, cap_ms: Option<u32>) -> bool {
    &&& spec.channels == 2
    &&& spec.sample_rate > 0
    &&& n_samples > 0
    &&& cap_ms != Some(0u32)
}

/// Every recording that enters the corpus weighs something.
pub proof fn lemma_describable_weighs(spec: WavSpec, n_samples: u32, cap_ms: Option<u32>)
    requires
        describable(spec, n_samples, cap_ms),
    ensures
        spec_capped_ms(n_samples, spec.sample_rate, cap_ms).is_positive(),
{
}

/// Whether a file name extension is `wav`, in any mix of ASCII upper and
/// lower case.
pub open spec fn spec_is_wav_extension(ext: Seq<char>) -> bool {
    &&& ext.len() == 3
    &&& (ext[0] == 'w' || ext[0] == 'W')
    &&& (ext[1] == 'a' || ext[1] == 'A')
    &&& (ext[2] == 'v' || ext[2] == 'V')
}

/// Weight in milliseconds by which a recording is chosen: its duration, or
/// the cap where it lasts longer than that.
pub fn capped_ms(n_samples: u32, sample_rate: u32, cap_ms: Option<u32>) -> (ms: Millis)
    requires
        sample_rate > 0,
    ensures
        ms == spec_capped_ms(n_samples, sample_rate, cap_ms),
        ms.den > 0,
        cap_ms matches Some(cap) ==> !ms.exceeds(cap),
        cap_ms is None ==> ms == duration_ms(n_samples, sample_rate),
{
    let wav_ms = Millis { num: (n_samples as u64) * 1000, den: sample_rate };
    match cap_ms {
        None => wav_ms,
        Some(cap) => {
            assert(cap * sample_rate <= 0xffff_ffff * 0xffff_ffff) by (nonlinear_arith)
                requires
                    0 <= cap <= 0xffff_ffff,
                    0 <= sample_rate <= 0xffff_ffff,
            ;
            if wav_ms.num > (cap as u64) * (sample_rate as u64) {
                let ms = Millis { num: cap as u64, den: 1 };
                assert(!ms.exceeds(cap));
                ms
            } else {
                assert(!wav_ms.exceeds(cap));
                wav_ms
            }
        },
    }
}

/// Whether a file name extension is `wav`, whatever the case of its letters.
pub fn is_wav_extension(ext: &str) -> (r: bool)
    ensures
        r == spec_is_wav_extension(ext@),
{
    if ext.unicode_len() != 3 {
        return false;
    }
    let w: char = ext.get_char(0);
    let a: char = ext.get_char(1);
    let v: char = ext.get_char(2);
    (w == 'w' || w == 'W') && (a == 'a' || a == 'A') && (v == 'v' || v == 'V')
}

/// Whether a path is worth opening: it names a regular file whose extension
/// is `wav`.
pub fn is_wav_candidate(is_file: bool, ext: Option<&str>) -> (r: bool)
    ensures
        r == (is_file && match ext {
            Some(e) => spec_is_wav_extension(e@),
            None => false,
        }),
{
    match ext {
        Some(e) => is_file && is_wav_extension(e),
        None => false,
    }
}

/// A stereo recording that can be chosen. `P` is what names the recording to
/// whoever opens it, a path as a rule; nothing here looks into it.
#[derive(Debug)]
pub struct WavDesc<P> {
    path: P,
    n_samples: u32,
    spec: WavSpec,
    ms_for_choice: Millis,
}

impl<P> WavDesc<P> {
    #[verifier::type_invariant]
    spec fn inv(self) -> bool {
        self.is_valid()
    }

    /// What holds of every descriptor: it is stereo, has a frame rate, and
    /// weighs something.
    pub open spec fn is_valid(self) -> bool {
        &&& self.spec_spec().channels == 2
        &&& self.spec_spec().sample_rate > 0
        &&& self.spec_ms_for_choice().is_positive()
    }

    pub closed spec fn spec_path(&self) -> P {
        self.path
    }

    pub closed spec fn spec_n_samples(&self) -> u32 {
        self.n_samples
    }

    pub closed spec fn spec_spec(&self) -> WavSpec {
        self.spec
    }

    pub closed spec fn spec_ms_for_choice(&self) -> Millis {
        self.ms_for_choice
    }

    pub fn path(&self) -> (r: &P)
        ensures
            *r == self.spec_path(),
    {
        &self.path
    }

    /// Number of frames in the recording.
    #[verifier::when_used_as_spec(spec_n_samples)]
    pub fn n_samples(&self) -> (r: u32)
        ensures
            r == self.spec_n_samples(),
    {
        self.n_samples
    }

    /// The format, which is stereo.
    #[verifier::when_used_as_spec(spec_spec)]
    pub fn spec(&self) -> (r: WavSpec)
        ensures
            r == self.spec_spec(),
            r.channels == 2,
            r.sample_rate > 0,
    {
        proof {
            use_type_invariant(self);
        }
        self.spec
    }

    /// The weight in milliseconds, which is never zero.
    #[verifier::when_used_as_spec(spec_ms_for_choice)]
    pub fn ms_for_choice(&self) -> (r: Millis)
        ensures
            r == self.spec_ms_for_choice(),
            r.is_positive(),
            self.is_valid(),
    {
        proof {
            use_type_invariant(self);
        }
        self.ms_for_choice
    }
}

impl<P: Clone> WavDesc<P> {
    /// Whether `self` may be a copy of `of`: it tells the same of the
    /// recording, and its path is a copy of the other's.
    pub open spec fn copies(self, of: Self) -> bool {
        &&& cloned(of.spec_path(), self.spec_path())
        &&& self.spec_n_samples() == of.spec_n_samples()
        &&& self.spec_spec() == of.spec_spec()
        &&& self.spec_ms_for_choice() == of.spec_ms_for_choice()
    }
}

impl<P: Clone> Clone for WavDesc<P> {
    fn clone(&self) -> (r: Self)
        ensures
            r.copies(*self),
    {
        proof {
            use_type_invariant(self);
        }
        WavDesc {
            path: self.path.clone(),
            n_samples: self.n_samples,
            spec: self.spec,
            ms_for_choice: self.ms_for_choice,
        }
    }
}

/// Describes a recording from what its header says, or passes it over.
pub fn describe_wav<P>(
    path: P,
    spec: WavSpec,
    n_samples: u32,
    cap_ms: Option<u32>,
) -> (r: Option<WavDesc<P>>)
    ensures
        r is Some <==> describable(spec, n_samples, cap_ms),
        r matches Some(d) ==> {
            &&& d.is_valid()
            &&& d.spec_path() == path
            &&& d.spec_n_samples() == n_samples
            &&& d.spec_spec() == spec
            &&& d.spec_ms_for_choice() == spec_capped_ms(n_samples, spec.sample_rate, cap_ms)
            &&& cap_ms matches Some(cap) ==> !d.spec_ms_for_choice().exceeds(cap)
            &&& cap_ms is None ==> d.spec_ms_for_choice() == duration_ms(
                n_samples,
                spec.sample_rate,
            )
        },
{
    if spec.channels != 2 || spec.sample_rate == 0 || n_samples == 0 {
        return None;
    }
    match cap_ms {
        Some(cap) => {
            if cap == 0 {
                return None;
            }
        },
        None => {},
    }
    let ms_for_choice = capped_ms(n_samples, spec.sample_rate, cap_ms);
    Some(WavDesc { path, n_samples, spec, ms_for_choice })
}

/// How recordings are chosen from a corpus.
#[derive(Debug)]
pub enum Selection {
    /// The corpus holds one recording: these are the indices chosen, all 0.
    Only(Vec<usize>),
    /// The corpus holds several: the indices are to be drawn by chance, in
    /// two steps. First a share for each recording is drawn from a Dirichlet
    /// distribution whose concentration parameters are these weights, one for
    /// each recording in the order of the corpus; then each index is drawn
    /// by those shares.
    ByWeight(Vec<Millis>),
}

/// Decides how `n` recordings are chosen from `wavs`. Nothing can be chosen
/// from an empty corpus, and nothing is left to chance in a corpus of one.
pub fn select_wavs<P>(wavs: &Vec<WavDesc<P>>, n: usize) -> (r: Option<Selection>)
    ensures
        r is None <==> wavs@.len() == 0,
        r matches Some(Selection::Only(which)) ==> {
            &&& wavs@.len() == 1
            &&& which@.len() == n
            &&& forall|i: int| 0 <= i < n ==> which@[i] == 0
        },
        r matches Some(Selection::ByWeight(weights)) ==> {
            &&& wavs@.len() >= 2
            &&& weights@.len() == wavs@.len()
            &&& forall|i: int|
                0 <= i < weights@.len() ==> weights@[i] == wavs@[i].spec_ms_for_choice()
                    && weights@[i].is_positive()
        },
{
    if wavs.len() == 0 {
        return None;
    }
    if wavs.len() == 1 {
        let mut which: Vec<usize> = Vec::new();
        let mut i: usize = 0;
        while i < n
            invariant
                i <= n,
                which@.len() == i,
                forall|j: int| 0 <= j < i ==> which@[j] == 0,
            decreases n - i,
        {
            which.push(0);
            i += 1;
        }
        return Some(Selection::Only(which));
    }
    let mut weights: Vec<Millis> = Vec::new();
    let mut i: usize = 0;
    while i < wavs.len()
        invariant
            i <= wavs@.len(),
            weights@.len() == i,
            forall|j: int|
                0 <= j < i ==> weights@[j] == wavs@[j].spec_ms_for_choice()
                    && weights@[j].is_positive(),
        decreases wavs@.len() - i,
    {
        weights.push(wavs[i].ms_for_choice());
        i += 1;
    }
    Some(Selection::ByWeight(weights))
}

/// The recording that a draw of indices picks from `wavs`: a copy of the one
/// at the first index drawn, or none where nothing was drawn or that index
/// lies outside the corpus.
pub fn picked<P: Clone>(wavs: &Vec<WavDesc<P>>, drawn: &Vec<usize>) -> (r: Option<WavDesc<P>>)
    ensures
        r is Some <==> drawn@.len() > 0 && drawn@[0] < wavs@.len(),
        r matches Some(wdesc) ==> wdesc.copies(wavs@[drawn@[0] as int]),
{
    if drawn.len() == 0 {
        return None;
    }
    let which: usize = drawn[0];
    if which >= wavs.len() {
        return None;
    }
    Some(wavs[which].clone())
}

/// What one message from a surveyor does to the count of surveyors still at
/// work and to the corpus: a descriptor joins the corpus, a sentinel takes one
/// surveyor off the count. Once the count is zero nothing changes any more.
pub open spec fn received<P>(state: (nat, Seq<WavDesc<P>>), msg: Option<WavDesc<P>>) -> (
    nat,
    Seq<WavDesc<P>>,
) {
    if state.0 == 0 {
        state
    } else {
        match msg {
            Some(wdesc) => (state.0, state.1.push(wdesc)),
            None => ((state.0 - 1) as nat, state.1),
        }
    }
}

/// The state after a run of messages, taken in their order.
pub open spec fn received_all<P>(
    state: (nat, Seq<WavDesc<P>>),
    msgs: Seq<Option<WavDesc<P>>>,
) -> (nat, Seq<WavDesc<P>>)
    decreases msgs.len(),
{
    if msgs.len() == 0 {
        state
    } else {
        received(received_all(state, msgs.drop_last()), msgs.last())
    }
}

/// Number of sentinels in a run of messages.
pub open spec fn sentinels<P>(msgs: Seq<Option<WavDesc<P>>>) -> nat
    decreases msgs.len(),
{
    if msgs.len() == 0 {
        0
    } else {
        sentinels(msgs.drop_last()) + if msgs.last() is None {
            1nat
        } else {
            0nat
        }
    }
}

/// A pool of `n_producers` surveyors is done exactly when that many
/// sentinels have come in: each sentinel takes one off the count, and nothing
/// else does.
pub proof fn lemma_complete_after_all_sentinels<P>(
    n_producers: nat,
    msgs: Seq<Option<WavDesc<P>>>,
)
    ensures
        received_all((n_producers, Seq::empty()), msgs).0 == if sentinels(msgs) <= n_producers {
            n_producers - sentinels(msgs)
        } else {
            0
        },
        received_all((n_producers, Seq::empty()), msgs).0 == 0 <==> sentinels(msgs) >= n_producers,
    decreases msgs.len(),
{
    if msgs.len() > 0 {
        lemma_complete_after_all_sentinels(n_producers, msgs.drop_last());
    }
}

/// The descriptors among a run of messages, in their order.
pub open spec fn descriptors<P>(msgs: Seq<Option<WavDesc<P>>>) -> Seq<WavDesc<P>>
    decreases msgs.len(),
{
    if msgs.len() == 0 {
        Seq::empty()
    } else {
        match msgs.last() {
            Some(wdesc) => descriptors(msgs.drop_last()).push(wdesc),
            None => descriptors(msgs.drop_last()),
        }
    }
}

/// As long as no message comes behind the last sentinel that was waited
/// for, the corpus is made of the descriptors that came, all of them and in
/// their order.
pub proof fn lemma_corpus_is_what_came<P>(n_producers: nat, msgs: Seq<Option<WavDesc<P>>>)
    requires
        msgs.len() > 0 ==> sentinels(msgs.drop_last()) < n_producers,
    ensures
        received_all((n_producers, Seq::empty()), msgs).1 == descriptors(msgs),
    decreases msgs.len(),
{
    if msgs.len() > 0 {
        let before = msgs.drop_last();
        lemma_complete_after_all_sentinels(n_producers, before);
        lemma_corpus_is_what_came(n_producers, before);
    }
}

/// Collects the descriptors that a pool of surveyors sends, until each of
/// them has sent its sentinel.
pub struct Aggregator<P> {
    remaining: u32,
    wavs: Vec<WavDesc<P>>,
}

impl<P> Aggregator<P> {
    #[verifier::type_invariant]
    spec fn inv(self) -> bool {
        forall|i: int| 0 <= i < self.wavs@.len() ==> (#[trigger] self.wavs@[i]).is_valid()
    }

    /// Number of surveyors that have not sent their sentinel, and the
    /// descriptors collected so far.
    pub closed spec fn view(&self) -> (nat, Seq<WavDesc<P>>) {
        (self.remaining as nat, self.wavs@)
    }

    pub fn new(n_producers: u32) -> (a: Self)
        ensures
            a@ == (n_producers as nat, Seq::<WavDesc<P>>::empty()),
    {
        Aggregator { remaining: n_producers, wavs: Vec::new() }
    }

    /// Whether every surveyor has sent its sentinel.
    pub fn is_complete(&self) -> (r: bool)
        ensures
            r == (self@.0 == 0),
    {
        self.remaining == 0
    }

    /// Takes one message in, and tells whether the corpus is complete now.
    pub fn receive(&mut self, msg: Option<WavDesc<P>>) -> (complete: bool)
        ensures
            final(self)@ == received(old(self)@, msg),
            complete == (final(self)@.0 == 0),
    {
        proof {
            use_type_invariant(&*self);
        }
        if self.remaining > 0 {
            match msg {
                Some(wdesc) => {
                    proof {
                        use_type_invariant(&wdesc);
                    }
                    let mut wavs: Vec<WavDesc<P>> = Vec::new();
                    core::mem::swap(&mut self.wavs, &mut wavs);
                    wavs.push(wdesc);
                    self.wavs = wavs;
                },
                None => {
                    self.remaining = self.remaining - 1;
                },
            }
        }
        self.remaining == 0
    }

    /// The corpus: every descriptor received, in the order in which they
    /// came. Each is stereo and weighs something.
    pub fn into_corpus(self) -> (wavs: Vec<WavDesc<P>>)
        ensures
            wavs@ == self@.1,
            forall|i: int| 0 <= i < wavs@.len() ==> (#[trigger] wavs@[i]).is_valid(),
    {
        proof {
            use_type_invariant(&self);
        }
        self.wavs
    }
}

} // verus!
