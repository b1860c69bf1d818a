//! Speech segmentation.
//!
//! The segmenter consumes fixed-size frames of mono samples and decides,
//! frame by frame, what belongs to the utterance in progress and when the
//! utterance has ended.  While no speech is confirmed it keeps a short
//! pre-roll of recent frames, so the first word of an utterance is not
//! truncated; a cheap energy gate decides whether the voice classifier is
//! consulted at all.  Once speech is confirmed, every frame is handed to the
//! decoder, and a run of silent frames as long as the configured threshold
//! ends the utterance: the caller is told to pull a transcript and drop the
//! decode session, and the segmenter returns to its idle state.

use vstd::prelude::*;
use vstd::slice::slice_subrange;

use crate::vad::{vad_is_voice, vad_new_16khz_aggressive};

verus! {

/// Tuning of the segmenter.  The defaults are the empirically tuned values
/// the segmenter was developed with.
pub struct SegmenterConfig {
    /// Energy gate: a frame whose samples all lie strictly between
    /// `-amp_threshold` and `amp_threshold` is quiet.
    pub amp_threshold: i16,
    /// An utterance ends after this many consecutive silent frames.
    pub silence_frames: u32,
    /// How many recent frames are kept as pre-roll before speech is
    /// confirmed.
    pub preroll_frames: usize,
}

impl Default for SegmenterConfig {
    /// The tuned defaults: gate at amplitude 1000, flush after 3 silent
    /// frames, keep 3 frames of pre-roll.
    fn default() -> (cfg: Self)
        ensures
            cfg.amp_threshold == 1000,
            cfg.silence_frames == 3,
            cfg.preroll_frames == 3,
    {
        SegmenterConfig { amp_threshold: 1000, silence_frames: 3, preroll_frames: 3 }
    }
}

/// The model of a segmenter: the current silent run, whether speech has been
/// confirmed since the last flush, and the pre-roll frames.
pub struct SegState {
    pub silence_run: int,
    pub speech_found: bool,
    pub pending: Seq<Seq<i16>>,
}

/// The idle state: nothing heard, nothing buffered.
pub open spec fn seg_init() -> SegState {
    SegState { silence_run: 0, speech_found: false, pending: seq![] }
}

/// A frame is quiet when every sample lies strictly inside the energy gate.
pub open spec fn frame_quiet(amp: int, f: Seq<i16>) -> bool {
    forall|k: int| 0 <= k < f.len() ==> -amp < #[trigger] f[k] < amp
}

/// A pre-roll buffer after one more frame: the newest frame comes in, and
/// the oldest leaves once the buffer is over its cap.
pub open spec fn push_capped(pending: Seq<Seq<i16>>, f: Seq<i16>, cap: int) -> Seq<Seq<i16>> {
    let p = pending.push(f);
    if p.len() > cap {
        p.drop_first()
    } else {
        p
    }
}

/// What one frame does: the new state, the frames handed to the decoder (in
/// order), and whether the utterance ended and a transcript should be
/// pulled.
pub struct SegStep {
    pub state: SegState,
    pub feed: Seq<Seq<i16>>,
    pub flush: bool,
}

/// The transition of the segmenter on one frame.
///
/// `voiced` is the voice classifier's verdict; it is consulted only when the
/// frame passes the energy gate or speech is already confirmed.  A voiced
/// frame confirms speech, resets the silent run and hands the pre-roll and
/// the frame to the decoder.  A silent frame while speaking is still fed
/// (decoders transcribe better with the trailing silence) and lengthens the
/// silent run; when the run reaches the threshold the utterance is flushed
/// and the segmenter returns to idle.  A silent frame while idle only rolls
/// the pre-roll buffer.
pub open spec fn spec_step(
    cfg: SegmenterConfig,
    st: SegState,
    frame: Seq<i16>,
    voiced: bool,
) -> SegStep {
    let gate = !frame_quiet(cfg.amp_threshold as int, frame) || st.speech_found;
    let voice = gate && voiced;
    if voice {
        SegStep {
            state: SegState { silence_run: 0, speech_found: true, pending: seq![] },
            feed: st.pending.push(frame),
            flush: false,
        }
    } else if st.speech_found {
        let run = if st.silence_run <= cfg.silence_frames {
            st.silence_run + 1
        } else {
            st.silence_run
        };
        if run >= cfg.silence_frames {
            SegStep { state: seg_init(), feed: st.pending.push(frame), flush: true }
        } else {
            SegStep {
                state: SegState { silence_run: run, speech_found: true, pending: seq![] },
                feed: st.pending.push(frame),
                flush: false,
            }
        }
    } else {
        let run = if st.silence_run <= cfg.silence_frames {
            st.silence_run + 1
        } else {
            st.silence_run
        };
        SegStep {
            state: SegState {
                silence_run: run,
                speech_found: false,
                pending: push_capped(st.pending, frame, cfg.preroll_frames as int),
            },
            feed: seq![],
            flush: false,
        }
    }
}

/// The views of a vector of frames.
pub open spec fn frame_views(fs: Seq<Vec<i16>>) -> Seq<Seq<i16>> {
    fs.map_values(|f: Vec<i16>| f@)
}

// ---------------------------------------------------------------------------
// Runs of the machine over whole frame sequences, and the laws that hold of
// them.
// ---------------------------------------------------------------------------

/// One input to the machine: a frame and its voice classification.
pub type SegInput = (Seq<i16>, bool);

/// The frames of a sequence of inputs.
pub open spec fn frames_of(inputs: Seq<SegInput>) -> Seq<Seq<i16>> {
    inputs.map_values(|p: SegInput| p.0)
}

/// An input the machine treats as silence in every state: it is inside the
/// energy gate and the classifier calls it silent.
pub open spec fn silent_input(cfg: SegmenterConfig, inp: SegInput) -> bool {
    frame_quiet(cfg.amp_threshold as int, inp.0) && !inp.1
}

/// An input the machine treats as voice in every state: it is outside the
/// energy gate and the classifier calls it voiced.
pub open spec fn voice_input(cfg: SegmenterConfig, inp: SegInput) -> bool {
    !frame_quiet(cfg.amp_threshold as int, inp.0) && inp.1
}

/// The outcome of a run: the final state, everything fed to the decoder in
/// order, and how many flushes occurred.
pub struct SegRun {
    pub state: SegState,
    pub feed: Seq<Seq<i16>>,
    pub flushes: int,
}

/// Runs the machine over a sequence of inputs.
pub open spec fn spec_run(cfg: SegmenterConfig, st: SegState, inputs: Seq<SegInput>) -> SegRun
    decreases inputs.len(),
{
    if inputs.len() == 0 {
        SegRun { state: st, feed: seq![], flushes: 0 }
    } else {
        let first = spec_step(cfg, st, inputs[0].0, inputs[0].1);
        let rest = spec_run(cfg, first.state, inputs.drop_first());
        SegRun {
            state: rest.state,
            feed: first.feed + rest.feed,
            flushes: (if first.flush {
                1int
            } else {
                0int
            }) + rest.flushes,
        }
    }
}

/// After any flush the machine is idle again, whatever came before: a
/// flushed utterance can never wedge the segmenter.  A voiced frame always
/// resets the silent run and confirms speech.  And the machine keeps its
/// data-model invariants: the pre-roll never outgrows its cap, and it is
/// empty while speech is confirmed.
pub proof fn lemma_step_invariants(
    cfg: SegmenterConfig,
    st: SegState,
    frame: Seq<i16>,
    voiced: bool,
)
    ensures
        spec_step(cfg, st, frame, voiced).flush ==> spec_step(cfg, st, frame, voiced).state
            == seg_init(),
        (!frame_quiet(cfg.amp_threshold as int, frame) || st.speech_found) && voiced ==> {
            let next = spec_step(cfg, st, frame, voiced).state;
            next.silence_run == 0 && next.speech_found
        },
        st.pending.len() <= cfg.preroll_frames ==> spec_step(
            cfg,
            st,
            frame,
            voiced,
        ).state.pending.len() <= cfg.preroll_frames,
        ({
            let next = spec_step(cfg, st, frame, voiced).state;
            next.speech_found ==> next.pending.len() == 0
        }),
{
}

/// A run over concatenated inputs is the two runs in sequence.
pub proof fn lemma_run_append(
    cfg: SegmenterConfig,
    st: SegState,
    a: Seq<SegInput>,
    b: Seq<SegInput>,
)
    ensures
        spec_run(cfg, st, a + b).state == spec_run(cfg, spec_run(cfg, st, a).state, b).state,
        spec_run(cfg, st, a + b).feed == spec_run(cfg, st, a).feed + spec_run(
            cfg,
            spec_run(cfg, st, a).state,
            b,
        ).feed,
        spec_run(cfg, st, a + b).flushes == spec_run(cfg, st, a).flushes + spec_run(
            cfg,
            spec_run(cfg, st, a).state,
            b,
        ).flushes,
    decreases a.len(),
{
    if a.len() == 0 {
        assert(a + b =~= b);
        assert(spec_run(cfg, st, a).feed + spec_run(cfg, st, b).feed =~= spec_run(
            cfg,
            st,
            b,
        ).feed);
    } else {
        let first = spec_step(cfg, st, a[0].0, a[0].1);
        lemma_run_append(cfg, first.state, a.drop_first(), b);
        assert((a + b).drop_first() =~= a.drop_first() + b);
        assert((a + b)[0] == a[0]);
        assert(spec_run(cfg, st, a).feed + spec_run(cfg, spec_run(cfg, st, a).state, b).feed
            =~= spec_run(cfg, st, a + b).feed);
    }
}

/// A run over a single input is the one step.
pub proof fn lemma_run_one(cfg: SegmenterConfig, st: SegState, inp: SegInput)
    ensures
        ({
            let stp = spec_step(cfg, st, inp.0, inp.1);
            let r = spec_run(cfg, st, seq![inp]);
            &&& r.state == stp.state
            &&& r.feed == stp.feed
            &&& r.flushes == (if stp.flush {
                1int
            } else {
                0int
            })
        }),
{
    let stp = spec_step(cfg, st, inp.0, inp.1);
    let one: Seq<SegInput> = seq![inp];
    assert(one[0] == inp);
    let tail = one.drop_first();
    assert(tail.len() == 0);
    let rest = spec_run(cfg, stp.state, tail);
    assert(rest.feed =~= Seq::<Seq<i16>>::empty());
    assert(spec_run(cfg, st, one).feed =~= stp.feed + rest.feed);
    assert(stp.feed + rest.feed =~= stp.feed);
}

/// While no speech is confirmed, silent inputs feed nothing, never flush,
/// and keep only the newest frames as pre-roll.
proof fn lemma_idle_silence(cfg: SegmenterConfig, inputs: Seq<SegInput>)
    requires
        forall|i: int| 0 <= i < inputs.len() ==> silent_input(cfg, #[trigger] inputs[i]),
    ensures
        ({
            let r = spec_run(cfg, seg_init(), inputs);
            let n = inputs.len() as int;
            let p = if n <= cfg.preroll_frames {
                n
            } else {
                cfg.preroll_frames as int
            };
            &&& r.feed == Seq::<Seq<i16>>::empty()
            &&& r.flushes == 0
            &&& !r.state.speech_found
            &&& r.state.pending == frames_of(inputs.subrange(n - p, n))
        }),
    decreases inputs.len(),
{
    let n = inputs.len() as int;
    if n > 0 {
        let a = inputs.drop_last();
        let last = inputs.last();
        assert(inputs =~= a + seq![last]);
        lemma_idle_silence(cfg, a);
        lemma_run_append(cfg, seg_init(), a, seq![last]);
        lemma_run_one(cfg, spec_run(cfg, seg_init(), a).state, last);
        let ra = spec_run(cfg, seg_init(), a);
        let stp = spec_step(cfg, ra.state, last.0, last.1);
        let r = spec_run(cfg, seg_init(), inputs);
        assert(r.feed =~= Seq::<Seq<i16>>::empty());
        let cap = cfg.preroll_frames as int;
        let pa = if n - 1 <= cap {
            n - 1
        } else {
            cap
        };
        let p = if n <= cap {
            n
        } else {
            cap
        };
        assert(ra.state.pending == frames_of(a.subrange(n - 1 - pa, n - 1)));
        assert(r.state.pending =~= frames_of(inputs.subrange(n - p, n)));
    } else {
        assert(spec_run(cfg, seg_init(), inputs).state.pending =~= frames_of(
            inputs.subrange(0, 0),
        ));
    }
}

/// While speech is confirmed with an empty pre-roll, voiced inputs feed
/// exactly themselves, in order, and never flush.
proof fn lemma_speaking_voice(cfg: SegmenterConfig, inputs: Seq<SegInput>)
    requires
        forall|i: int| 0 <= i < inputs.len() ==> voice_input(cfg, #[trigger] inputs[i]),
    ensures
        ({
            let r = spec_run(
                cfg,
                SegState { silence_run: 0, speech_found: true, pending: seq![] },
                inputs,
            );
            &&& r.state == (SegState { silence_run: 0, speech_found: true, pending: seq![] })
            &&& r.feed == frames_of(inputs)
            &&& r.flushes == 0
        }),
    decreases inputs.len(),
{
    let speaking = SegState { silence_run: 0, speech_found: true, pending: seq![] };
    if inputs.len() > 0 {
        lemma_speaking_voice(cfg, inputs.drop_first());
        let stp = spec_step(cfg, speaking, inputs[0].0, inputs[0].1);
        assert(stp.feed =~= seq![inputs[0].0]);
        assert(spec_run(cfg, speaking, inputs).feed =~= frames_of(inputs));
    } else {
        assert(spec_run(cfg, speaking, inputs).feed =~= frames_of(inputs));
    }
}

/// A silent run while speaking, too short to reach the threshold: each frame
/// is still fed, nothing flushes, and speech stays confirmed.
proof fn lemma_speaking_silence(cfg: SegmenterConfig, inputs: Seq<SegInput>, j0: int)
    requires
        0 <= j0,
        j0 + inputs.len() < cfg.silence_frames,
        forall|i: int| 0 <= i < inputs.len() ==> silent_input(cfg, #[trigger] inputs[i]),
    ensures
        ({
            let r = spec_run(
                cfg,
                SegState { silence_run: j0, speech_found: true, pending: seq![] },
                inputs,
            );
            &&& r.state == (SegState {
                silence_run: j0 + inputs.len(),
                speech_found: true,
                pending: seq![],
            })
            &&& r.feed == frames_of(inputs)
            &&& r.flushes == 0
        }),
    decreases inputs.len(),
{
    let from = SegState { silence_run: j0, speech_found: true, pending: seq![] };
    if inputs.len() > 0 {
        lemma_speaking_silence(cfg, inputs.drop_first(), j0 + 1);
        let stp = spec_step(cfg, from, inputs[0].0, inputs[0].1);
        assert(stp.feed =~= seq![inputs[0].0]);
        assert(spec_run(cfg, from, inputs).feed =~= frames_of(inputs));
    } else {
        assert(spec_run(cfg, from, inputs).feed =~= frames_of(inputs));
    }
}

/// A silent run while speaking that reaches the threshold exactly: each
/// frame is fed, exactly one flush occurs at the last frame, and the machine
/// is idle again.
proof fn lemma_speaking_silence_flush(cfg: SegmenterConfig, inputs: Seq<SegInput>)
    requires
        1 <= cfg.silence_frames,
        inputs.len() == cfg.silence_frames,
        forall|i: int| 0 <= i < inputs.len() ==> silent_input(cfg, #[trigger] inputs[i]),
    ensures
        ({
            let r = spec_run(
                cfg,
                SegState { silence_run: 0, speech_found: true, pending: seq![] },
                inputs,
            );
            &&& r.state == seg_init()
            &&& r.feed == frames_of(inputs)
            &&& r.flushes == 1
        }),
{
    let speaking = SegState { silence_run: 0, speech_found: true, pending: seq![] };
    let thr = cfg.silence_frames as int;
    let a = inputs.subrange(0, thr - 1);
    let b = inputs.subrange(thr - 1, thr);
    assert(inputs =~= a + b);
    lemma_speaking_silence(cfg, a, 0);
    lemma_run_append(cfg, speaking, a, b);
    let ra = spec_run(cfg, speaking, a);
    assert(b =~= seq![b[0]]);
    lemma_run_one(cfg, ra.state, b[0]);
    let stp = spec_step(cfg, ra.state, b[0].0, b[0].1);
    assert(stp.flush);
    assert(stp.feed =~= seq![b[0].0]);
    let r = spec_run(cfg, speaking, inputs);
    assert(r.feed =~= frames_of(a) + seq![b[0].0]);
    assert(frames_of(a) + seq![b[0].0] =~= frames_of(inputs));
}

/// The single-utterance law.  A frame sequence of `n` silent frames, then
/// `m` voiced frames, then at least the threshold of silent frames, run from
/// idle, flushes exactly once, and the decoder receives exactly the pre-roll
/// (the newest of the leading silent frames, up to the configured cap), the
/// `m` voiced frames, and the threshold-run of trailing silent frames that
/// ends the utterance -- in order, with no duplication and no drops.
pub proof fn lemma_single_utterance(
    cfg: SegmenterConfig,
    inputs: Seq<SegInput>,
    n: int,
    m: int,
)
    requires
        1 <= cfg.silence_frames,
        0 <= n,
        1 <= m,
        n + m + cfg.silence_frames <= inputs.len(),
        forall|i: int| 0 <= i < n ==> silent_input(cfg, #[trigger] inputs[i]),
        forall|i: int| n <= i < n + m ==> voice_input(cfg, #[trigger] inputs[i]),
        forall|i: int| n + m <= i < inputs.len() ==> silent_input(cfg, #[trigger] inputs[i]),
    ensures
        ({
            let r = spec_run(cfg, seg_init(), inputs);
            let p = if n <= cfg.preroll_frames {
                n
            } else {
                cfg.preroll_frames as int
            };
            &&& r.flushes == 1
            &&& r.feed == frames_of(
                inputs.subrange(n - p, n + m + cfg.silence_frames),
            )
        }),
{
    let thr = cfg.silence_frames as int;
    let speaking = SegState { silence_run: 0, speech_found: true, pending: seq![] };
    let a = inputs.subrange(0, n);
    let b = inputs.subrange(n, n + m);
    let c = inputs.subrange(n + m, n + m + thr);
    let d = inputs.subrange(n + m + thr, inputs.len() as int);
    assert(inputs =~= a + b + c + d);

    // Leading silence: pre-roll only.
    lemma_idle_silence(cfg, a);
    let ra = spec_run(cfg, seg_init(), a);
    let p = if n <= cfg.preroll_frames {
        n
    } else {
        cfg.preroll_frames as int
    };
    assert(ra.state.pending == frames_of(a.subrange(n - p, n)));

    // First voiced frame: the pre-roll and the frame are fed, speech starts.
    let b0 = seq![b[0]];
    let b1 = b.drop_first();
    assert(b =~= b0 + b1);
    let stp = spec_step(cfg, ra.state, b[0].0, b[0].1);
    assert(!ra.state.speech_found);
    assert(stp.state == speaking);
    lemma_run_one(cfg, ra.state, b[0]);
    let rb0 = spec_run(cfg, ra.state, b0);
    assert(rb0.feed == stp.feed);
    assert(rb0.state == speaking && rb0.flushes == 0);

    // Remaining voiced frames are fed one by one.
    lemma_speaking_voice(cfg, b1);
    lemma_run_append(cfg, ra.state, b0, b1);
    let rb = spec_run(cfg, ra.state, b);

    // The threshold run of silence feeds its frames and flushes once.
    lemma_speaking_silence_flush(cfg, c);
    lemma_run_append(cfg, ra.state, b, c);
    let rc = spec_run(cfg, speaking, c);

    // Whatever silence follows feeds nothing and never flushes again.
    lemma_idle_silence(cfg, d);
    lemma_run_append(cfg, ra.state, b + c, d);
    assert((b + c).drop_first() =~= b1 + c);
    lemma_run_append(cfg, seg_init(), a, b + c + d);
    assert(a + (b + c + d) =~= inputs);
    assert(b + c + d =~= (b + c) + d);

    let r = spec_run(cfg, seg_init(), inputs);
    assert(r.flushes == 1);
    assert(r.feed =~= ra.state.pending.push(b[0].0) + frames_of(b1) + frames_of(c));
    assert(frames_of(a.subrange(n - p, n)) =~= frames_of(inputs.subrange(n - p, n)));
    assert(frames_of(b1) =~= frames_of(inputs.subrange(n + 1, n + m)));
    assert(r.feed =~= frames_of(inputs.subrange(n - p, n + m + thr)));
}

/// The short-pause law.  While speech is confirmed, a silent run shorter
/// than the threshold followed by a voiced frame flushes nothing: the
/// session stays open, speech stays confirmed, and the silent run is back at
/// zero.
pub proof fn lemma_short_pause_keeps_session(cfg: SegmenterConfig, inputs: Seq<SegInput>)
    requires
        1 <= cfg.silence_frames,
        1 <= inputs.len(),
        inputs.len() - 1 < cfg.silence_frames,
        forall|i: int| 0 <= i < inputs.len() - 1 ==> silent_input(cfg, #[trigger] inputs[i]),
        voice_input(cfg, inputs[inputs.len() - 1]),
    ensures
        ({
            let r = spec_run(
                cfg,
                SegState { silence_run: 0, speech_found: true, pending: seq![] },
                inputs,
            );
            &&& r.flushes == 0
            &&& r.state == (SegState { silence_run: 0, speech_found: true, pending: seq![] })
            &&& r.feed == frames_of(inputs)
        }),
{
    let speaking = SegState { silence_run: 0, speech_found: true, pending: seq![] };
    let k = inputs.len() as int - 1;
    let a = inputs.subrange(0, k);
    let b = inputs.subrange(k, k + 1);
    assert(inputs =~= a + b);
    lemma_speaking_silence(cfg, a, 0);
    lemma_run_append(cfg, speaking, a, b);
    let ra = spec_run(cfg, speaking, a);
    assert(b =~= seq![b[0]]);
    lemma_run_one(cfg, ra.state, b[0]);
    let stp = spec_step(cfg, ra.state, b[0].0, b[0].1);
    assert(stp.state == speaking && !stp.flush);
    assert(stp.feed =~= seq![b[0].0]);
    let r = spec_run(cfg, speaking, inputs);
    assert(r.feed =~= frames_of(a) + seq![b[0].0]);
    assert(frames_of(a) + seq![b[0].0] =~= frames_of(inputs));
}

/// The speech segmenter.  One instance owns one utterance boundary: methods
/// take the tuning as an argument so the embedder decides it once.
pub struct Segmenter {
    silence_run: u32,
    speech_found: bool,
    pending: Vec<Vec<i16>>,
}

impl View for Segmenter {
    type V = SegState;

    closed spec fn view(&self) -> SegState {
        SegState {
            silence_run: self.silence_run as int,
            speech_found: self.speech_found,
            pending: frame_views(self.pending@),
        }
    }
}

/// Whether every sample of the frame lies strictly inside the energy gate.
pub fn frame_is_quiet(amp: i16, frame: &Vec<i16>) -> (r: bool)
    ensures
        r == frame_quiet(amp as int, frame@),
{
    let a: i32 = amp as i32;
    let mut k: usize = 0;
    while k < frame.len()
        invariant
            k <= frame@.len(),
            a == amp as int,
            forall|j: int| 0 <= j < k ==> -a < #[trigger] frame@[j] < a,
        decreases frame.len() - k,
    {
        let s: i32 = frame[k] as i32;
        if s <= -a || s >= a {
            return false;
        }
        k = k + 1;
    }
    true
}

impl Segmenter {
    /// A segmenter in its idle state.
    pub fn new() -> (seg: Self)
        ensures
            seg@ == seg_init(),
    {
        let seg = Segmenter { silence_run: 0, speech_found: false, pending: Vec::new() };
        proof {
            assert(seg@.pending =~= seg_init().pending);
        }
        seg
    }

    /// Whether speech has been confirmed since the last flush.
    pub fn speech_detected(&self) -> (r: bool)
        ensures
            r == self@.speech_found,
    {
        self.speech_found
    }

    /// Feeds one frame and its voice classification through the segmenter.
    /// Returns the frames to hand to the decoder, in order, and whether the
    /// utterance ended: on `true` the caller pulls a transcript, drops the
    /// decode session, and the segmenter is back in its idle state.
    pub fn step(&mut self, cfg: &SegmenterConfig, frame: Vec<i16>, voiced: bool) -> (r: (
        Vec<Vec<i16>>,
        bool,
    ))
        requires
            cfg.silence_frames < u32::MAX,
        ensures
            ({
                let s = spec_step(*cfg, old(self)@, frame@, voiced);
                &&& final(self)@ == s.state
                &&& frame_views(r.0@) == s.feed
                &&& r.1 == s.flush
            }),
    {
        let ghost pre = self@;
        let quiet = frame_is_quiet(cfg.amp_threshold, &frame);
        let voice = (!quiet || self.speech_found) && voiced;
        if voice || self.speech_found {
            let mut feed: Vec<Vec<i16>> = Vec::new();
            std::mem::swap(&mut feed, &mut self.pending);
            let ghost fed = frame_views(feed@);
            feed.push(frame);
            proof {
                assert(frame_views(feed@) =~= fed.push(frame@));
                assert(frame_views(self.pending@) =~= Seq::<Seq<i16>>::empty());
            }
            if voice {
                self.silence_run = 0;
                self.speech_found = true;
                (feed, false)
            } else {
                if self.silence_run <= cfg.silence_frames {
                    self.silence_run = self.silence_run + 1;
                }
                if self.silence_run >= cfg.silence_frames {
                    self.silence_run = 0;
                    self.speech_found = false;
                    (feed, true)
                } else {
                    (feed, false)
                }
            }
        } else {
            let ghost kept = frame_views(self.pending@);
            self.pending.push(frame);
            proof {
                assert(frame_views(self.pending@) =~= kept.push(frame@));
            }
            if self.pending.len() > cfg.preroll_frames {
                let ghost grown = frame_views(self.pending@);
                self.pending.remove(0);
                proof {
                    assert(frame_views(self.pending@) =~= grown.drop_first());
                }
            }
            if self.silence_run <= cfg.silence_frames {
                self.silence_run = self.silence_run + 1;
            }
            (Vec::new(), false)
        }
    }

    /// Feeds one frame through the energy gate, the voice classifier and the
    /// machine.  The classifier is consulted only when the frame passes the
    /// gate or speech is already confirmed, and it runs over the buffered
    /// pre-roll plus the frame, in 10 ms sub-frames.  Whatever the classifier
    /// answers, the segmenter moves as `spec_step` says for that answer.
    pub fn process_frame(
        &mut self,
        cfg: &SegmenterConfig,
        vad: &mut webrtc_vad::Vad,
        frame: Vec<i16>,
    ) -> (r: (Vec<Vec<i16>>, bool))
        requires
            cfg.silence_frames < u32::MAX,
        ensures
            exists|voiced: bool|
                {
                    let s = #[trigger] spec_step(*cfg, old(self)@, frame@, voiced);
                    &&& final(self)@ == s.state
                    &&& frame_views(r.0@) == s.feed
                    &&& r.1 == s.flush
                },
    {
        let quiet = frame_is_quiet(cfg.amp_threshold, &frame);
        let voiced: bool = if !quiet || self.speech_found {
            let mut samples: Vec<i16> = Vec::new();
            let mut i: usize = 0;
            while i < self.pending.len()
                decreases self.pending.len() - i,
            {
                let f = &self.pending[i];
                let mut j: usize = 0;
                while j < f.len()
                    decreases f.len() - j,
                {
                    samples.push(f[j]);
                    j = j + 1;
                }
                i = i + 1;
            }
            let mut j: usize = 0;
            while j < frame.len()
                decreases frame.len() - j,
            {
                samples.push(frame[j]);
                j = j + 1;
            }
            classify_voice(vad, &samples)
        } else {
            false
        };
        let r = self.step(cfg, frame, voiced);
        proof {
            let s = spec_step(*cfg, old(self)@, frame@, voiced);
            assert(final(self)@ == s.state && frame_views(r.0@) == s.feed && r.1 == s.flush);
        }
        r
    }
}

/// A segmenter paired with its voice classifier, as the consumer loop owns
/// them: one microphone, one classifier, one utterance boundary at a time.
pub struct VoicePipeline {
    segmenter: Segmenter,
    vad: webrtc_vad::Vad,
}

impl View for VoicePipeline {
    type V = SegState;

    closed spec fn view(&self) -> SegState {
        self.segmenter@
    }
}

impl VoicePipeline {
    /// An idle pipeline with a fresh classifier.
    pub fn new() -> (p: Self)
        ensures
            p@ == seg_init(),
    {
        VoicePipeline { segmenter: Segmenter::new(), vad: vad_new_16khz_aggressive() }
    }

    /// Whether speech has been confirmed since the last flush.
    pub fn speech_detected(&self) -> (r: bool)
        ensures
            r == self@.speech_found,
    {
        self.segmenter.speech_detected()
    }

    /// Feeds one frame through the energy gate, the classifier and the machine,
    /// as
    /// `Segmenter::process_frame` does.
    pub fn push_frame(&mut self, cfg: &SegmenterConfig, frame: Vec<i16>) -> (r: (
        Vec<Vec<i16>>,
        bool,
    ))
        requires
            cfg.silence_frames < u32::MAX,
        ensures
            exists|voiced: bool|
                {
                    let s = #[trigger] spec_step(*cfg, old(self)@, frame@, voiced);
                    &&& final(self)@ == s.state
                    &&& frame_views(r.0@) == s.feed
                    &&& r.1 == s.flush
                },
    {
        let r = self.segmenter.process_frame(cfg, &mut self.vad, frame);
        proof {
            let voiced = choose|voiced: bool|
                {
                    let s = #[trigger] spec_step(*cfg, old(self).segmenter@, frame@, voiced);
                    &&& self.segmenter@ == s.state
                    &&& frame_views(r.0@) == s.feed
                    &&& r.1 == s.flush
                };
            let s = spec_step(*cfg, old(self)@, frame@, voiced);
            assert(self@ == s.state && frame_views(r.0@) == s.feed && r.1 == s.flush);
        }
        r
    }
}

/// The length of one classifier sub-frame: 10 ms of 16 kHz mono samples.
pub const VAD_SUBFRAME: usize = 160;

/// Runs the classifier over each full 10 ms sub-frame of the buffered
/// samples; any voiced sub-frame makes the whole buffer voiced.  The result
/// is the classifier's to give: nothing is promised about it.
pub fn classify_voice(vad: &mut webrtc_vad::Vad, samples: &Vec<i16>) -> bool {
    let n = samples.len();
    if n < VAD_SUBFRAME {
        return false;
    }
    let mut i: usize = 0;
    while i <= n - VAD_SUBFRAME
        invariant
            n == samples@.len(),
            VAD_SUBFRAME <= n,
            i <= n,
        decreases n - i,
    {
        let subframe = slice_subrange(samples.as_slice(), i, i + VAD_SUBFRAME);
        if vad_is_voice(vad, subframe) {
            return true;
        }
        i = i + VAD_SUBFRAME;
    }
    false
}

} // verus!
