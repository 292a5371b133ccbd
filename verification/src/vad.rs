//! The voice-activity ring: a speech-probability curve over the audio that a
//! session currently holds.
//!
//! Audio is scored in frames of 256 samples (16 ms). The ring keeps one
//! probability per scored frame and the samples that do not yet fill a frame.
//! The scores come from an `earshot` detector; what the ring does with them is
//! verified for every score the detector may return. The ring also keeps
//! track, in ghost state, of the frames it has handed to the detector: which
//! frames the detector hears, and in which order, is verified, and what it
//! answers is not.

use crate::fixed::{micros_from_bits, MICROS_ONE};
use earshot::{DefaultPredictor, Detector};
use vstd::prelude::*;
use vstd::slice::slice_subrange;

verus! {

/// `earshot::DefaultPredictor`, the detector's built-in model. Nothing is
/// known of what is inside.
#[verifier::external_type_specification]
#[verifier::external_body]
pub struct ExDefaultPredictor(DefaultPredictor);

/// `earshot::Detector`, with the memory of what it has heard. Nothing is
/// known of what is inside.
#[verifier::external_type_specification]
#[verifier::external_body]
#[verifier::reject_recursive_types(P)]
pub struct ExDetector<P>(Detector<P>);

/// Samples in one scored frame.
pub const VAD_FRAME: usize = 256;

/// Milliseconds covered by one scored frame.
pub const VAD_FRAME_MS: usize = 16;

/// `Detector::default`: a detector that has heard nothing yet.
#[verifier::external_body]
fn detector_new() -> Detector<DefaultPredictor> {
    Detector::default()
}

/// `Detector::predict_i16` on one frame of 256 samples, the length it asks
/// for. The score is handed back as its single-precision bit pattern. It
/// depends on everything the detector has heard, so nothing is claimed of
/// it: the crate describes it as lying between 0 and 1, and the ring clamps
/// what it gets instead of relying on that.
#[verifier::external_body]
fn detector_predict(detector: &mut Detector<DefaultPredictor>, frame: &[i16]) -> (bits: u32)
    requires
        frame@.len() == VAD_FRAME,
{
    detector.predict_i16(frame).to_bits()
}

/// The ring as contracts see it.
pub struct VadView {
    /// One probability per scored frame, in millionths.
    pub probabilities: Seq<u32>,
    /// The samples after the last scored frame.
    pub leftovers: Seq<i16>,
    /// The frames handed to the detector since it was made, in order.
    pub heard: Seq<Seq<i16>>,
}

impl VadView {
    /// No leftover run fills a frame, every probability is at most one, and
    /// there is one probability for every frame the detector has heard.
    pub open spec fn wf(self) -> bool {
        &&& self.leftovers.len() < VAD_FRAME
        &&& all_probabilities(self.probabilities)
        &&& self.heard.len() == self.probabilities.len()
    }

    /// The ring that has been fed nothing.
    pub open spec fn empty() -> VadView {
        VadView { probabilities: Seq::empty(), leftovers: Seq::empty(), heard: Seq::empty() }
    }

    /// How many samples have gone into the ring.
    pub open spec fn total_samples(self) -> nat {
        self.probabilities.len() * VAD_FRAME as nat + self.leftovers.len()
    }

    /// How many frames `samples` complete when fed to this ring.
    pub open spec fn frames_completed(self, samples: Seq<i16>) -> nat {
        (self.leftovers.len() + samples.len()) / VAD_FRAME as nat
    }

    /// The `i`-th frame that feeding `samples` hands to the detector.
    pub open spec fn frame(self, samples: Seq<i16>, i: int) -> Seq<i16> {
        (self.leftovers + samples).subrange(i * VAD_FRAME, (i + 1) * VAD_FRAME)
    }

    /// The frames that feeding `samples` hands to the detector, in order.
    pub open spec fn frames(self, samples: Seq<i16>) -> Seq<Seq<i16>> {
        Seq::new(self.frames_completed(samples), |i: int| self.frame(samples, i))
    }

    /// The ring after `samples` were fed and the frames they complete were
    /// handed to the detector and scored, in order, as `scores`.
    pub open spec fn fed(self, samples: Seq<i16>, scores: Seq<u32>) -> VadView {
        VadView {
            probabilities: self.probabilities + scores,
            leftovers: (self.leftovers + samples).skip(
                self.frames_completed(samples) * VAD_FRAME as int,
            ),
            heard: self.heard + self.frames(samples),
        }
    }

    /// The ring after `samples` were fed to a detector each of whose scores
    /// is the function `score` of all the frames it has heard.
    pub open spec fn fed_by(self, score: spec_fn(Seq<Seq<i16>>) -> u32, samples: Seq<i16>)
        -> VadView {
        self.fed(samples, scores_after(score, self.heard, self.frames(samples)))
    }

    /// The last probability, or zero for an empty ring.
    pub open spec fn end_probability(self) -> u32 {
        if self.probabilities.len() == 0 {
            0
        } else {
            self.probabilities.last()
        }
    }

    /// The probability at `cs` centiseconds after the start of the ring.
    ///
    /// The position in the curve is `cs * 10 / 16` frames. Before the first
    /// sample the first sample holds, at or after the last one the last one
    /// holds, and in between the two neighbours are blended.
    pub open spec fn probability_at(self, cs: int) -> int {
        if self.probabilities.len() == 0 {
            0
        } else if cs <= 0 {
            self.probabilities[0] as int
        } else if cs * 10 / 16 >= self.probabilities.len() - 1 {
            self.probabilities.last() as int
        } else {
            blend(
                self.probabilities[cs * 10 / 16] as int,
                self.probabilities[cs * 10 / 16 + 1] as int,
                cs * 10 % 16,
            )
        }
    }

    /// The centisecond at which the scored part of the ring ends.
    pub open spec fn end_cs(self) -> int {
        self.probabilities.len() * VAD_FRAME_MS as int / 10
    }
}

/// Linear interpolation from `lo` (at weight 0) to `hi` (at weight 16),
/// rounded down.
pub open spec fn blend(lo: int, hi: int, weight: int) -> int {
    (hi * weight + lo * (16 - weight)) / 16
}

/// The interpolation starts at the earlier sample and ends at the later one.
pub proof fn lemma_blend_endpoints(lo: int, hi: int)
    ensures
        blend(lo, hi, 0) == lo,
        blend(lo, hi, 16) == hi,
{
}

/// As the weight grows, the interpolated value moves from the earlier sample
/// toward the later one and never back, and it stays between the two.
pub proof fn lemma_blend_monotone(lo: int, hi: int, w1: int, w2: int)
    requires
        0 <= w1 <= w2 <= 16,
    ensures
        lo <= hi ==> lo <= blend(lo, hi, w1) <= blend(lo, hi, w2) <= hi,
        lo >= hi ==> lo >= blend(lo, hi, w1) >= blend(lo, hi, w2) >= hi,
{
    let n1 = hi * w1 + lo * (16 - w1);
    let n2 = hi * w2 + lo * (16 - w2);
    assert(n2 - n1 == (hi - lo) * (w2 - w1)) by (nonlinear_arith)
        requires
            n1 == hi * w1 + lo * (16 - w1),
            n2 == hi * w2 + lo * (16 - w2),
    ;
    assert(n1 - 16 * lo == (hi - lo) * w1) by (nonlinear_arith)
        requires
            n1 == hi * w1 + lo * (16 - w1),
    ;
    assert(16 * hi - n2 == (hi - lo) * (16 - w2)) by (nonlinear_arith)
        requires
            n2 == hi * w2 + lo * (16 - w2),
    ;
    if lo <= hi {
        assert((hi - lo) * (w2 - w1) >= 0 && (hi - lo) * w1 >= 0 && (hi - lo) * (16 - w2) >= 0)
            by (nonlinear_arith)
            requires
                lo <= hi,
                0 <= w1 <= w2 <= 16,
        ;
    }
    if lo >= hi {
        assert((hi - lo) * (w2 - w1) <= 0 && (hi - lo) * w1 <= 0 && (hi - lo) * (16 - w2) <= 0)
            by (nonlinear_arith)
            requires
                lo >= hi,
                0 <= w1 <= w2 <= 16,
        ;
    }
}

/// The interpolated value has no jumps: one step of the weight moves it by at
/// most a sixteenth of the distance between the two samples, rounded up.
pub proof fn lemma_blend_continuous(lo: int, hi: int, weight: int)
    requires
        0 <= weight < 16,
    ensures
        lo <= hi ==> blend(lo, hi, weight + 1) - blend(lo, hi, weight) <= (hi - lo) / 16 + 1,
        lo >= hi ==> blend(lo, hi, weight) - blend(lo, hi, weight + 1) <= (lo - hi) / 16 + 1,
{
    let n1 = hi * weight + lo * (16 - weight);
    let n2 = hi * (weight + 1) + lo * (16 - (weight + 1));
    assert(n2 - n1 == hi - lo) by (nonlinear_arith)
        requires
            n1 == hi * weight + lo * (16 - weight),
            n2 == hi * (weight + 1) + lo * (16 - (weight + 1)),
    ;
}

/// Feeding keeps the ring well formed and keeps count: the ring holds one
/// probability for every 256 samples fed to it, and the remainder as
/// leftovers.
pub proof fn lemma_fed_counts(ring: VadView, samples: Seq<i16>, scores: Seq<u32>)
    requires
        ring.wf(),
        scores.len() == ring.frames_completed(samples),
        forall|i: int| 0 <= i < scores.len() ==> #[trigger] scores[i] <= MICROS_ONE,
    ensures
        ring.fed(samples, scores).wf(),
        ring.fed(samples, scores).total_samples() == ring.total_samples() + samples.len(),
        ring.probabilities.len() == ring.total_samples() / VAD_FRAME as nat,
        ring.leftovers.len() == ring.total_samples() % VAD_FRAME as nat,
        ring.fed(samples, scores).probabilities.len() == ring.fed(samples, scores).total_samples()
            / VAD_FRAME as nat,
        ring.fed(samples, scores).leftovers.len() == ring.fed(samples, scores).total_samples()
            % VAD_FRAME as nat,
{
    let after = ring.fed(samples, scores);
    assert forall|i: int| 0 <= i < after.probabilities.len() implies #[trigger] after.probabilities[i]
        <= MICROS_ONE by {
        if i >= ring.probabilities.len() {
            assert(after.probabilities[i] == scores[i - ring.probabilities.len()]);
        }
    }
}

/// Feeding `a` and then `b` leaves the ring that feeding `a + b` at once
/// leaves, given the same scores in the same order; and the detector is
/// handed the same frames in the same order either way.
pub proof fn lemma_fed_in_parts(
    ring: VadView,
    a: Seq<i16>,
    b: Seq<i16>,
    scores_a: Seq<u32>,
    scores_b: Seq<u32>,
)
    ensures
        ring.fed(a, scores_a).fed(b, scores_b) == ring.fed(a + b, scores_a + scores_b),
        ring.frames(a) + ring.fed(a, scores_a).frames(b) == ring.frames(a + b),
        ring.frames_completed(a) + ring.fed(a, scores_a).frames_completed(b)
            == ring.frames_completed(a + b),
        forall|i: int|
            0 <= i < ring.frames_completed(a) ==> #[trigger] ring.frame(a, i) == ring.frame(
                a + b,
                i,
            ),
        forall|i: int|
            0 <= i < ring.fed(a, scores_a).frames_completed(b) ==> #[trigger] ring.fed(
                a,
                scores_a,
            ).frame(b, i) == ring.frame(a + b, ring.frames_completed(a) + i),
{
    let first = ring.fed(a, scores_a);
    let k1 = ring.frames_completed(a);
    let k2 = first.frames_completed(b);
    let all = ring.leftovers + (a + b);
    assert(all == ring.leftovers + a + b);
    assert(first.leftovers + b == all.skip(k1 * VAD_FRAME as int));
    assert(first.fed(b, scores_b).leftovers == all.skip((k1 + k2) * VAD_FRAME as int));
    assert(ring.probabilities + scores_a + scores_b == ring.probabilities + (scores_a + scores_b));
    assert forall|i: int| 0 <= i < k1 implies #[trigger] ring.frame(a, i) == ring.frame(a + b, i) by {
        assert((i + 1) * VAD_FRAME <= k1 * VAD_FRAME) by (nonlinear_arith)
            requires
                i < k1,
        ;
        assert(i * VAD_FRAME >= 0) by (nonlinear_arith)
            requires
                i >= 0,
        ;
        assert(ring.frame(a, i) =~= ring.frame(a + b, i));
    }
    assert forall|i: int| 0 <= i < k2 implies #[trigger] first.frame(b, i) == ring.frame(
        a + b,
        k1 + i,
    ) by {
        assert((i + 1) * VAD_FRAME <= k2 * VAD_FRAME) by (nonlinear_arith)
            requires
                i < k2,
        ;
        assert(i * VAD_FRAME >= 0) by (nonlinear_arith)
            requires
                i >= 0,
        ;
        assert((k1 + i) * VAD_FRAME == k1 * VAD_FRAME + i * VAD_FRAME) by (nonlinear_arith);
        assert((k1 + i + 1) * VAD_FRAME == k1 * VAD_FRAME + (i + 1) * VAD_FRAME)
            by (nonlinear_arith);
        assert(first.frame(b, i) =~= ring.frame(a + b, k1 + i));
    }
    assert(ring.frames(a) + first.frames(b) =~= ring.frames(a + b)) by {
        assert forall|i: int| 0 <= i < k1 + k2 implies (ring.frames(a) + first.frames(b))[i]
            == ring.frames(a + b)[i] by {
            if i < k1 {
                assert(ring.frame(a, i) == ring.frame(a + b, i));
            } else {
                assert(first.frame(b, i - k1) == ring.frame(a + b, k1 + (i - k1)));
            }
        }
    }
    assert(ring.heard + ring.frames(a) + first.frames(b) == ring.heard + (ring.frames(a)
        + first.frames(b)));
}

/// The scores that a detector gives to `frames` after it has heard `heard`,
/// if each of its scores is the function `score` of all the frames it has
/// heard up to and including the one it scores.
pub open spec fn scores_after(
    score: spec_fn(Seq<Seq<i16>>) -> u32,
    heard: Seq<Seq<i16>>,
    frames: Seq<Seq<i16>>,
) -> Seq<u32> {
    Seq::new(frames.len(), |i: int| score(heard + frames.take(i + 1)))
}

/// With a detector whose every score is a function of the frames it has
/// heard so far, feeding `a` and then `b` leaves the ring that feeding
/// `a + b` at once leaves: the same probabilities and the same leftovers.
/// Nothing is claimed here of any detector: `score` stands for whichever
/// function it computes.
pub proof fn lemma_fed_in_parts_same_scores(
    ring: VadView,
    a: Seq<i16>,
    b: Seq<i16>,
    score: spec_fn(Seq<Seq<i16>>) -> u32,
)
    ensures
        ring.fed_by(score, a).fed_by(score, b) == ring.fed_by(score, a + b),
{
    let frames_a = ring.frames(a);
    let scores_a = scores_after(score, ring.heard, frames_a);
    let first = ring.fed(a, scores_a);
    let frames_b = first.frames(b);
    let scores_b = scores_after(score, first.heard, frames_b);
    let frames_all = ring.frames(a + b);
    let scores_all = scores_after(score, ring.heard, frames_all);
    lemma_fed_in_parts(ring, a, b, scores_a, scores_b);
    assert(scores_all =~= scores_a + scores_b) by {
        assert forall|i: int| 0 <= i < scores_all.len() implies scores_all[i] == (scores_a
            + scores_b)[i] by {
            if i < frames_a.len() {
                assert(frames_all.take(i + 1) =~= frames_a.take(i + 1));
            } else {
                let k = i - frames_a.len();
                assert(ring.heard + frames_all.take(i + 1) =~= ring.heard + frames_a
                    + frames_b.take(k + 1));
            }
        }
    }
}

/// Every probability is at most one.
pub open spec fn all_probabilities(probabilities: Seq<u32>) -> bool {
    forall|i: int| 0 <= i < probabilities.len() ==> #[trigger] probabilities[i] <= MICROS_ONE
}

/// Hands one frame to the detector, notes that it has heard it, and appends
/// the frame's probability to the curve.
fn score(
    detector: &mut Detector<DefaultPredictor>,
    probabilities: &mut Vec<u32>,
    heard: &mut Ghost<Seq<Seq<i16>>>,
    frame: &[i16],
)
    requires
        frame@.len() == VAD_FRAME,
        all_probabilities(old(probabilities)@),
    ensures
        final(probabilities)@.len() == old(probabilities)@.len() + 1,
        final(probabilities)@.drop_last() == old(probabilities)@,
        all_probabilities(final(probabilities)@),
        final(heard)@ == old(heard)@.push(frame@),
{
    let bits = detector_predict(detector, frame);
    proof {
        heard@ = heard@.push(frame@);
    }
    probabilities.push(micros_from_bits(bits));
    assert(probabilities@.drop_last() == old(probabilities)@);
}

/// Blends two neighbouring samples: `weight` sixteenths of the way from `lo`
/// to `hi`.
pub fn interpolate(lo: u32, hi: u32, weight: u32) -> (blended: u32)
    requires
        weight <= 16,
    ensures
        blended == blend(lo as int, hi as int, weight as int),
{
    proof {
        lemma_blend_monotone(lo as int, hi as int, weight as int, weight as int);
        assert(0 <= hi * weight <= 0xffff_ffff * 16) by (nonlinear_arith)
            requires
                0 <= hi <= 0xffff_ffff,
                0 <= weight <= 16,
        ;
        assert(0 <= lo * (16 - weight) <= 0xffff_ffff * 16) by (nonlinear_arith)
            requires
                0 <= lo <= 0xffff_ffff,
                0 <= weight <= 16,
        ;
    }
    let sum: u64 = hi as u64 * weight as u64 + lo as u64 * (16 - weight) as u64;
    (sum / 16) as u32
}

/// A voice-activity detector with the curve of what it has heard. `heard`
/// lists the frames handed to the detector since it was made.
pub struct Vad {
    detector: Detector<DefaultPredictor>,
    probabilities: Vec<u32>,
    leftovers: Vec<i16>,
    heard: Ghost<Seq<Seq<i16>>>,
}

impl View for Vad {
    type V = VadView;

    closed spec fn view(&self) -> VadView {
        VadView {
            probabilities: self.probabilities@,
            leftovers: self.leftovers@,
            heard: self.heard@,
        }
    }
}

impl Default for Vad {
    fn default() -> (vad: Vad)
        ensures
            vad@ == VadView::empty(),
    {
        Vad::new()
    }
}

impl Vad {
    /// An empty ring with a fresh detector.
    pub fn new() -> (vad: Vad)
        ensures
            vad@ == VadView::empty(),
            vad@.wf(),
    {
        Vad {
            detector: detector_new(),
            probabilities: Vec::new(),
            leftovers: Vec::new(),
            heard: Ghost(Seq::empty()),
        }
    }

    /// Forgets everything heard so far: the detector starts over and the ring
    /// is empty again.
    pub fn reset(&mut self)
        ensures
            final(self)@ == VadView::empty(),
            final(self)@.wf(),
    {
        self.detector = detector_new();
        self.probabilities.clear();
        self.leftovers.clear();
        self.heard = Ghost(Seq::empty());
    }

    /// Feeds audio to the ring. Every frame that the leftovers and `samples`
    /// complete is scored, in order; what remains is kept for the next call.
    pub fn consume(&mut self, samples: &[i16])
        requires
            old(self)@.wf(),
        ensures
            final(self)@.wf(),
            final(self)@.probabilities.len() == old(self)@.probabilities.len() + old(
                self,
            )@.frames_completed(samples@),
            final(self)@ == old(self)@.fed(
                samples@,
                final(self)@.probabilities.skip(old(self)@.probabilities.len() as int),
            ),
    {
        let ghost before = self@;
        let ghost pending = before.leftovers + samples@;
        let mut pos: usize = 0;
        if self.leftovers.len() > 0 {
            let need: usize = VAD_FRAME - self.leftovers.len();
            if samples.len() < need {
                self.leftovers.extend_from_slice(samples);
                assert(self@.leftovers == pending);
                assert(pending.skip(0) == pending);
                assert(self@.probabilities.skip(before.probabilities.len() as int) == Seq::<
                    u32,
                >::empty());
                assert(before.probabilities + Seq::<u32>::empty() == before.probabilities);
                assert(before.heard + before.frames(samples@) =~= before.heard);
                return ;
            }
            self.leftovers.extend_from_slice(slice_subrange(samples, 0, need));
            assert(self.leftovers@ == pending.subrange(0, VAD_FRAME as int));
            score(
                &mut self.detector,
                &mut self.probabilities,
                &mut self.heard,
                self.leftovers.as_slice(),
            );
            assert(self@.heard.last() == before.frame(samples@, 0));
            self.leftovers.clear();
            pos = need;
        }
        let ghost scored: nat = if before.leftovers.len() > 0 {
            1
        } else {
            0
        };
        let ghost offset: int = before.leftovers.len() as int;
        proof {
            assert(self@.probabilities.subrange(0, before.probabilities.len() as int)
                == before.probabilities);
        }
        let mut done: usize = 0;
        while samples.len() - pos >= VAD_FRAME
            invariant
                pos <= samples@.len(),
                pending == before.leftovers + samples@,
                offset == before.leftovers.len(),
                before.wf(),
                offset + pos == (scored + done) * VAD_FRAME,
                self@.wf(),
                self@.leftovers.len() == 0,
                self@.probabilities.len() == before.probabilities.len() + scored + done,
                self@.probabilities.subrange(0, before.probabilities.len() as int)
                    == before.probabilities,
                self@.heard.len() == before.heard.len() + scored + done,
                forall|j: int| 0 <= j < before.heard.len() ==> self@.heard[j] == before.heard[j],
                forall|j: int|
                    0 <= j < scored + done ==> self@.heard[before.heard.len() + j]
                        == before.frame(samples@, j),
            decreases samples@.len() - pos,
        {
            let ghost previous = self@.probabilities;
            let ghost known = self@.heard;
            score(
                &mut self.detector,
                &mut self.probabilities,
                &mut self.heard,
                slice_subrange(samples, pos, pos + VAD_FRAME),
            );
            proof {
                assert(samples@.subrange(pos as int, pos + VAD_FRAME) =~= before.frame(
                    samples@,
                    scored + done,
                ));
                assert(self@.heard == known.push(before.frame(samples@, scored + done)));
                assert(self@.probabilities.drop_last() == previous);
                assert(self@.probabilities.subrange(0, before.probabilities.len() as int)
                    =~= previous.subrange(0, before.probabilities.len() as int));
            }
            pos += VAD_FRAME;
            done += 1;
        }
        if pos < samples.len() {
            self.leftovers.extend_from_slice(slice_subrange(samples, pos, samples.len()));
        }
        proof {
            let k = scored + done;
            assert(pending.len() == offset + samples@.len());
            assert(pending.len() - k * VAD_FRAME < VAD_FRAME);
            assert(k == pending.len() / VAD_FRAME as nat) by (nonlinear_arith)
                requires
                    0 <= pending.len() - k * 256 < 256,
            ;
            assert(self@.leftovers =~= pending.skip(k * VAD_FRAME));
            assert(before.probabilities + self@.probabilities.skip(
                before.probabilities.len() as int,
            ) =~= self@.probabilities);
            assert(self@.heard =~= before.heard + before.frames(samples@));
        }
    }

    /// The speech probability, in millionths, at `cs` centiseconds after the
    /// start of the ring: zero for an empty ring, the nearest end of the curve
    /// outside it, and the blend of the two neighbouring samples inside it.
    pub fn probability_at_cs(&self, cs: i64) -> (p: u32)
        ensures
            p == self@.probability_at(cs as int),
            self@.probabilities.len() == 0 ==> p == 0,
            self@.probabilities.len() > 0 && cs * 10 / 16 >= self@.probabilities.len() - 1 ==> p
                == self@.probabilities.last(),
    {
        let n: usize = self.probabilities.len();
        if n == 0 {
            return 0;
        }
        if cs <= 0 {
            assert(cs * 10 / 16 >= n - 1 ==> n == 1) by (nonlinear_arith)
                requires
                    cs <= 0,
                    n >= 1,
            ;
            return self.probabilities[0];
        }
        let position: i128 = cs as i128 * 10;
        let lo: i128 = position / 16;
        let weight: i128 = position % 16;
        if lo >= (n - 1) as i128 {
            return self.end_p();
        }
        interpolate(
            self.probabilities[lo as usize],
            self.probabilities[lo as usize + 1],
            weight as u32,
        )
    }

    /// The probabilities of the scored frames, in millionths.
    pub fn probabilities(&self) -> (probabilities: &Vec<u32>)
        ensures
            probabilities@ == self@.probabilities,
    {
        &self.probabilities
    }

    /// The samples after the last scored frame.
    pub fn leftovers(&self) -> (leftovers: &Vec<i16>)
        ensures
            leftovers@ == self@.leftovers,
    {
        &self.leftovers
    }

    /// The last probability, or zero for an empty ring.
    pub fn end_p(&self) -> (p: u32)
        ensures
            p == self@.end_probability(),
    {
        let n: usize = self.probabilities.len();
        if n == 0 {
            0
        } else {
            self.probabilities[n - 1]
        }
    }

    /// The centisecond at which the scored part of the ring ends, capped at
    /// the largest `i64`.
    pub fn end_cs(&self) -> (cs: i64)
        ensures
            cs == if self@.end_cs() <= i64::MAX {
                self@.end_cs()
            } else {
                i64::MAX as int
            },
    {
        let ms: u128 = self.probabilities.len() as u128 * VAD_FRAME_MS as u128;
        let cs: u128 = ms / 10;
        if cs <= i64::MAX as u128 {
            cs as i64
        } else {
            i64::MAX
        }
    }
}

} // verus!
