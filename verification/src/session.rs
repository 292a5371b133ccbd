//! The session: one connection's audio timeline and what is transcribed of it.
//!
//! A session holds the audio that has arrived and not yet been dropped, the
//! absolute time `advance_cs` at which that audio starts, and the
//! voice-activity ring over exactly that audio. The engine runs outside: a
//! pass is planned here (`pass_params`), run by the caller, and its answer is
//! turned into a message here (`transcribe`).

use crate::engine::{
    audio_ctx_for, engine_segment_views, scaled_audio_ctx, EngineSegment, EngineSegmentView,
    PassParams, PassParamsView, SamplingStrategy,
};
use crate::extract::{all_fit, fits_timeline, place_segments, placed_segments};
use crate::protocol::{
    segment_views, string_option_view, token_views, trailing_ids, Segment, SegmentView,
    ServerMessage, ServerMessageView, CS_SAMPLES, FRAME_SIZE_CS, FRAME_SIZE_SAMPLES,
};
use crate::text::{decimal, hundredths, push_decimal, push_hundredths};
use crate::vad::{lemma_fed_in_parts, Vad, VadView, VAD_FRAME};
use vstd::prelude::*;
use vstd::slice::slice_to_vec;
use vstd::string::StringExecFns;

verus! {

/// The most token ids a prompt carries: half of the engine's text context.
pub const MAX_PROMPT_TOKENS: usize = 224;

/// A pass needs at least this many frames of audio.
pub const MIN_FRAMES: u32 = 3;

/// A pass needs at least this many samples of audio.
pub const MIN_SAMPLES: usize = 2880;

/// Tuning that is fixed when the server starts.
#[derive(Clone, Copy, Debug)]
pub struct TranscribeOpts {
    /// Scale the engine's audio context to the length of the audio.
    pub dynamic_audio_ctx: bool,
    /// In millionths.
    pub temperature_inc: Option<i64>,
    /// In millionths.
    pub entropy_thold: Option<i64>,
    /// Replace the engine's state before every pass.
    pub reinit_state: bool,
}

/// Why a session refused an input.
#[derive(Clone, Copy, Debug, PartialEq, Eq, Structural)]
pub enum SessionError {
    /// A packet did not decode to one frame.
    AudioFormat { samples: usize },
    /// An advance asked to drop more audio than there is.
    AdvanceOutOfRange { timestamp_cs: i64 },
    /// The end of the audio would no longer fit a timestamp.
    TimelineExhausted,
    /// The engine reported timestamps that do not fit the timeline.
    EngineTimestamps,
}

impl SessionError {
    /// The text of `message`.
    pub open spec fn message_text(self) -> Seq<char> {
        match self {
            SessionError::AudioFormat { samples } => "decompressed to unexpected len "@ + decimal(
                samples as nat,
            ),
            SessionError::AdvanceOutOfRange { timestamp_cs } => "cannot advance to "@ + hundredths(
                timestamp_cs as int,
            ) + "s"@,
            SessionError::TimelineExhausted => "audio timeline is full"@,
            SessionError::EngineTimestamps => "engine timestamps are out of range"@,
        }
    }

    /// What the client is told.
    pub fn message(&self) -> (text: String)
        ensures
            text@ == self.message_text(),
    {
        match *self {
            SessionError::AudioFormat { samples } => {
                let mut text = String::from_str("decompressed to unexpected len ");
                push_decimal(&mut text, samples as u64);
                text
            },
            SessionError::AdvanceOutOfRange { timestamp_cs } => {
                let mut text = String::from_str("cannot advance to ");
                push_hundredths(&mut text, timestamp_cs);
                text.append("s");
                text
            },
            SessionError::TimelineExhausted => String::from_str("audio timeline is full"),
            SessionError::EngineTimestamps => String::from_str(
                "engine timestamps are out of range",
            ),
        }
    }
}

/// The language a session transcribes in: absent, empty and `"auto"` all ask
/// for detection.
pub open spec fn effective_language(language: Option<Seq<char>>) -> Option<Seq<char>> {
    match language {
        Some(l) => if l.len() == 0 || l == "auto"@ {
            None
        } else {
            Some(l)
        },
        None => None,
    }
}

/// The session as contracts see it.
pub struct SessionView {
    pub language: Option<Seq<char>>,
    pub context: Option<Seq<char>>,
    pub audio: Seq<i16>,
    pub vad: VadView,
    pub prompt_tokens: Seq<i32>,
    pub advance_cs: i64,
    pub transcribed_up_to_cs: i64,
    pub advanced_since: bool,
    pub sampling: SamplingStrategy,
    pub opts: TranscribeOpts,
    pub max_len: i32,
    pub max_tokens: i32,
    pub single_segment: bool,
    pub max_initial_ts: i64,
}

/// The ring has heard exactly `audio`: its detector was handed the whole
/// frames of `audio`, in order and nothing else, there is one probability
/// for each of them, and the rest of `audio` waits as leftovers.
pub open spec fn ring_tracks(vad: VadView, audio: Seq<i16>) -> bool {
    &&& vad.wf()
    &&& vad.probabilities.len() == audio.len() / VAD_FRAME as nat
    &&& vad.leftovers == audio.skip(audio.len() / VAD_FRAME as nat * VAD_FRAME as int)
    &&& vad.heard == VadView::empty().frames(audio)
}

/// The message for the segments kept from a pass: all are complete when the
/// pass is final; otherwise the last one is incomplete.
pub open spec fn transcription(kept: Seq<SegmentView>, is_final: bool, advance_cs: i64)
    -> ServerMessageView {
    if is_final || kept.len() == 0 {
        ServerMessageView::Transcription {
            complete: kept,
            incomplete: None,
            fast_preview: None,
            advance_cs,
        }
    } else {
        ServerMessageView::Transcription {
            complete: kept.drop_last(),
            incomplete: Some(kept.last()),
            fast_preview: None,
            advance_cs,
        }
    }
}

impl SessionView {
    /// A session as it is configured, before any audio.
    pub open spec fn configured(
        language: Option<Seq<char>>,
        context: Option<Seq<char>>,
        max_len: Option<i32>,
        max_tokens: Option<i32>,
        single_segment: Option<bool>,
        max_initial_ts: Option<i64>,
        sampling: SamplingStrategy,
        opts: TranscribeOpts,
    ) -> SessionView {
        SessionView {
            language: effective_language(language),
            context,
            audio: Seq::empty(),
            vad: VadView::empty(),
            prompt_tokens: Seq::empty(),
            advance_cs: 0,
            transcribed_up_to_cs: 0,
            advanced_since: false,
            sampling,
            opts,
            max_len: max_len.unwrap_or(0),
            max_tokens: max_tokens.unwrap_or(0),
            single_segment: single_segment.unwrap_or(false),
            max_initial_ts: max_initial_ts.unwrap_or(0),
        }
    }

    /// Centiseconds of audio in the buffer: `len * 100 / 16000`.
    pub open spec fn buffer_len_cs(self) -> int {
        self.audio.len() as int / CS_SAMPLES as int
    }

    /// The absolute time at which the buffer ends.
    pub open spec fn current_end_cs(self) -> int {
        self.advance_cs + self.buffer_len_cs()
    }

    /// What holds of every session between calls.
    pub open spec fn wf(self) -> bool {
        &&& 0 <= self.advance_cs
        &&& self.audio.len() % CS_SAMPLES as nat == 0
        &&& self.current_end_cs() <= i64::MAX
        &&& 0 <= self.transcribed_up_to_cs <= self.current_end_cs()
        &&& self.prompt_tokens.len() <= MAX_PROMPT_TOKENS
        &&& ring_tracks(self.vad, self.audio)
    }

    /// Whether a frame can still be appended.
    pub open spec fn has_room(self) -> bool {
        self.current_end_cs() + FRAME_SIZE_CS <= i64::MAX
    }

    /// The session with one more frame, given the ring after it heard it.
    pub open spec fn appended(self, frame: Seq<i16>, vad: VadView) -> SessionView {
        SessionView { audio: self.audio + frame, vad, ..self }
    }

    /// An advance to `timestamp_cs` changes nothing: the session is already
    /// there or beyond.
    pub open spec fn advance_is_noop(self, timestamp_cs: i64) -> bool {
        timestamp_cs <= self.advance_cs
    }

    /// An advance to `timestamp_cs` asks for no more audio than there is.
    pub open spec fn advance_in_range(self, timestamp_cs: i64) -> bool {
        (timestamp_cs - self.advance_cs) * CS_SAMPLES <= self.audio.len()
    }

    /// The session moved to `timestamp_cs`, with its new prompt and the ring
    /// over what is left of the audio.
    pub open spec fn advanced(self, timestamp_cs: i64, prompt: Seq<i32>, vad: VadView)
        -> SessionView {
        SessionView {
            audio: self.audio.skip((timestamp_cs - self.advance_cs) * CS_SAMPLES),
            vad,
            prompt_tokens: prompt,
            advance_cs: timestamp_cs,
            advanced_since: true,
            ..self
        }
    }

    /// The session after `advance` was called with `timestamp_cs`.
    pub open spec fn after_advance(self, timestamp_cs: i64, prompt: Seq<i32>, vad: VadView)
        -> SessionView {
        if self.advance_is_noop(timestamp_cs) || !self.advance_in_range(timestamp_cs) {
            self
        } else {
            self.advanced(timestamp_cs, prompt, vad)
        }
    }

    /// Whether a pass is run now: there is enough audio, and the pass is
    /// final, or follows an advance, or has new audio to look at.
    pub open spec fn pass_due(self, is_final: bool) -> bool {
        &&& self.audio.len() >= MIN_SAMPLES
        &&& (is_final || self.advanced_since || self.current_end_cs()
            != self.transcribed_up_to_cs)
    }

    /// The audio context for `samples` samples, if it is scaled at all.
    pub open spec fn audio_ctx(self, samples: nat) -> Option<usize> {
        if self.opts.dynamic_audio_ctx {
            Some(audio_ctx_for(samples) as usize)
        } else {
            None
        }
    }

    /// What the engine is told for a pass over the whole buffer.
    pub open spec fn pass_params(self) -> PassParamsView {
        PassParamsView {
            offset_samples: 0,
            sampling: self.sampling,
            language: self.language,
            initial_prompt: self.context,
            prompt_tokens: self.prompt_tokens,
            max_len: self.max_len,
            max_tokens: self.max_tokens,
            max_initial_ts: self.max_initial_ts,
            single_segment: self.single_segment,
            audio_ctx: self.audio_ctx(self.audio.len()),
            temperature_inc: self.opts.temperature_inc,
            entropy_thold: self.opts.entropy_thold,
            reinit_state: self.opts.reinit_state,
            suppress_nst: true,
            no_context: true,
            token_timestamps: true,
            print_special: false,
            print_progress: false,
            print_realtime: false,
        }
    }

    /// The session after a pass: everything up to the end of the buffer has
    /// been looked at.
    pub open spec fn after_pass(self) -> SessionView {
        SessionView {
            transcribed_up_to_cs: self.current_end_cs() as i64,
            advanced_since: false,
            ..self
        }
    }

    /// The message of a pass over the whole buffer, for the engine's answer.
    pub open spec fn pass_message(
        self,
        is_final: bool,
        engine: Seq<EngineSegmentView>,
        eot_id: i32,
    ) -> ServerMessageView {
        transcription(
            placed_segments(
                engine,
                self.advance_cs as int,
                self.buffer_len_cs(),
                eot_id,
                Some(self.vad),
                false,
            ),
            is_final,
            self.advance_cs,
        )
    }

    /// Whether the engine's answer to a pass over the whole buffer can be
    /// placed on the connection's clock.
    pub open spec fn pass_fits(self, engine: Seq<EngineSegmentView>) -> bool {
        all_fit(engine, self.advance_cs as int, self.buffer_len_cs(), false)
    }

    /// Whether the engine's answer to a pass over the window from `from_cs`
    /// can be placed on the connection's clock.
    pub open spec fn window_fits(self, from_cs: i64, engine: Seq<EngineSegmentView>) -> bool {
        all_fit(engine, from_cs as int, self.window_len_cs(from_cs), true)
    }

    /// Where in the buffer the window from `from_cs` to the end begins.
    pub open spec fn window_offset(self, from_cs: i64) -> int {
        (from_cs - self.advance_cs) * CS_SAMPLES
    }

    /// Centiseconds of audio in the window from `from_cs` to the end.
    pub open spec fn window_len_cs(self, from_cs: i64) -> int {
        (self.audio.len() - self.window_offset(from_cs)) / CS_SAMPLES as int
    }

    /// Whether the window from `from_cs` to the end is transcribed again: it
    /// starts within the buffer and holds enough audio.
    pub open spec fn window_due(self, from_cs: i64) -> bool {
        &&& self.advance_cs <= from_cs
        &&& self.window_offset(from_cs) < self.audio.len()
        &&& self.audio.len() - self.window_offset(from_cs) >= MIN_SAMPLES
    }

    /// What the engine is told for a pass over the window from `from_cs`: as
    /// for the whole buffer, but without prompt tokens, never as a single
    /// segment, with no bound on the first timestamp, and on its own state.
    pub open spec fn window_params(self, from_cs: i64) -> PassParamsView {
        PassParamsView {
            offset_samples: self.window_offset(from_cs) as usize,
            sampling: self.sampling,
            language: self.language,
            initial_prompt: self.context,
            prompt_tokens: Seq::empty(),
            max_len: self.max_len,
            max_tokens: self.max_tokens,
            max_initial_ts: 0,
            single_segment: false,
            audio_ctx: self.audio_ctx((self.audio.len() - self.window_offset(from_cs)) as nat),
            temperature_inc: self.opts.temperature_inc,
            entropy_thold: self.opts.entropy_thold,
            reinit_state: false,
            suppress_nst: true,
            no_context: true,
            token_timestamps: true,
            print_special: true,
            print_progress: false,
            print_realtime: false,
        }
    }

    /// The segments of a pass over the window from `from_cs`. No speech
    /// probability is read for them, and segments without tokens are kept.
    pub open spec fn window_segments(
        self,
        from_cs: i64,
        engine: Seq<EngineSegmentView>,
        eot_id: i32,
    ) -> Seq<SegmentView> {
        placed_segments(engine, from_cs as int, self.window_len_cs(from_cs), eot_id, None, true)
    }
}

/// The prompt that an advance installs: the ids of the last tokens of the
/// segment the client confirmed, or nothing.
pub open spec fn prompt_of(context: Option<Segment>) -> Seq<i32> {
    match context {
        Some(segment) => trailing_ids(segment@.tokens, MAX_PROMPT_TOKENS as nat),
        None => Seq::empty(),
    }
}

/// The absolute start of the audio never moves back.
pub proof fn lemma_advance_monotone(
    session: SessionView,
    timestamp_cs: i64,
    prompt: Seq<i32>,
    vad: VadView,
)
    ensures
        session.after_advance(timestamp_cs, prompt, vad).advance_cs >= session.advance_cs,
{
}

/// Advancing twice to the same time leaves what advancing once leaves,
/// whatever the second call brings as context.
pub proof fn lemma_advance_idempotent(
    session: SessionView,
    timestamp_cs: i64,
    prompt: Seq<i32>,
    vad: VadView,
    prompt_again: Seq<i32>,
    vad_again: VadView,
)
    ensures
        session.after_advance(timestamp_cs, prompt, vad).after_advance(
            timestamp_cs,
            prompt_again,
            vad_again,
        ) == session.after_advance(timestamp_cs, prompt, vad),
{
}

/// An advance in range keeps the end of the buffer where it was.
pub proof fn lemma_advance_keeps_end(
    session: SessionView,
    timestamp_cs: i64,
    prompt: Seq<i32>,
    vad: VadView,
)
    requires
        session.wf(),
    ensures
        session.after_advance(timestamp_cs, prompt, vad).current_end_cs()
            == session.current_end_cs(),
{
    if !session.advance_is_noop(timestamp_cs) && session.advance_in_range(timestamp_cs) {
        let drop = (timestamp_cs - session.advance_cs) * CS_SAMPLES;
        let after = session.advanced(timestamp_cs, prompt, vad);
        assert(after.audio.len() == session.audio.len() - drop);
        assert((session.audio.len() - drop) / 160 == session.audio.len() as int / 160 - (
        timestamp_cs - session.advance_cs)) by (nonlinear_arith)
            requires
                drop == (timestamp_cs - session.advance_cs) * 160,
                session.audio.len() % 160 == 0,
        ;
    }
}

/// Configuring with the language `"auto"` is configuring without a language.
pub proof fn lemma_auto_language_is_absent(
    context: Option<Seq<char>>,
    max_len: Option<i32>,
    max_tokens: Option<i32>,
    single_segment: Option<bool>,
    max_initial_ts: Option<i64>,
    sampling: SamplingStrategy,
    opts: TranscribeOpts,
)
    ensures
        SessionView::configured(
            Some("auto"@),
            context,
            max_len,
            max_tokens,
            single_segment,
            max_initial_ts,
            sampling,
            opts,
        ) == SessionView::configured(
            None,
            context,
            max_len,
            max_tokens,
            single_segment,
            max_initial_ts,
            sampling,
            opts,
        ),
{
}

/// After a pass the session has looked at everything from the start of its
/// audio on: `transcribed_up_to_cs` is not before `advance_cs`.
pub proof fn lemma_pass_covers_advance(session: SessionView)
    requires
        session.wf(),
    ensures
        session.after_pass().wf(),
        session.after_pass().transcribed_up_to_cs >= session.after_pass().advance_cs,
        session.after_pass().transcribed_up_to_cs == session.current_end_cs(),
{
}

/// A copy of an optional string.
fn clone_option_string(s: &Option<String>) -> (copy: Option<String>)
    ensures
        string_option_view(copy) == string_option_view(*s),
{
    match s {
        Some(text) => Some(text.clone()),
        None => None,
    }
}

/// One connection's audio timeline.
pub struct Session {
    language: Option<String>,
    context: Option<String>,
    audio: Vec<i16>,
    vad: Vad,
    prompt_tokens: Vec<i32>,
    advance_cs: i64,
    transcribed_up_to_cs: i64,
    advanced_since: bool,
    sampling: SamplingStrategy,
    opts: TranscribeOpts,
    max_len: i32,
    max_tokens: i32,
    single_segment: bool,
    max_initial_ts: i64,
}

impl View for Session {
    type V = SessionView;

    closed spec fn view(&self) -> SessionView {
        SessionView {
            language: string_option_view(self.language),
            context: string_option_view(self.context),
            audio: self.audio@,
            vad: self.vad@,
            prompt_tokens: self.prompt_tokens@,
            advance_cs: self.advance_cs,
            transcribed_up_to_cs: self.transcribed_up_to_cs,
            advanced_since: self.advanced_since,
            sampling: self.sampling,
            opts: self.opts,
            max_len: self.max_len,
            max_tokens: self.max_tokens,
            single_segment: self.single_segment,
            max_initial_ts: self.max_initial_ts,
        }
    }
}

impl Session {
    /// A session without audio. An absent, empty or `"auto"` language asks
    /// for detection; absent knobs take the engine's defaults.
    pub fn new(
        language: Option<String>,
        context: Option<String>,
        max_len: Option<i32>,
        max_tokens: Option<i32>,
        single_segment: Option<bool>,
        max_initial_ts: Option<i64>,
        sampling_strategy: SamplingStrategy,
        opts: TranscribeOpts,
    ) -> (session: Session)
        ensures
            session@ == SessionView::configured(
                string_option_view(language),
                string_option_view(context),
                max_len,
                max_tokens,
                single_segment,
                max_initial_ts,
                sampling_strategy,
                opts,
            ),
            session@.wf(),
    {
        let language = match language {
            Some(l) => {
                let auto = String::from_str("auto");
                if l.as_str().unicode_len() == 0 || l == auto {
                    None
                } else {
                    Some(l)
                }
            },
            None => None,
        };
        let session = Session {
            language,
            context,
            audio: Vec::new(),
            vad: Vad::new(),
            prompt_tokens: Vec::new(),
            advance_cs: 0,
            transcribed_up_to_cs: 0,
            advanced_since: false,
            sampling: sampling_strategy,
            opts,
            max_len: max_len.unwrap_or(0),
            max_tokens: max_tokens.unwrap_or(0),
            single_segment: single_segment.unwrap_or(false),
            max_initial_ts: max_initial_ts.unwrap_or(0),
        };
        assert(session@.audio.skip(0) == session@.audio);
        assert(VadView::empty().frames(session@.audio) =~= Seq::<Seq<i16>>::empty());
        session
    }

    /// The absolute time before which audio has been dropped.
    pub fn advance_cs(&self) -> (cs: i64)
        ensures
            cs == self@.advance_cs,
    {
        self.advance_cs
    }

    /// The end of the audio that the last pass looked at.
    pub fn transcribed_up_to_cs(&self) -> (cs: i64)
        ensures
            cs == self@.transcribed_up_to_cs,
    {
        self.transcribed_up_to_cs
    }

    /// The audio in the buffer, from `advance_cs` on.
    pub fn audio(&self) -> (samples: &Vec<i16>)
        ensures
            samples@ == self@.audio,
    {
        &self.audio
    }

    /// The ring over the audio in the buffer.
    pub fn vad(&self) -> (ring: &Vad)
        ensures
            ring@ == self@.vad,
    {
        &self.vad
    }

    /// The token ids that the next pass is prompted with.
    pub fn prompt_tokens(&self) -> (ids: &Vec<i32>)
        ensures
            ids@ == self@.prompt_tokens,
    {
        &self.prompt_tokens
    }

    /// Centiseconds of audio in the buffer.
    fn buffer_len_cs(&self) -> (cs: i64)
        requires
            self@.wf(),
        ensures
            cs == self@.buffer_len_cs(),
            0 <= cs,
    {
        (self.audio.len() / 160) as i64
    }

    /// The absolute time at which the buffer ends.
    pub fn current_end_cs(&self) -> (cs: i64)
        requires
            self@.wf(),
        ensures
            cs == self@.current_end_cs(),
    {
        self.advance_cs + self.buffer_len_cs()
    }

    /// Appends what one packet decoded to, and feeds it to the ring. Anything
    /// but one frame of 960 samples is refused and changes nothing.
    pub fn decode_and_append_opus(&mut self, decoded: &[i16]) -> (r: Result<(), SessionError>)
        requires
            old(self)@.wf(),
        ensures
            final(self)@.wf(),
            final(self)@.advance_cs == old(self)@.advance_cs,
            match r {
                Ok(()) => {
                    &&& decoded@.len() == FRAME_SIZE_SAMPLES
                    &&& old(self)@.has_room()
                    &&& final(self)@ == old(self)@.appended(decoded@, final(self)@.vad)
                    &&& final(self)@.vad == old(self)@.vad.fed(
                        decoded@,
                        final(self)@.vad.probabilities.skip(
                            old(self)@.vad.probabilities.len() as int,
                        ),
                    )
                    &&& final(self)@.current_end_cs() == old(self)@.current_end_cs()
                        + FRAME_SIZE_CS
                },
                Err(e) => {
                    &&& final(self)@ == old(self)@
                    &&& if decoded@.len() != FRAME_SIZE_SAMPLES {
                        e == (SessionError::AudioFormat { samples: decoded@.len() as usize })
                    } else {
                        !old(self)@.has_room() && e == SessionError::TimelineExhausted
                    }
                },
            },
    {
        if decoded.len() != 960 {
            return Err(SessionError::AudioFormat { samples: decoded.len() });
        }
        if self.current_end_cs() > i64::MAX - 6 {
            return Err(SessionError::TimelineExhausted);
        }
        let ghost before = self@;
        self.audio.extend_from_slice(decoded);
        assert(self.audio@ == before.audio + decoded@);
        self.vad.consume(decoded);
        proof {
            let n = before.audio.len() as int;
            let lead = n / 256 * 256;
            let total = n + 960;
            let k = (before.vad.leftovers.len() + 960) / 256;
            assert(before.vad.leftovers.len() == n - lead);
            assert(total / 256 == n / 256 + k && total / 256 * 256 == lead + k * 256)
                by (nonlinear_arith)
                requires
                    lead == n / 256 * 256,
                    total == n + 960,
                    k == (n - lead + 960) / 256,
                    0 <= n,
            ;
            assert(self@.vad.leftovers =~= self@.audio.skip(total / 256 * 256));
            assert(total % 160 == 0) by (nonlinear_arith)
                requires
                    total == n + 960,
                    n % 160 == 0,
            ;
            assert(total / 160 == n / 160 + 6) by (nonlinear_arith)
                requires
                    total == n + 960,
            ;
            let none = Seq::<u32>::empty();
            let start = VadView::empty();
            lemma_fed_in_parts(start, before.audio, decoded@, none, none);
            assert(start.leftovers + before.audio =~= before.audio);
            assert(start.fed(before.audio, none).leftovers == before.vad.leftovers);
            assert(start.fed(before.audio, none).frames(decoded@) =~= before.vad.frames(
                decoded@,
            ));
        }
        Ok(())
    }

    /// The ids of the last tokens of a confirmed segment.
    fn prompt_from(context: &Option<Segment>) -> (prompt: Vec<i32>)
        ensures
            prompt@ == prompt_of(*context),
            prompt@.len() <= MAX_PROMPT_TOKENS,
    {
        let mut prompt: Vec<i32> = Vec::new();
        match context {
            Some(segment) => {
                let n: usize = segment.tokens.len();
                let from: usize = if n > MAX_PROMPT_TOKENS {
                    n - MAX_PROMPT_TOKENS
                } else {
                    0
                };
                let mut i: usize = from;
                while i < n
                    invariant
                        n == segment.tokens@.len(),
                        from <= i <= n,
                        prompt@.len() == i - from,
                        forall|k: int|
                            0 <= k < i - from ==> prompt@[k] == token_views(
                                segment.tokens@,
                            )[from + k].id,
                    decreases n - i,
                {
                    prompt.push(segment.tokens[i].id);
                    i += 1;
                }
                assert(prompt@ =~= trailing_ids(segment@.tokens, MAX_PROMPT_TOKENS as nat));
            },
            None => {},
        }
        prompt
    }

    /// Drops the audio before `timestamp`. Nothing happens if the session is
    /// already there; asking for more audio than there is is refused.
    /// Otherwise the prompt is taken from `context`, the ring starts over on
    /// what is left, and the next pass is due whatever it has seen before.
    pub fn advance(&mut self, timestamp: i64, context: Option<Segment>) -> (r: Result<
        (),
        SessionError,
    >)
        requires
            old(self)@.wf(),
        ensures
            final(self)@.wf(),
            final(self)@.advance_cs >= old(self)@.advance_cs,
            final(self)@.current_end_cs() == old(self)@.current_end_cs(),
            final(self)@ == old(self)@.after_advance(
                timestamp,
                prompt_of(context),
                final(self)@.vad,
            ),
            r is Err <==> !old(self)@.advance_is_noop(timestamp) && !old(self)@.advance_in_range(
                timestamp,
            ),
            r matches Err(e) ==> e == (SessionError::AdvanceOutOfRange { timestamp_cs: timestamp }),
    {
        if timestamp <= self.advance_cs {
            return Ok(());
        }
        let drop_cs: i64 = timestamp - self.advance_cs;
        let buffer_cs: i64 = self.buffer_len_cs();
        proof {
            assert(drop_cs > buffer_cs <==> drop_cs * 160 > self.audio@.len()) by (nonlinear_arith)
                requires
                    buffer_cs == self.audio@.len() as int / 160,
                    self.audio@.len() % 160 == 0,
            ;
            lemma_advance_keeps_end(self@, timestamp, prompt_of(context), self@.vad);
        }
        if drop_cs > buffer_cs {
            return Err(SessionError::AdvanceOutOfRange { timestamp_cs: timestamp });
        }
        let ghost before = self@;
        let held: usize = self.audio.len();
        assert(0 < drop_cs && drop_cs * 160 <= held);
        let drop_samples: usize = drop_cs as usize * 160;
        self.prompt_tokens = Session::prompt_from(&context);
        let rest = self.audio.split_off(drop_samples);
        self.audio = rest;
        self.advance_cs = timestamp;
        self.advanced_since = true;
        self.vad.reset();
        self.vad.consume(self.audio.as_slice());
        proof {
            assert(self.audio@ =~= before.audio.skip(drop_samples as int));
            assert(Seq::<i16>::empty() + self.audio@ =~= self.audio@);
            assert(Seq::<u32>::empty() + self@.vad.probabilities.skip(0)
                =~= self@.vad.probabilities);
            let n = self.audio@.len() as int;
            assert(n % 160 == 0 && n / 160 == before.audio.len() as int / 160 - drop_cs)
                by (nonlinear_arith)
                requires
                    n == before.audio.len() - drop_cs * 160,
                    before.audio.len() % 160 == 0,
                    0 <= n,
            ;
        }
        Ok(())
    }

    /// Whether a pass over the whole buffer is run now.
    pub fn pass_due(&self, is_final: bool) -> (due: bool)
        requires
            self@.wf(),
        ensures
            due == self@.pass_due(is_final),
            self@.audio.len() < MIN_SAMPLES ==> !due,
    {
        if self.audio.len() < MIN_SAMPLES {
            return false;
        }
        is_final || self.advanced_since || self.current_end_cs() != self.transcribed_up_to_cs
    }

    /// The audio context for `samples` samples, if it is scaled at all.
    fn audio_ctx(&self, samples: usize) -> (ctx: Option<usize>)
        ensures
            ctx == self@.audio_ctx(samples as nat),
    {
        if self.opts.dynamic_audio_ctx {
            Some(scaled_audio_ctx(samples))
        } else {
            None
        }
    }

    /// Plans a pass over the whole buffer: `None` when none is due, and
    /// otherwise what the engine is to be told.
    pub fn pass_params(&self, is_final: bool) -> (params: Option<PassParams>)
        requires
            self@.wf(),
        ensures
            params is Some <==> self@.pass_due(is_final),
            params matches Some(p) ==> p@ == self@.pass_params(),
            self@.audio.len() < MIN_SAMPLES ==> params is None,
    {
        if !self.pass_due(is_final) {
            return None;
        }
        Some(
            PassParams {
                offset_samples: 0,
                sampling: self.sampling,
                language: clone_option_string(&self.language),
                initial_prompt: clone_option_string(&self.context),
                prompt_tokens: slice_to_vec(self.prompt_tokens.as_slice()),
                max_len: self.max_len,
                max_tokens: self.max_tokens,
                max_initial_ts: self.max_initial_ts,
                single_segment: self.single_segment,
                audio_ctx: self.audio_ctx(self.audio.len()),
                temperature_inc: self.opts.temperature_inc,
                entropy_thold: self.opts.entropy_thold,
                reinit_state: self.opts.reinit_state,
                suppress_nst: true,
                no_context: true,
                token_timestamps: true,
                print_special: false,
                print_progress: false,
                print_realtime: false,
            },
        )
    }

    /// Turns the engine's answer to a pass over the whole buffer into a
    /// message. Nothing is emitted, and nothing changes, when no pass is due;
    /// an answer is refused when a timestamp that would be emitted does not
    /// fit the timeline.
    /// Otherwise every kept segment but the last is complete, the last one is
    /// complete only if the pass is final, and the session has looked at
    /// everything up to the end of its buffer.
    pub fn transcribe(&mut self, is_final: bool, engine: &Vec<EngineSegment>, eot_id: i32) -> (r:
        Result<Option<ServerMessage>, SessionError>)
        requires
            old(self)@.wf(),
        ensures
            final(self)@.wf(),
            final(self)@.advance_cs == old(self)@.advance_cs,
            old(self)@.audio.len() < MIN_SAMPLES ==> r == Ok::<
                Option<ServerMessage>,
                SessionError,
            >(None),
            match r {
                Ok(None) => !old(self)@.pass_due(is_final) && final(self)@ == old(self)@,
                Ok(Some(message)) => {
                    &&& old(self)@.pass_due(is_final)
                    &&& old(self)@.pass_fits(engine_segment_views(engine@))
                    &&& message@ == old(self)@.pass_message(
                        is_final,
                        engine_segment_views(engine@),
                        eot_id,
                    )
                    &&& final(self)@ == old(self)@.after_pass()
                    &&& final(self)@.transcribed_up_to_cs >= final(self)@.advance_cs
                    &&& is_final ==> (message@ matches ServerMessageView::Transcription {
                        incomplete,
                        ..
                    } && incomplete is None)
                },
                Err(e) => {
                    &&& old(self)@.pass_due(is_final)
                    &&& !old(self)@.pass_fits(engine_segment_views(engine@))
                    &&& e == SessionError::EngineTimestamps
                    &&& final(self)@ == old(self)@
                },
            },
    {
        if !self.pass_due(is_final) {
            return Ok(None);
        }
        let buffer_len_cs: i64 = self.buffer_len_cs();
        if !fits_timeline(engine, self.advance_cs, buffer_len_cs, false) {
            return Err(SessionError::EngineTimestamps);
        }
        let current_end_cs: i64 = self.advance_cs + buffer_len_cs;
        let mut kept = place_segments(
            engine,
            self.advance_cs,
            buffer_len_cs,
            eot_id,
            Some(&self.vad),
            false,
        );
        self.transcribed_up_to_cs = current_end_cs;
        self.advanced_since = false;
        let ghost all = segment_views(kept@);
        let incomplete = if is_final {
            None
        } else {
            kept.pop()
        };
        proof {
            if !is_final && all.len() > 0 {
                assert(segment_views(kept@) =~= all.drop_last());
            }
        }
        Ok(
            Some(
                ServerMessage::Transcription {
                    complete: kept,
                    incomplete,
                    fast_preview: None,
                    advance_cs: self.advance_cs,
                },
            ),
        )
    }

    /// Whether the window from `from_cs` to the end is transcribed again.
    pub fn window_due(&self, from_cs: i64) -> (due: bool)
        requires
            self@.wf(),
        ensures
            due == self@.window_due(from_cs),
    {
        if from_cs < self.advance_cs {
            return false;
        }
        let skip_cs: i64 = from_cs - self.advance_cs;
        let buffer_cs: i64 = self.buffer_len_cs();
        proof {
            assert(skip_cs >= buffer_cs <==> skip_cs * 160 >= self.audio@.len())
                by (nonlinear_arith)
                requires
                    buffer_cs == self.audio@.len() as int / 160,
                    self.audio@.len() % 160 == 0,
            ;
        }
        if skip_cs >= buffer_cs {
            return false;
        }
        self.audio.len() - skip_cs as usize * 160 >= MIN_SAMPLES
    }

    /// Plans a second pass over the window from `from_cs` to the end of the
    /// buffer: `None` when the window is not transcribed, and otherwise what
    /// the engine is to be told.
    pub fn window_params(&self, from_cs: i64) -> (params: Option<PassParams>)
        requires
            self@.wf(),
        ensures
            params is Some <==> self@.window_due(from_cs),
            params matches Some(p) ==> p@ == self@.window_params(from_cs),
    {
        if !self.window_due(from_cs) {
            return None;
        }
        let held: usize = self.audio.len();
        assert(self@.window_offset(from_cs) == (from_cs - self.advance_cs) * 160 < held);
        let offset: usize = (from_cs - self.advance_cs) as usize * 160;
        Some(
            PassParams {
                offset_samples: offset,
                sampling: self.sampling,
                language: clone_option_string(&self.language),
                initial_prompt: clone_option_string(&self.context),
                prompt_tokens: Vec::new(),
                max_len: self.max_len,
                max_tokens: self.max_tokens,
                max_initial_ts: 0,
                single_segment: false,
                audio_ctx: self.audio_ctx(self.audio.len() - offset),
                temperature_inc: self.opts.temperature_inc,
                entropy_thold: self.opts.entropy_thold,
                reinit_state: false,
                suppress_nst: true,
                no_context: true,
                token_timestamps: true,
                print_special: true,
                print_progress: false,
                print_realtime: false,
            },
        )
    }

    /// Turns the engine's answer to a pass over the window from `from_cs`
    /// into segments. There are none when the window is not transcribed. No
    /// speech probability is read for these segments: the ring covers the
    /// whole buffer, not the window, so the field is zero. Whether the pass
    /// is final makes no difference to what is returned.
    pub fn transcribe_from(
        &self,
        from_cs: i64,
        is_final: bool,
        engine: &Vec<EngineSegment>,
        eot_id: i32,
    ) -> (r: Result<Vec<Segment>, SessionError>)
        requires
            self@.wf(),
        ensures
            match r {
                Ok(segments) => if self@.window_due(from_cs) {
                    &&& self@.window_fits(from_cs, engine_segment_views(engine@))
                    &&& segment_views(segments@) == self@.window_segments(
                        from_cs,
                        engine_segment_views(engine@),
                        eot_id,
                    )
                } else {
                    segments@.len() == 0
                },
                Err(e) => {
                    &&& self@.window_due(from_cs)
                    &&& !self@.window_fits(from_cs, engine_segment_views(engine@))
                    &&& e == SessionError::EngineTimestamps
                },
            },
    {
        if !self.window_due(from_cs) {
            return Ok(Vec::new());
        }
        let held: usize = self.audio.len();
        assert(self@.window_offset(from_cs) == (from_cs - self.advance_cs) * 160 < held);
        let offset: usize = (from_cs - self.advance_cs) as usize * 160;
        let window_len_cs: i64 = ((self.audio.len() - offset) / 160) as i64;
        proof {
            let n = self.audio@.len() as int;
            assert((n - offset) / 160 == n / 160 - (from_cs - self.advance_cs)) by (nonlinear_arith)
                requires
                    offset == (from_cs - self.advance_cs) * 160,
                    n % 160 == 0,
            ;
        }
        if !fits_timeline(engine, from_cs, window_len_cs, true) {
            return Err(SessionError::EngineTimestamps);
        }
        let segments = place_segments(engine, from_cs, window_len_cs, eot_id, None, true);
        Ok(segments)
    }
}

} // verus!
