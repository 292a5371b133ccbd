//! What the recognition engine is asked and what it answers, as plain values.
//!
//! The engine itself runs outside this crate. A pass is described to it by
//! `PassParams`; its answer comes back as `EngineSegment`s whose timestamps are
//! centiseconds from the start of the audio the pass was given.

use crate::protocol::string_option_view;
use vstd::prelude::*;

verus! {

/// How the engine searches for the best transcript.
#[derive(Clone, Copy, Debug)]
pub enum SamplingStrategy {
    Greedy { best_of: i32 },
    /// `patience` is in millionths.
    BeamSearch { beam_size: i32, patience: i64 },
}

/// One token as the engine reports it.
#[derive(Debug)]
pub struct EngineToken {
    pub text: String,
    pub id: i32,
    /// Start, relative to the audio of the pass.
    pub t0: i64,
    /// End, relative to the audio of the pass.
    pub t1: i64,
    /// Model confidence, in millionths.
    pub probability: u32,
}

/// The mathematical content of an `EngineToken`.
pub struct EngineTokenView {
    pub text: Seq<char>,
    pub id: i32,
    pub t0: i64,
    pub t1: i64,
    pub probability: u32,
}

impl View for EngineToken {
    type V = EngineTokenView;

    open spec fn view(&self) -> EngineTokenView {
        EngineTokenView {
            text: self.text@,
            id: self.id,
            t0: self.t0,
            t1: self.t1,
            probability: self.probability,
        }
    }
}

/// One segment as the engine reports it.
#[derive(Debug)]
pub struct EngineSegment {
    /// Start, relative to the audio of the pass.
    pub start_cs: i64,
    /// End, relative to the audio of the pass.
    pub end_cs: i64,
    /// In millionths.
    pub no_speech_probability: u32,
    pub tokens: Vec<EngineToken>,
}

/// The mathematical content of an `EngineSegment`.
pub struct EngineSegmentView {
    pub start_cs: i64,
    pub end_cs: i64,
    pub no_speech_probability: u32,
    pub tokens: Seq<EngineTokenView>,
}

impl View for EngineSegment {
    type V = EngineSegmentView;

    open spec fn view(&self) -> EngineSegmentView {
        EngineSegmentView {
            start_cs: self.start_cs,
            end_cs: self.end_cs,
            no_speech_probability: self.no_speech_probability,
            tokens: engine_token_views(self.tokens@),
        }
    }
}

/// The views of a run of engine tokens.
pub open spec fn engine_token_views(tokens: Seq<EngineToken>) -> Seq<EngineTokenView> {
    tokens.map_values(|t: EngineToken| t@)
}

/// The views of a run of engine segments.
pub open spec fn engine_segment_views(segments: Seq<EngineSegment>) -> Seq<EngineSegmentView> {
    segments.map_values(|s: EngineSegment| s@)
}

/// Everything the engine is told for one pass.
#[derive(Debug)]
pub struct PassParams {
    /// The pass covers the session's buffer from this sample on.
    pub offset_samples: usize,
    pub sampling: SamplingStrategy,
    /// `None` asks for language detection.
    pub language: Option<String>,
    pub initial_prompt: Option<String>,
    /// Token ids that precede the audio as prompt.
    pub prompt_tokens: Vec<i32>,
    pub max_len: i32,
    pub max_tokens: i32,
    /// Seconds, in millionths.
    pub max_initial_ts: i64,
    pub single_segment: bool,
    /// Size of the audio context, when it is scaled to the audio.
    pub audio_ctx: Option<usize>,
    /// In millionths.
    pub temperature_inc: Option<i64>,
    /// In millionths.
    pub entropy_thold: Option<i64>,
    /// Replace the engine's state before the pass.
    pub reinit_state: bool,
    pub suppress_nst: bool,
    pub no_context: bool,
    pub token_timestamps: bool,
    pub print_special: bool,
    pub print_progress: bool,
    pub print_realtime: bool,
}

/// The mathematical content of `PassParams`.
pub struct PassParamsView {
    pub offset_samples: usize,
    pub sampling: SamplingStrategy,
    pub language: Option<Seq<char>>,
    pub initial_prompt: Option<Seq<char>>,
    pub prompt_tokens: Seq<i32>,
    pub max_len: i32,
    pub max_tokens: i32,
    pub max_initial_ts: i64,
    pub single_segment: bool,
    pub audio_ctx: Option<usize>,
    pub temperature_inc: Option<i64>,
    pub entropy_thold: Option<i64>,
    pub reinit_state: bool,
    pub suppress_nst: bool,
    pub no_context: bool,
    pub token_timestamps: bool,
    pub print_special: bool,
    pub print_progress: bool,
    pub print_realtime: bool,
}

impl View for PassParams {
    type V = PassParamsView;

    open spec fn view(&self) -> PassParamsView {
        PassParamsView {
            offset_samples: self.offset_samples,
            sampling: self.sampling,
            language: string_option_view(self.language),
            initial_prompt: string_option_view(self.initial_prompt),
            prompt_tokens: self.prompt_tokens@,
            max_len: self.max_len,
            max_tokens: self.max_tokens,
            max_initial_ts: self.max_initial_ts,
            single_segment: self.single_segment,
            audio_ctx: self.audio_ctx,
            temperature_inc: self.temperature_inc,
            entropy_thold: self.entropy_thold,
            reinit_state: self.reinit_state,
            suppress_nst: self.suppress_nst,
            no_context: self.no_context,
            token_timestamps: self.token_timestamps,
            print_special: self.print_special,
            print_progress: self.print_progress,
            print_realtime: self.print_realtime,
        }
    }
}

/// The smallest audio context the engine is given.
pub const MIN_AUDIO_CTX: usize = 384;

/// The audio context for `samples` samples of audio: 1500 units per 30 s
/// (480000 samples), rounded up to a multiple of 64, and at least
/// `MIN_AUDIO_CTX`.
pub open spec fn audio_ctx_for(samples: nat) -> nat {
    let needed = samples * 1500 / 480000;
    let aligned = (needed + 63) / 64 * 64;
    if aligned < MIN_AUDIO_CTX {
        MIN_AUDIO_CTX as nat
    } else {
        aligned as nat
    }
}

/// Computes the audio context that fits `samples` samples of audio.
pub fn scaled_audio_ctx(samples: usize) -> (ctx: usize)
    ensures
        ctx == audio_ctx_for(samples as nat),
        ctx % 64 == 0,
        ctx >= MIN_AUDIO_CTX,
{
    // 16000 * 30 / 1500 = 320 samples per unit.
    let needed: usize = samples / 320;
    assert(needed == samples as nat * 1500 / 480000) by (nonlinear_arith)
        requires
            needed == samples / 320,
    ;
    let aligned: usize = (needed + 63) / 64 * 64;
    if aligned < MIN_AUDIO_CTX {
        MIN_AUDIO_CTX
    } else {
        aligned
    }
}

} // verus!
