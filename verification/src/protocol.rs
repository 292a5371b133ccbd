//! Records exchanged with a client: control messages, segments and tokens.
//!
//! All timestamps are centiseconds on the connection's clock. Probabilities
//! and other fractions are millionths (see `fixed`).

use crate::text::trimmed;
use vstd::prelude::*;

verus! {

/// Length of one audio frame in centiseconds.
pub const FRAME_SIZE_CS: u32 = 6;

/// Samples per second of all audio handled here.
pub const SAMPLE_RATE: u32 = 16000;

/// Samples in one centisecond.
pub const CS_SAMPLES: u32 = 160;

/// Samples in one audio frame.
pub const FRAME_SIZE_SAMPLES: u32 = 960;

/// The facts that tie the four timeline constants together.
pub proof fn lemma_timeline_constants()
    ensures
        CS_SAMPLES * 100 == SAMPLE_RATE,
        FRAME_SIZE_SAMPLES == FRAME_SIZE_CS * CS_SAMPLES,
{
}

/// One recognised token.
#[derive(Clone, Debug)]
pub struct Token {
    pub text: String,
    /// Vocabulary index; only compared against the end-of-text marker.
    pub id: i32,
    pub start_cs: i64,
    pub end_cs: i64,
    /// Set for ids at or above the end-of-text marker. Special tokens are
    /// left out of rendered text but kept for prompting.
    pub special: bool,
    /// Model confidence, in millionths.
    pub probability: u32,
}

/// The mathematical content of a `Token`.
pub struct TokenView {
    pub text: Seq<char>,
    pub id: i32,
    pub start_cs: i64,
    pub end_cs: i64,
    pub special: bool,
    pub probability: u32,
}

impl View for Token {
    type V = TokenView;

    open spec fn view(&self) -> TokenView {
        TokenView {
            text: self.text@,
            id: self.id,
            start_cs: self.start_cs,
            end_cs: self.end_cs,
            special: self.special,
            probability: self.probability,
        }
    }
}

/// A stretch of transcribed speech.
#[derive(Clone, Debug)]
pub struct Segment {
    pub text: String,
    pub start_cs: i64,
    pub end_cs: i64,
    pub tokens: Vec<Token>,
    /// Set when the length is a whole number of seconds, which hints at a
    /// split imposed by the engine rather than found in the audio.
    pub fallback_segmentation: bool,
    /// Speech probability at the segment's end, in millionths.
    pub end_vad_probability: u32,
    /// The engine's no-speech probability, in millionths.
    pub no_speech_probability: u32,
}

/// The mathematical content of a `Segment`.
pub struct SegmentView {
    pub text: Seq<char>,
    pub start_cs: i64,
    pub end_cs: i64,
    pub tokens: Seq<TokenView>,
    pub fallback_segmentation: bool,
    pub end_vad_probability: u32,
    pub no_speech_probability: u32,
}

impl View for Segment {
    type V = SegmentView;

    open spec fn view(&self) -> SegmentView {
        SegmentView {
            text: self.text@,
            start_cs: self.start_cs,
            end_cs: self.end_cs,
            tokens: token_views(self.tokens@),
            fallback_segmentation: self.fallback_segmentation,
            end_vad_probability: self.end_vad_probability,
            no_speech_probability: self.no_speech_probability,
        }
    }
}

/// The views of a run of tokens.
pub open spec fn token_views(tokens: Seq<Token>) -> Seq<TokenView> {
    tokens.map_values(|t: Token| t@)
}

/// The views of a run of segments.
pub open spec fn segment_views(segments: Seq<Segment>) -> Seq<SegmentView> {
    segments.map_values(|s: Segment| s@)
}

/// The view of an optional segment.
pub open spec fn segment_option_view(segment: Option<Segment>) -> Option<SegmentView> {
    match segment {
        Some(s) => Some(s@),
        None => None,
    }
}

/// The view of an optional string.
pub open spec fn string_option_view(s: Option<String>) -> Option<Seq<char>> {
    match s {
        Some(s) => Some(s@),
        None => None,
    }
}

/// The texts of the tokens that are not special, joined in order.
pub open spec fn visible_text(tokens: Seq<TokenView>) -> Seq<char>
    decreases tokens.len(),
{
    if tokens.len() == 0 {
        Seq::empty()
    } else if tokens.last().special {
        visible_text(tokens.drop_last())
    } else {
        visible_text(tokens.drop_last()) + tokens.last().text
    }
}

/// The ids of the last `limit` tokens (of all of them, if there are fewer).
pub open spec fn trailing_ids(tokens: Seq<TokenView>, limit: nat) -> Seq<i32> {
    let from = if tokens.len() > limit {
        tokens.len() - limit
    } else {
        0
    };
    tokens.skip(from).map_values(|t: TokenView| t.id)
}

/// Whether a length in centiseconds is a whole number of seconds.
pub open spec fn whole_seconds(length_cs: int) -> bool {
    length_cs % 100 == 0
}

impl SegmentView {
    /// The text a segment must carry for its tokens.
    pub open spec fn rendered_text(self) -> Seq<char> {
        trimmed(visible_text(self.tokens))
    }

    /// Tokens come in order of their start.
    pub open spec fn tokens_ordered(self) -> bool {
        forall|i: int, j: int|
            0 <= i <= j < self.tokens.len() ==> self.tokens[i].start_cs <= self.tokens[j].start_cs
    }

    /// Every token lies within the segment.
    pub open spec fn tokens_within(self) -> bool {
        forall|i: int|
            0 <= i < self.tokens.len() ==> self.start_cs <= (#[trigger] self.tokens[i]).start_cs
                && self.tokens[i].end_cs <= self.end_cs
    }

    /// What holds of every segment, whatever produced its timestamps: the
    /// text renders the tokens and the flag agrees with the length.
    pub open spec fn consistent(self) -> bool {
        &&& self.text == self.rendered_text()
        &&& self.fallback_segmentation == whole_seconds(self.end_cs - self.start_cs)
    }
}

/// A message from the client.
#[allow(inconsistent_fields)]
#[derive(Clone, Debug)]
pub enum ClientMessage {
    /// Opens the session; must come first, and only once.
    Configure {
        token: Option<String>,
        /// Absent or `"auto"` asks for language detection.
        language: Option<String>,
        /// Free text handed to the engine as its initial prompt.
        context: Option<String>,
        max_len: Option<i32>,
        max_tokens: Option<i32>,
        single_segment: Option<bool>,
        /// Seconds, in millionths.
        max_initial_ts: Option<i64>,
        no_preview: Option<bool>,
        two_stroke: Option<bool>,
    },
    /// Forget the audio before `timestamp_cs`. The tokens of `context` seed
    /// the prompt of the next pass.
    Advance { timestamp_cs: i64, context: Option<Segment> },
    /// No more audio will come: run the final pass.
    EndOfStream,
}

/// A message to the client.
#[allow(inconsistent_fields)]
#[derive(Clone, Debug)]
pub enum ServerMessage {
    Transcription {
        complete: Vec<Segment>,
        incomplete: Option<Segment>,
        fast_preview: Option<Segment>,
        advance_cs: i64,
    },
    AdvanceSuggestion {
        advance_cs: i64,
        /// End of the segment that was transcribed again.
        timestamp_cs: i64,
        segments: Vec<Segment>,
        original_last_segment: Segment,
        exact_match: bool,
        n_matching_tokens: usize,
    },
    Error { message: String },
}

/// The mathematical content of a `ServerMessage`.
pub enum ServerMessageView {
    Transcription {
        complete: Seq<SegmentView>,
        incomplete: Option<SegmentView>,
        fast_preview: Option<SegmentView>,
        advance_cs: i64,
    },
    AdvanceSuggestion {
        advance_cs: i64,
        timestamp_cs: i64,
        segments: Seq<SegmentView>,
        original_last_segment: SegmentView,
        exact_match: bool,
        n_matching_tokens: usize,
    },
    Error { message: Seq<char> },
}

impl View for ServerMessage {
    type V = ServerMessageView;

    open spec fn view(&self) -> ServerMessageView {
        match *self {
            ServerMessage::Transcription { complete, incomplete, fast_preview, advance_cs } => {
                ServerMessageView::Transcription {
                    complete: segment_views(complete@),
                    incomplete: segment_option_view(incomplete),
                    fast_preview: segment_option_view(fast_preview),
                    advance_cs,
                }
            },
            ServerMessage::AdvanceSuggestion {
                advance_cs,
                timestamp_cs,
                segments,
                original_last_segment,
                exact_match,
                n_matching_tokens,
            } => ServerMessageView::AdvanceSuggestion {
                advance_cs,
                timestamp_cs,
                segments: segment_views(segments@),
                original_last_segment: original_last_segment@,
                exact_match,
                n_matching_tokens,
            },
            ServerMessage::Error { message } => ServerMessageView::Error { message: message@ },
        }
    }
}

impl Token {
    /// A copy with the same content.
    pub fn duplicate(&self) -> (copy: Token)
        ensures
            copy@ == self@,
    {
        Token {
            text: self.text.clone(),
            id: self.id,
            start_cs: self.start_cs,
            end_cs: self.end_cs,
            special: self.special,
            probability: self.probability,
        }
    }
}

impl Segment {
    /// A copy with the same content.
    pub fn duplicate(&self) -> (copy: Segment)
        ensures
            copy@ == self@,
    {
        let mut tokens: Vec<Token> = Vec::new();
        let n: usize = self.tokens.len();
        let mut i: usize = 0;
        while i < n
            invariant
                n == self.tokens@.len(),
                i <= n,
                token_views(tokens@) == token_views(self.tokens@).take(i as int),
            decreases n - i,
        {
            let token = self.tokens[i].duplicate();
            let ghost before = tokens@;
            tokens.push(token);
            assert(token_views(tokens@) =~= token_views(before).push(token@));
            assert(token_views(self.tokens@).take(i as int + 1) =~= token_views(
                self.tokens@,
            ).take(i as int).push(self.tokens@[i as int]@));
            i += 1;
        }
        assert(token_views(self.tokens@).take(n as int) == token_views(self.tokens@));
        Segment {
            text: self.text.clone(),
            start_cs: self.start_cs,
            end_cs: self.end_cs,
            tokens,
            fallback_segmentation: self.fallback_segmentation,
            end_vad_probability: self.end_vad_probability,
            no_speech_probability: self.no_speech_probability,
        }
    }
}

} // verus!
