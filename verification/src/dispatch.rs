//! The connection: what a server does with each thing that happens on one
//! client connection.
//!
//! A `Connection` never touches the transport or the engine. It says what it
//! wants next (`request`), its driver does that and reports what happened
//! (`handle`), and the connection answers with what is to be sent. Between a
//! Transcription and the AdvanceSuggestion that belongs to it the connection
//! sends no other message; the history `sent` records that.

use crate::engine::{engine_segment_views, EngineSegment, PassParams, SamplingStrategy};
use crate::protocol::{
    segment_views, string_option_view, ClientMessage, Segment, SegmentView, ServerMessage,
    ServerMessageView,
};
use crate::reconcile::{advance_suggestion, is_suggestion};
use crate::session::{prompt_of, Session, SessionError, SessionView, TranscribeOpts};
use crate::text::{trimmed, trimmed_copy};
use vstd::prelude::*;
use vstd::string::StringExecFns;

verus! {

/// Where a connection stands in its life.
#[derive(Clone, Copy, Debug, PartialEq, Eq, Structural)]
pub enum Stage {
    AwaitConfigure,
    Running,
    Finalising,
    Closed,
}

/// Where a connection stands in its work.
#[derive(Clone, Copy, Debug, PartialEq, Eq, Structural)]
pub enum Phase {
    /// Nothing has arrived yet.
    AwaitConfigure,
    /// Configured; the driver is setting up its decoder and engine state.
    Opening,
    /// Taking what is already buffered, before a pass.
    Draining,
    /// A pass over the whole buffer is running.
    Passing,
    /// Taking what is already buffered, before the second pass.
    Redraining,
    /// The second pass is running.
    Repassing,
    /// Nothing to do until input arrives.
    Waiting,
    Closed,
}

/// Why a connection was closed.
#[derive(Clone, Copy, Debug, PartialEq, Eq, Structural)]
pub enum ErrorKind {
    ProtocolViolation,
    AuthFailure,
    AudioFormatError,
    AdvanceOutOfRange,
    EngineFailure,
    TransportError,
}

/// What a connection wants its driver to do next.
#[derive(Debug)]
pub enum Request {
    /// Wait for the next message and report it.
    Receive,
    /// Set up the decoder and the engine state for a new session.
    Setup,
    /// Report the next message if one is buffered, `Idle` otherwise.
    Poll,
    /// Wait until a message is buffered, leave it there, and report `Ready`.
    Peek,
    /// Run the engine on the session's audio from `offset_samples` on.
    RunPass(PassParams),
    /// Nothing: the connection is closed.
    Stop,
}

/// What happened.
#[derive(Debug)]
pub enum Event {
    /// A text frame that parsed.
    Control(ClientMessage),
    /// A text frame that did not parse, with the parser's complaint.
    Malformed(String),
    /// A binary frame, decoded.
    Audio(Vec<i16>),
    /// A binary frame that could not be decoded, with the reason.
    Undecodable(String),
    Ping(Vec<u8>),
    Pong,
    /// A raw frame.
    Frame,
    Close,
    /// The transport failed while receiving.
    TransportError(String),
    /// The stream ended.
    Disconnected,
    /// `Poll` found nothing buffered.
    Idle,
    /// `Peek` returned.
    Ready,
    /// `Setup` succeeded.
    SetupDone,
    /// `Setup` failed.
    SetupFailed(String),
    /// `RunPass` succeeded; `eot_id` is the engine's end-of-text marker.
    PassFinished { segments: Vec<EngineSegment>, eot_id: i32 },
    /// `RunPass` failed.
    PassFailed(String),
    /// Something the connection asked to send could not be sent.
    SendFailed,
}

/// What the driver is to put on the wire, in order.
#[derive(Debug)]
pub enum Output {
    Send(ServerMessage),
    Pong(Vec<u8>),
    Close,
}

/// The mathematical content of an `Output`.
pub enum OutputView {
    Send(ServerMessageView),
    Pong(Seq<u8>),
    Close,
}

impl View for Output {
    type V = OutputView;

    open spec fn view(&self) -> OutputView {
        match *self {
            Output::Send(message) => OutputView::Send(message@),
            Output::Pong(data) => OutputView::Pong(data@),
            Output::Close => OutputView::Close,
        }
    }
}

/// The views of a run of outputs.
pub open spec fn output_views(outputs: Seq<Output>) -> Seq<OutputView> {
    outputs.map_values(|o: Output| o@)
}

/// The messages among some outputs, in order.
pub open spec fn messages_of(outputs: Seq<OutputView>) -> Seq<ServerMessageView>
    decreases outputs.len(),
{
    if outputs.len() == 0 {
        Seq::empty()
    } else {
        match outputs.last() {
            OutputView::Send(message) => messages_of(outputs.drop_last()).push(message),
            _ => messages_of(outputs.drop_last()),
        }
    }
}

/// The second pass that a connection has in mind.
pub struct Pending {
    /// Where the window starts: the end of the segment before the last.
    pub from_cs: i64,
    /// The `advance_cs` of the Transcription.
    pub advance_cs: i64,
    /// The last complete segment of the Transcription.
    pub last: Segment,
}

/// The mathematical content of `Pending`.
pub struct PendingView {
    pub from_cs: i64,
    pub advance_cs: i64,
    pub last: SegmentView,
}

impl View for Pending {
    type V = PendingView;

    open spec fn view(&self) -> PendingView {
        PendingView { from_cs: self.from_cs, advance_cs: self.advance_cs, last: self.last@ }
    }
}

/// Why and with what words a connection was closed.
pub struct Failure {
    pub kind: ErrorKind,
    pub message: String,
}

/// The mathematical content of a `Failure`.
pub struct FailureView {
    pub kind: ErrorKind,
    pub message: Seq<char>,
}

impl View for Failure {
    type V = FailureView;

    open spec fn view(&self) -> FailureView {
        FailureView { kind: self.kind, message: self.message@ }
    }
}

/// The connection as contracts see it.
pub struct ConnectionView {
    pub phase: Phase,
    /// The token a client must present, if any.
    pub expected_token: Option<Seq<char>>,
    pub sampling: SamplingStrategy,
    pub opts: TranscribeOpts,
    pub session: Option<SessionView>,
    pub no_preview: bool,
    pub two_stroke: bool,
    /// The client has announced the end of its audio.
    pub finalized: bool,
    pub pending: Option<PendingView>,
    pub failure: Option<FailureView>,
    /// Every message the connection has asked to send, in order.
    pub sent: Seq<ServerMessageView>,
}

/// The message `suggestion` reports the second pass for the Transcription
/// `before`.
pub open spec fn follows(before: ServerMessageView, suggestion: ServerMessageView) -> bool {
    &&& before matches ServerMessageView::Transcription { complete, advance_cs, .. }
    &&& suggestion matches ServerMessageView::AdvanceSuggestion {
        advance_cs: a,
        timestamp_cs,
        original_last_segment,
        ..
    }
    &&& complete.len() >= 2
    &&& original_last_segment == complete.last()
    &&& timestamp_cs == complete.last().end_cs
    &&& a == advance_cs
}

/// Every AdvanceSuggestion in `sent` comes right after its Transcription.
pub open spec fn suggestions_follow(sent: Seq<ServerMessageView>) -> bool {
    forall|k: int|
        0 <= k < sent.len() && (#[trigger] sent[k]) is AdvanceSuggestion ==> k > 0 && follows(
            sent[k - 1],
            sent[k],
        )
}

/// The second pass `pending` is the one for the Transcription `message`.
pub open spec fn reconciles(pending: PendingView, message: ServerMessageView) -> bool {
    &&& message matches ServerMessageView::Transcription { complete, advance_cs, .. }
    &&& complete.len() >= 2
    &&& complete.last() == pending.last
    &&& complete[complete.len() - 2].end_cs == pending.from_cs
    &&& advance_cs == pending.advance_cs
}

/// What is put on the wire when a connection fails: nothing for a transport
/// failure, and otherwise one Error message and a Close.
pub open spec fn failure_outputs(kind: ErrorKind, message: Seq<char>) -> Seq<OutputView> {
    if kind is TransportError {
        Seq::empty()
    } else {
        seq![OutputView::Send(ServerMessageView::Error { message }), OutputView::Close]
    }
}

impl ConnectionView {
    /// The stage of life that the phase of work belongs to.
    pub open spec fn stage(self) -> Stage {
        match self.phase {
            Phase::AwaitConfigure | Phase::Opening => Stage::AwaitConfigure,
            Phase::Closed => Stage::Closed,
            _ => if self.finalized {
                Stage::Finalising
            } else {
                Stage::Running
            },
        }
    }

    /// What holds of every connection between calls.
    pub open spec fn wf(self) -> bool {
        &&& self.session matches Some(session) ==> session.wf()
        &&& self.phase is AwaitConfigure ==> self.session is None
        &&& !(self.phase is AwaitConfigure || self.phase is Closed) ==> self.session is Some
        &&& self.phase is AwaitConfigure || self.phase is Opening ==> !self.finalized
            && self.sent.len() == 0
        &&& self.pending is Some <==> self.phase is Redraining || self.phase is Repassing
        &&& self.pending matches Some(pending) ==> self.sent.len() > 0 && reconciles(
            pending,
            self.sent.last(),
        )
        &&& self.phase is Passing ==> self.session.unwrap().pass_due(self.finalized)
        &&& self.phase is Repassing ==> self.session.unwrap().window_due(
            self.pending.unwrap().from_cs,
        )
        &&& self.failure is Some ==> self.phase is Closed
        &&& suggestions_follow(self.sent)
    }

    /// The connection after it failed.
    pub open spec fn failed(self, kind: ErrorKind, message: Seq<char>) -> ConnectionView {
        ConnectionView {
            phase: Phase::Closed,
            pending: None,
            failure: Some(FailureView { kind, message }),
            sent: self.sent + messages_of(failure_outputs(kind, message)),
            ..self
        }
    }

    /// The connection after its work for this round is done: closed if the
    /// client has announced the end of its audio, waiting otherwise.
    pub open spec fn settled(self) -> ConnectionView {
        ConnectionView {
            phase: if self.finalized {
                Phase::Closed
            } else {
                Phase::Waiting
            },
            pending: None,
            ..self
        }
    }

    /// The connection after its second pass. If the client has announced the
    /// end of its audio meanwhile, the connection takes what has arrived once
    /// more and then runs its last pass; otherwise it waits.
    pub open spec fn resumed(self) -> ConnectionView {
        ConnectionView {
            phase: if self.finalized {
                Phase::Draining
            } else {
                Phase::Waiting
            },
            pending: None,
            ..self
        }
    }

    /// What is put on the wire when the work for this round is done.
    pub open spec fn settled_outputs(self) -> Seq<OutputView> {
        if self.finalized {
            seq![OutputView::Close]
        } else {
            Seq::empty()
        }
    }

    /// The connection with `message` added to what it sent.
    pub open spec fn having_sent(self, message: ServerMessageView) -> ConnectionView {
        ConnectionView { sent: self.sent.push(message), ..self }
    }

    /// The connection with another session in place of its own.
    pub open spec fn with_session(self, session: SessionView) -> ConnectionView {
        ConnectionView { session: Some(session), ..self }
    }

    /// What the first message leads to.
    pub open spec fn first_step(self, event: Event, next: ConnectionView, out: Seq<OutputView>)
        -> bool {
        match event {
            Event::Control(
                ClientMessage::Configure {
                    token,
                    language,
                    context,
                    max_len,
                    max_tokens,
                    single_segment,
                    max_initial_ts,
                    no_preview,
                    two_stroke,
                },
            ) => {
                if self.expected_token is Some && token is None {
                    next == self.failed(ErrorKind::AuthFailure, "missing API token"@) && out
                        == failure_outputs(ErrorKind::AuthFailure, "missing API token"@)
                } else if self.expected_token is Some && string_option_view(token)
                    != self.expected_token {
                    next == self.failed(ErrorKind::AuthFailure, "wrong API token"@) && out
                        == failure_outputs(ErrorKind::AuthFailure, "wrong API token"@)
                } else {
                    &&& out.len() == 0
                    &&& next == ConnectionView {
                        phase: Phase::Opening,
                        session: Some(
                            SessionView::configured(
                                string_option_view(language),
                                string_option_view(context),
                                max_len,
                                max_tokens,
                                single_segment,
                                max_initial_ts,
                                self.sampling,
                                self.opts,
                            ),
                        ),
                        no_preview: no_preview.unwrap_or(false),
                        two_stroke: two_stroke.unwrap_or(false),
                        ..self
                    }
                }
            },
            Event::Control(_) => next == self.failed(
                ErrorKind::ProtocolViolation,
                "first message must be Configure"@,
            ) && out == failure_outputs(
                ErrorKind::ProtocolViolation,
                "first message must be Configure"@,
            ),
            Event::Malformed(why) => next == self.failed(
                ErrorKind::ProtocolViolation,
                "failed to parse Configure : "@ + why@,
            ) && out == failure_outputs(
                ErrorKind::ProtocolViolation,
                "failed to parse Configure : "@ + why@,
            ),
            Event::Audio(_)
            | Event::Undecodable(_)
            | Event::Ping(_)
            | Event::Pong
            | Event::Frame
            | Event::Close => next == self.failed(
                ErrorKind::ProtocolViolation,
                "must send Configure first"@,
            ) && out == failure_outputs(ErrorKind::ProtocolViolation, "must send Configure first"@),
            Event::TransportError(why) => next == self.failed(
                ErrorKind::TransportError,
                "pre-configure error "@ + why@,
            ) && out.len() == 0,
            Event::Disconnected => next == self.failed(
                ErrorKind::TransportError,
                "connection closed before Configure"@,
            ) && out.len() == 0,
            Event::SendFailed => next == self.failed(ErrorKind::TransportError, "send failed"@)
                && out.len() == 0,
            _ => next == self && out.len() == 0,
        }
    }

    /// What the driver's answer to `Setup` leads to.
    pub open spec fn opening_step(self, event: Event, next: ConnectionView, out: Seq<OutputView>)
        -> bool {
        match event {
            Event::SetupDone => next == ConnectionView { phase: Phase::Draining, ..self }
                && out.len() == 0,
            Event::SetupFailed(why) => next == self.failed(
                ErrorKind::EngineFailure,
                "error creating session: "@ + why@,
            ) && out == failure_outputs(
                ErrorKind::EngineFailure,
                "error creating session: "@ + why@,
            ),
            Event::SendFailed => next == self.failed(ErrorKind::TransportError, "send failed"@)
                && out.len() == 0,
            _ => next == self && out.len() == 0,
        }
    }

    /// What a buffered message leads to while the connection takes what has
    /// arrived.
    pub open spec fn buffered_step(self, event: Event, next: ConnectionView, out: Seq<OutputView>)
        -> bool {
        let session = self.session.unwrap();
        match event {
            Event::Control(ClientMessage::Configure { .. }) => next == self.failed(
                ErrorKind::ProtocolViolation,
                "Configure sent after session started"@,
            ) && out == failure_outputs(
                ErrorKind::ProtocolViolation,
                "Configure sent after session started"@,
            ),
            Event::Control(ClientMessage::Advance { timestamp_cs, context }) => {
                if !session.advance_is_noop(timestamp_cs) && !session.advance_in_range(
                    timestamp_cs,
                ) {
                    next == self.failed(
                        ErrorKind::AdvanceOutOfRange,
                        "advance failed: "@ + (SessionError::AdvanceOutOfRange {
                            timestamp_cs,
                        }).message_text(),
                    ) && out == failure_outputs(
                        ErrorKind::AdvanceOutOfRange,
                        "advance failed: "@ + (SessionError::AdvanceOutOfRange {
                            timestamp_cs,
                        }).message_text(),
                    )
                } else {
                    &&& out.len() == 0
                    &&& next.session is Some
                    &&& next == self.with_session(
                        session.after_advance(
                            timestamp_cs,
                            prompt_of(context),
                            next.session.unwrap().vad,
                        ),
                    )
                }
            },
            Event::Control(ClientMessage::EndOfStream) => next == ConnectionView {
                finalized: true,
                ..self
            } && out.len() == 0,
            Event::Malformed(why) => next == self.failed(
                ErrorKind::ProtocolViolation,
                "cannot parse message: "@ + why@,
            ) && out == failure_outputs(
                ErrorKind::ProtocolViolation,
                "cannot parse message: "@ + why@,
            ),
            Event::Audio(samples) => {
                if samples@.len() != 960 {
                    next == self.failed(
                        ErrorKind::AudioFormatError,
                        "error decoding Opus: "@ + (SessionError::AudioFormat {
                            samples: samples@.len() as usize,
                        }).message_text(),
                    ) && out == failure_outputs(
                        ErrorKind::AudioFormatError,
                        "error decoding Opus: "@ + (SessionError::AudioFormat {
                            samples: samples@.len() as usize,
                        }).message_text(),
                    )
                } else if !session.has_room() {
                    next == self.failed(
                        ErrorKind::AudioFormatError,
                        "error decoding Opus: "@ + SessionError::TimelineExhausted.message_text(),
                    ) && out == failure_outputs(
                        ErrorKind::AudioFormatError,
                        "error decoding Opus: "@ + SessionError::TimelineExhausted.message_text(),
                    )
                } else {
                    &&& out.len() == 0
                    &&& next.session is Some
                    &&& next == self.with_session(
                        session.appended(samples@, next.session.unwrap().vad),
                    )
                }
            },
            Event::Undecodable(why) => next == self.failed(
                ErrorKind::AudioFormatError,
                "error decoding Opus: "@ + why@,
            ) && out == failure_outputs(
                ErrorKind::AudioFormatError,
                "error decoding Opus: "@ + why@,
            ),
            Event::Ping(data) => next == self && out == seq![OutputView::Pong(data@)],
            Event::Close | Event::Disconnected => next == self.failed(
                ErrorKind::TransportError,
                "connection closed"@,
            ) && out.len() == 0,
            Event::TransportError(why) => next == self.failed(
                ErrorKind::TransportError,
                "websocket error: "@ + why@,
            ) && out.len() == 0,
            Event::SendFailed => next == self.failed(ErrorKind::TransportError, "send failed"@)
                && out.len() == 0,
            _ => next == self && out.len() == 0,
        }
    }

    /// What the connection does when nothing more is buffered before a pass:
    /// it runs a pass if one is due and previews are wanted or the audio has
    /// ended, and otherwise its work for this round is done.
    pub open spec fn idle_step(self, next: ConnectionView, out: Seq<OutputView>) -> bool {
        if self.no_preview && !self.finalized {
            next == ConnectionView { phase: Phase::Waiting, ..self } && out.len() == 0
        } else if self.session.unwrap().pass_due(self.finalized) {
            next == ConnectionView { phase: Phase::Passing, ..self } && out.len() == 0
        } else {
            next == self.settled() && out == self.settled_outputs()
        }
    }

    /// What the end of a pass over the whole buffer leads to.
    pub open spec fn pass_step(self, event: Event, next: ConnectionView, out: Seq<OutputView>)
        -> bool {
        let session = self.session.unwrap();
        match event {
            Event::PassFinished { segments, eot_id } => {
                if !session.pass_fits(engine_segment_views(segments@)) {
                    next == self.failed(
                        ErrorKind::EngineFailure,
                        "Transcription error: "@ + SessionError::EngineTimestamps.message_text(),
                    ) && out == failure_outputs(
                        ErrorKind::EngineFailure,
                        "Transcription error: "@ + SessionError::EngineTimestamps.message_text(),
                    )
                } else {
                    let message = session.pass_message(
                        self.finalized,
                        engine_segment_views(segments@),
                        eot_id,
                    );
                    let told = self.with_session(session.after_pass()).having_sent(message);
                    if self.two_stroke && !self.finalized && message->complete.len() >= 2 {
                        &&& out == seq![OutputView::Send(message)]
                        &&& next == ConnectionView {
                            phase: Phase::Redraining,
                            pending: Some(
                                PendingView {
                                    from_cs: message->complete[message->complete.len()
                                        - 2].end_cs,
                                    advance_cs: session.advance_cs,
                                    last: message->complete.last(),
                                },
                            ),
                            ..told
                        }
                    } else {
                        &&& out == seq![OutputView::Send(message)] + told.settled_outputs()
                        &&& next == told.settled()
                    }
                }
            },
            Event::PassFailed(why) => next == self.failed(
                ErrorKind::EngineFailure,
                "Transcription error: "@ + why@,
            ) && out == failure_outputs(ErrorKind::EngineFailure, "Transcription error: "@ + why@),
            Event::SendFailed => next == self.failed(ErrorKind::TransportError, "send failed"@)
                && out.len() == 0,
            _ => next == self && out.len() == 0,
        }
    }

    /// What the connection does when nothing more is buffered before the
    /// second pass: it runs the pass if its window holds enough audio, and
    /// otherwise reports a second pass that found nothing. The connection is
    /// never closed here: the last pass is still to come.
    pub open spec fn redrain_idle_step(self, next: ConnectionView, out: Seq<OutputView>) -> bool {
        let pending = self.pending.unwrap();
        if self.session.unwrap().window_due(pending.from_cs) {
            next == ConnectionView { phase: Phase::Repassing, ..self } && out.len() == 0
        } else {
            &&& out.len() == 1
            &&& out[0] matches OutputView::Send(message)
            &&& is_suggestion(message, pending.advance_cs, pending.last, Seq::empty())
            &&& next == self.having_sent(message).resumed()
        }
    }

    /// What the end of the second pass leads to. A second pass that failed is
    /// passed over in silence. The connection is never closed here: the last
    /// pass is still to come.
    pub open spec fn repass_step(self, event: Event, next: ConnectionView, out: Seq<OutputView>)
        -> bool {
        let session = self.session.unwrap();
        let pending = self.pending.unwrap();
        match event {
            Event::PassFinished { segments, eot_id } => {
                if !session.window_fits(pending.from_cs, engine_segment_views(segments@)) {
                    next == self.resumed() && out.len() == 0
                } else {
                    &&& out.len() == 1
                    &&& out[0] matches OutputView::Send(message)
                    &&& is_suggestion(
                        message,
                        pending.advance_cs,
                        pending.last,
                        session.window_segments(
                            pending.from_cs,
                            engine_segment_views(segments@),
                            eot_id,
                        ),
                    )
                    &&& next == self.having_sent(message).resumed()
                }
            },
            Event::PassFailed(_) => next == self.resumed() && out.len() == 0,
            Event::SendFailed => next == self.failed(ErrorKind::TransportError, "send failed"@)
                && out.len() == 0,
            _ => next == self && out.len() == 0,
        }
    }

    /// What happens while the connection waits for input.
    pub open spec fn waiting_step(self, event: Event, next: ConnectionView, out: Seq<OutputView>)
        -> bool {
        match event {
            Event::Ready => next == ConnectionView { phase: Phase::Draining, ..self }
                && out.len() == 0,
            Event::SendFailed => next == self.failed(ErrorKind::TransportError, "send failed"@)
                && out.len() == 0,
            _ => next == self && out.len() == 0,
        }
    }

    /// What `event` leads to: the connection afterwards and what is put on
    /// the wire. An event that answers no request changes nothing.
    pub open spec fn step(self, event: Event, next: ConnectionView, out: Seq<OutputView>) -> bool {
        match self.phase {
            Phase::AwaitConfigure => self.first_step(event, next, out),
            Phase::Opening => self.opening_step(event, next, out),
            Phase::Draining => if event is Idle {
                self.idle_step(next, out)
            } else {
                self.buffered_step(event, next, out)
            },
            Phase::Passing => self.pass_step(event, next, out),
            Phase::Redraining => if event is Idle {
                self.redrain_idle_step(next, out)
            } else {
                self.buffered_step(event, next, out)
            },
            Phase::Repassing => self.repass_step(event, next, out),
            Phase::Waiting => self.waiting_step(event, next, out),
            Phase::Closed => next == self && out.len() == 0,
        }
    }
}

/// Whatever happens on a connection, what it has sent grows by exactly the
/// messages it hands out, and every AdvanceSuggestion in it still comes right
/// after the Transcription it belongs to.
pub proof fn lemma_suggestion_follows_transcription(
    connection: ConnectionView,
    event: Event,
    next: ConnectionView,
    out: Seq<OutputView>,
)
    requires
        connection.wf(),
        connection.step(event, next, out),
    ensures
        next.sent == connection.sent + messages_of(out),
        suggestions_follow(next.sent),
{
    lemma_messages_of_short(out);
    assert(connection.sent + Seq::<ServerMessageView>::empty() =~= connection.sent);
    if next.sent != connection.sent {
        let added = messages_of(out);
        assert(next.sent =~= connection.sent.push(added[0]));
        assert(added[0] is AdvanceSuggestion ==> connection.pending is Some);
    }
}

/// The messages among at most two outputs.
proof fn lemma_messages_of_short(out: Seq<OutputView>)
    ensures
        out.len() == 0 ==> messages_of(out).len() == 0,
        out.len() == 1 ==> messages_of(out) == match out[0] {
            OutputView::Send(message) => seq![message],
            _ => Seq::empty(),
        },
        out.len() == 2 && out[1] is Close ==> messages_of(out) == match out[0] {
            OutputView::Send(message) => seq![message],
            _ => Seq::empty(),
        },
{
    reveal_with_fuel(messages_of, 3);
    if out.len() == 1 {
        assert(out.drop_last().len() == 0);
        match out[0] {
            OutputView::Send(message) => {
                assert(messages_of(out) =~= seq![message]);
            },
            _ => {},
        }
    }
    if out.len() == 2 && out[1] is Close {
        assert(out.drop_last().len() == 1);
        assert(out.drop_last()[0] == out[0]);
        assert(out.drop_last().drop_last().len() == 0);
        match out[0] {
            OutputView::Send(message) => {
                assert(messages_of(out) =~= seq![message]);
            },
            _ => {},
        }
    }
}

/// One client connection.
pub struct Connection {
    phase: Phase,
    expected_token: Option<String>,
    sampling: SamplingStrategy,
    opts: TranscribeOpts,
    session: Option<Session>,
    no_preview: bool,
    two_stroke: bool,
    finalized: bool,
    pending: Option<Pending>,
    failure: Option<Failure>,
    sent: Ghost<Seq<ServerMessageView>>,
}

/// The view of an optional session.
pub open spec fn session_option_view(session: Option<Session>) -> Option<SessionView> {
    match session {
        Some(s) => Some(s@),
        None => None,
    }
}

/// The view of an optional pending pass.
pub open spec fn pending_option_view(pending: Option<Pending>) -> Option<PendingView> {
    match pending {
        Some(p) => Some(p@),
        None => None,
    }
}

/// The view of an optional failure.
pub open spec fn failure_option_view(failure: Option<Failure>) -> Option<FailureView> {
    match failure {
        Some(f) => Some(f@),
        None => None,
    }
}

impl View for Connection {
    type V = ConnectionView;

    closed spec fn view(&self) -> ConnectionView {
        ConnectionView {
            phase: self.phase,
            expected_token: string_option_view(self.expected_token),
            sampling: self.sampling,
            opts: self.opts,
            session: session_option_view(self.session),
            no_preview: self.no_preview,
            two_stroke: self.two_stroke,
            finalized: self.finalized,
            pending: pending_option_view(self.pending),
            failure: failure_option_view(self.failure),
            sent: self.sent@,
        }
    }
}

/// A text made of a fixed beginning and a reason.
fn explain(beginning: &str, reason: &str) -> (text: String)
    ensures
        text@ == beginning@ + reason@,
{
    let mut text = String::from_str(beginning);
    text.append(reason);
    text
}

impl Connection {
    /// A connection on which nothing has happened yet. `token_file` is the
    /// content of the server's token file, if it has one; clients must then
    /// present that content, trimmed.
    pub fn new(token_file: Option<String>, sampling: SamplingStrategy, opts: TranscribeOpts) -> (c:
        Connection)
        ensures
            c@.wf(),
            c@ == (ConnectionView {
                phase: Phase::AwaitConfigure,
                expected_token: match token_file {
                    Some(content) => Some(trimmed(content@)),
                    None => None,
                },
                sampling,
                opts,
                session: None,
                no_preview: false,
                two_stroke: false,
                finalized: false,
                pending: None,
                failure: None,
                sent: Seq::empty(),
            }),
    {
        let expected_token = match token_file {
            Some(content) => Some(trimmed_copy(content.as_str())),
            None => None,
        };
        Connection {
            phase: Phase::AwaitConfigure,
            expected_token,
            sampling,
            opts,
            session: None,
            no_preview: false,
            two_stroke: false,
            finalized: false,
            pending: None,
            failure: None,
            sent: Ghost(Seq::empty()),
        }
    }

    /// Where the connection stands in its work.
    pub fn phase(&self) -> (phase: Phase)
        ensures
            phase == self@.phase,
    {
        self.phase
    }

    /// Where the connection stands in its life.
    pub fn stage(&self) -> (stage: Stage)
        ensures
            stage == self@.stage(),
    {
        match self.phase {
            Phase::AwaitConfigure | Phase::Opening => Stage::AwaitConfigure,
            Phase::Closed => Stage::Closed,
            _ => if self.finalized {
                Stage::Finalising
            } else {
                Stage::Running
            },
        }
    }

    /// Why the connection was closed, if it failed.
    pub fn failure(&self) -> (failure: &Option<Failure>)
        ensures
            failure_option_view(*failure) == self@.failure,
    {
        &self.failure
    }

    /// The session, once the connection is configured.
    pub fn session(&self) -> (session: &Option<Session>)
        ensures
            session_option_view(*session) == self@.session,
    {
        &self.session
    }

    /// What the driver is to do next.
    pub fn request(&self) -> (request: Request)
        requires
            self@.wf(),
        ensures
            match self@.phase {
                Phase::AwaitConfigure => request is Receive,
                Phase::Opening => request is Setup,
                Phase::Draining | Phase::Redraining => request is Poll,
                Phase::Waiting => request is Peek,
                Phase::Passing => request matches Request::RunPass(params) && params@
                    == self@.session.unwrap().pass_params(),
                Phase::Repassing => request matches Request::RunPass(params) && params@
                    == self@.session.unwrap().window_params(self@.pending.unwrap().from_cs),
                Phase::Closed => request is Stop,
            },
    {
        match self.phase {
            Phase::AwaitConfigure => Request::Receive,
            Phase::Opening => Request::Setup,
            Phase::Draining | Phase::Redraining => Request::Poll,
            Phase::Waiting => Request::Peek,
            Phase::Passing => {
                match &self.session {
                    Some(session) => match session.pass_params(self.finalized) {
                        Some(params) => Request::RunPass(params),
                        None => Request::Stop,
                    },
                    None => Request::Stop,
                }
            },
            Phase::Repassing => {
                match (&self.session, &self.pending) {
                    (Some(session), Some(pending)) => match session.window_params(
                        pending.from_cs,
                    ) {
                        Some(params) => Request::RunPass(params),
                        None => Request::Stop,
                    },
                    _ => Request::Stop,
                }
            },
            Phase::Closed => Request::Stop,
        }
    }

    /// Closes the connection for `kind`, with `message` as the reason.
    fn fail(&mut self, kind: ErrorKind, message: String) -> (out: Vec<Output>)
        requires
            old(self)@.wf(),
        ensures
            final(self)@ == old(self)@.failed(kind, message@),
            output_views(out@) == failure_outputs(kind, message@),
            final(self)@.wf(),
    {
        let mut out: Vec<Output> = Vec::new();
        let ghost before = self@;
        self.phase = Phase::Closed;
        self.pending = None;
        proof {
            assert(messages_of(Seq::<OutputView>::empty()) == Seq::<ServerMessageView>::empty());
        }
        match kind {
            ErrorKind::TransportError => {
                self.failure = Some(Failure { kind, message });
                assert(before.sent + Seq::<ServerMessageView>::empty() == before.sent);
                assert(output_views(out@) =~= failure_outputs(kind, message@));
            },
            _ => {
                let told = ServerMessage::Error { message: message.clone() };
                proof {
                    let outputs = failure_outputs(kind, message@);
                    assert(outputs.drop_last() == seq![outputs[0]]);
                    assert(seq![outputs[0]].drop_last() == Seq::<OutputView>::empty());
                    reveal_with_fuel(messages_of, 3);
                    assert(messages_of(outputs) == seq![told@]);
                    self.sent@ = self.sent@.push(told@);
                    assert(before.sent + seq![told@] =~= before.sent.push(told@));
                }
                out.push(Output::Send(told));
                out.push(Output::Close);
                self.failure = Some(Failure { kind, message });
                assert(output_views(out@) =~= failure_outputs(kind, message@));
            },
        }
        out
    }

    /// Ends the work for this round.
    fn settle(&mut self, out: &mut Vec<Output>)
        requires
            old(self)@.settled().wf(),
        ensures
            final(self)@ == old(self)@.settled(),
            output_views(final(out)@) == output_views(old(out)@) + old(self)@.settled_outputs(),
            final(self)@.wf(),
    {
        self.pending = None;
        if self.finalized {
            self.phase = Phase::Closed;
            out.push(Output::Close);
            assert(output_views(out@) =~= output_views(old(out)@) + old(self)@.settled_outputs());
        } else {
            self.phase = Phase::Waiting;
            assert(output_views(out@) =~= output_views(old(out)@) + old(self)@.settled_outputs());
        }
    }

    /// Ends the second pass.
    fn resume(&mut self)
        requires
            old(self)@.resumed().wf(),
        ensures
            final(self)@ == old(self)@.resumed(),
            final(self)@.wf(),
    {
        self.pending = None;
        if self.finalized {
            self.phase = Phase::Draining;
        } else {
            self.phase = Phase::Waiting;
        }
    }

    /// Records that `message` is sent, and hands it out.
    fn send(&mut self, out: &mut Vec<Output>, message: ServerMessage)
        ensures
            final(self)@ == old(self)@.having_sent(message@),
            output_views(final(out)@) == output_views(old(out)@).push(OutputView::Send(message@)),
    {
        proof {
            self.sent@ = self.sent@.push(message@);
        }
        out.push(Output::Send(message));
        assert(output_views(out@) =~= output_views(old(out)@).push(OutputView::Send(message@)));
    }

    /// Handles the first message.
    fn on_first(&mut self, event: Event) -> (out: Vec<Output>)
        requires
            old(self)@.wf(),
            old(self)@.phase is AwaitConfigure,
        ensures
            final(self)@.wf(),
            old(self)@.first_step(event, final(self)@, output_views(out@)),
    {
        match event {
            Event::Control(
                ClientMessage::Configure {
                    token,
                    language,
                    context,
                    max_len,
                    max_tokens,
                    single_segment,
                    max_initial_ts,
                    no_preview,
                    two_stroke,
                },
            ) => {
                let admitted: bool = match &self.expected_token {
                    Some(expected) => match &token {
                        Some(presented) => *presented == *expected,
                        None => false,
                    },
                    None => true,
                };
                if !admitted {
                    if token.is_none() {
                        return self.fail(
                            ErrorKind::AuthFailure,
                            String::from_str("missing API token"),
                        );
                    }
                    return self.fail(ErrorKind::AuthFailure, String::from_str("wrong API token"));
                }
                self.session = Some(
                    Session::new(
                        language,
                        context,
                        max_len,
                        max_tokens,
                        single_segment,
                        max_initial_ts,
                        self.sampling,
                        self.opts,
                    ),
                );
                self.no_preview = no_preview.unwrap_or(false);
                self.two_stroke = two_stroke.unwrap_or(false);
                self.phase = Phase::Opening;
                Vec::new()
            },
            Event::Control(_) => self.fail(
                ErrorKind::ProtocolViolation,
                String::from_str("first message must be Configure"),
            ),
            Event::Malformed(why) => self.fail(
                ErrorKind::ProtocolViolation,
                explain("failed to parse Configure : ", why.as_str()),
            ),
            Event::Audio(_)
            | Event::Undecodable(_)
            | Event::Ping(_)
            | Event::Pong
            | Event::Frame
            | Event::Close => self.fail(
                ErrorKind::ProtocolViolation,
                String::from_str("must send Configure first"),
            ),
            Event::TransportError(why) => self.fail(
                ErrorKind::TransportError,
                explain("pre-configure error ", why.as_str()),
            ),
            Event::Disconnected => self.fail(
                ErrorKind::TransportError,
                String::from_str("connection closed before Configure"),
            ),
            Event::SendFailed => self.fail(
                ErrorKind::TransportError,
                String::from_str("send failed"),
            ),
            _ => Vec::new(),
        }
    }

    /// Handles the driver's answer to `Setup`.
    fn on_opening(&mut self, event: Event) -> (out: Vec<Output>)
        requires
            old(self)@.wf(),
            old(self)@.phase is Opening,
        ensures
            final(self)@.wf(),
            old(self)@.opening_step(event, final(self)@, output_views(out@)),
    {
        match event {
            Event::SetupDone => {
                self.phase = Phase::Draining;
                Vec::new()
            },
            Event::SetupFailed(why) => self.fail(
                ErrorKind::EngineFailure,
                explain("error creating session: ", why.as_str()),
            ),
            Event::SendFailed => self.fail(
                ErrorKind::TransportError,
                String::from_str("send failed"),
            ),
            _ => Vec::new(),
        }
    }

    /// Handles a message that was buffered.
    fn on_buffered(&mut self, event: Event) -> (out: Vec<Output>)
        requires
            old(self)@.wf(),
            old(self)@.phase is Draining || old(self)@.phase is Redraining,
            !(event is Idle),
        ensures
            final(self)@.wf(),
            old(self)@.buffered_step(event, final(self)@, output_views(out@)),
    {
        match event {
            Event::Control(ClientMessage::Configure { .. }) => self.fail(
                ErrorKind::ProtocolViolation,
                String::from_str("Configure sent after session started"),
            ),
            Event::Control(ClientMessage::Advance { timestamp_cs, context }) => {
                let mut session = self.session.take().unwrap();
                let advanced = session.advance(timestamp_cs, context);
                self.session = Some(session);
                match advanced {
                    Ok(()) => Vec::new(),
                    Err(e) => self.fail(
                        ErrorKind::AdvanceOutOfRange,
                        explain("advance failed: ", e.message().as_str()),
                    ),
                }
            },
            Event::Control(ClientMessage::EndOfStream) => {
                self.finalized = true;
                Vec::new()
            },
            Event::Malformed(why) => self.fail(
                ErrorKind::ProtocolViolation,
                explain("cannot parse message: ", why.as_str()),
            ),
            Event::Audio(samples) => {
                let mut session = self.session.take().unwrap();
                let appended = session.decode_and_append_opus(samples.as_slice());
                self.session = Some(session);
                match appended {
                    Ok(()) => Vec::new(),
                    Err(e) => self.fail(
                        ErrorKind::AudioFormatError,
                        explain("error decoding Opus: ", e.message().as_str()),
                    ),
                }
            },
            Event::Undecodable(why) => self.fail(
                ErrorKind::AudioFormatError,
                explain("error decoding Opus: ", why.as_str()),
            ),
            Event::Ping(data) => {
                let mut out: Vec<Output> = Vec::new();
                out.push(Output::Pong(data));
                assert(output_views(out@) =~= seq![OutputView::Pong(data@)]);
                out
            },
            Event::Close | Event::Disconnected => self.fail(
                ErrorKind::TransportError,
                String::from_str("connection closed"),
            ),
            Event::TransportError(why) => self.fail(
                ErrorKind::TransportError,
                explain("websocket error: ", why.as_str()),
            ),
            Event::SendFailed => self.fail(
                ErrorKind::TransportError,
                String::from_str("send failed"),
            ),
            _ => Vec::new(),
        }
    }

    /// Decides what follows when nothing more is buffered before a pass.
    fn on_idle(&mut self) -> (out: Vec<Output>)
        requires
            old(self)@.wf(),
            old(self)@.phase is Draining,
        ensures
            final(self)@.wf(),
            old(self)@.idle_step(final(self)@, output_views(out@)),
    {
        let mut out: Vec<Output> = Vec::new();
        if self.no_preview && !self.finalized {
            self.phase = Phase::Waiting;
            return out;
        }
        let due: bool = match &self.session {
            Some(session) => session.pass_due(self.finalized),
            None => false,
        };
        if due {
            self.phase = Phase::Passing;
        } else {
            self.settle(&mut out);
            assert(Seq::<OutputView>::empty() + old(self)@.settled_outputs()
                =~= old(self)@.settled_outputs());
        }
        out
    }

    /// Handles the end of a pass over the whole buffer.
    fn on_pass(&mut self, event: Event) -> (out: Vec<Output>)
        requires
            old(self)@.wf(),
            old(self)@.phase is Passing,
        ensures
            final(self)@.wf(),
            old(self)@.pass_step(event, final(self)@, output_views(out@)),
    {
        match event {
            Event::PassFinished { segments, eot_id } => {
                let mut session = self.session.take().unwrap();
                let advance_cs: i64 = session.advance_cs();
                let transcribed = session.transcribe(self.finalized, &segments, eot_id);
                self.session = Some(session);
                match transcribed {
                    Ok(Some(message)) => {
                        let mut out: Vec<Output> = Vec::new();
                        let target: Option<Pending> = if self.two_stroke && !self.finalized {
                            Connection::second_pass_for(&message, advance_cs)
                        } else {
                            None
                        };
                        let ghost told = message@;
                        let ghost before = self@;
                        self.send(&mut out, message);
                        proof {
                            assert(output_views(out@) =~= seq![OutputView::Send(told)]);
                            assert forall|k: int|
                                0 <= k < self@.sent.len() && (
                                #[trigger] self@.sent[k]) is AdvanceSuggestion implies k > 0
                                && follows(self@.sent[k - 1], self@.sent[k]) by {
                                assert(before.sent[k] == self@.sent[k]);
                                assert(before.sent[k - 1] == self@.sent[k - 1]);
                            }
                        }
                        match target {
                            Some(pending) => {
                                self.pending = Some(pending);
                                self.phase = Phase::Redraining;
                            },
                            None => {
                                self.settle(&mut out);
                            },
                        }
                        out
                    },
                    Ok(None) => {
                        let mut out: Vec<Output> = Vec::new();
                        self.settle(&mut out);
                        out
                    },
                    Err(e) => self.fail(
                        ErrorKind::EngineFailure,
                        explain("Transcription error: ", e.message().as_str()),
                    ),
                }
            },
            Event::PassFailed(why) => self.fail(
                ErrorKind::EngineFailure,
                explain("Transcription error: ", why.as_str()),
            ),
            Event::SendFailed => self.fail(
                ErrorKind::TransportError,
                String::from_str("send failed"),
            ),
            _ => Vec::new(),
        }
    }

    /// The second pass that belongs to a Transcription with at least two
    /// complete segments: over the audio after the segment before the last.
    fn second_pass_for(message: &ServerMessage, advance_cs: i64) -> (target: Option<Pending>)
        ensures
            match target {
                Some(pending) => {
                    &&& message@ matches ServerMessageView::Transcription { complete, .. }
                    &&& complete.len() >= 2
                    &&& pending@ == (PendingView {
                        from_cs: complete[complete.len() - 2].end_cs,
                        advance_cs,
                        last: complete.last(),
                    })
                },
                None => !(message@ matches ServerMessageView::Transcription { complete, .. }
                    && complete.len() >= 2),
            },
    {
        match message {
            ServerMessage::Transcription { complete, .. } => {
                let n: usize = complete.len();
                if n >= 2 {
                    assert(segment_views(complete@)[n - 2] == complete@[n - 2]@);
                    assert(segment_views(complete@).last() == complete@[n - 1]@);
                    Some(
                        Pending {
                            from_cs: complete[n - 2].end_cs,
                            advance_cs,
                            last: complete[n - 1].duplicate(),
                        },
                    )
                } else {
                    None
                }
            },
            _ => None,
        }
    }

    /// Sends the report of a second pass and ends that pass.
    fn report(&mut self, fresh: Vec<Segment>) -> (out: Vec<Output>)
        requires
            old(self)@.wf(),
            old(self)@.pending is Some,
        ensures
            final(self)@.wf(),
            out@.len() == 1,
            output_views(out@)[0] matches OutputView::Send(message) && is_suggestion(
                message,
                old(self)@.pending.unwrap().advance_cs,
                old(self)@.pending.unwrap().last,
                segment_views(fresh@),
            ) && final(self)@ == old(self)@.having_sent(message).resumed(),
    {
        let mut out: Vec<Output> = Vec::new();
        let pending = self.pending.take().unwrap();
        let ghost before = self@;
        let message = advance_suggestion(pending.advance_cs, pending.last, fresh);
        let ghost told = message@;
        self.send(&mut out, message);
        proof {
            assert(output_views(out@) =~= seq![OutputView::Send(told)]);
            assert(follows(before.sent.last(), told));
            assert forall|k: int|
                0 <= k < self@.sent.len() && (#[trigger] self@.sent[k]) is AdvanceSuggestion implies k
                > 0 && follows(self@.sent[k - 1], self@.sent[k]) by {
                if k < before.sent.len() {
                    assert(before.sent[k] == self@.sent[k]);
                    assert(before.sent[k - 1] == self@.sent[k - 1]);
                } else {
                    assert(self@.sent[k - 1] == before.sent.last());
                }
            }
        }
        self.resume();
        proof {
            let views = output_views(out@);
            assert(views[0] == OutputView::Send(told));
            assert(views.len() == out@.len());
            assert(self@ == old(self)@.having_sent(told).resumed());
        }
        out
    }

    /// Decides what follows when nothing more is buffered before the second
    /// pass.
    fn on_redrain_idle(&mut self) -> (out: Vec<Output>)
        requires
            old(self)@.wf(),
            old(self)@.phase is Redraining,
        ensures
            final(self)@.wf(),
            old(self)@.redrain_idle_step(final(self)@, output_views(out@)),
    {
        let due: bool = match (&self.session, &self.pending) {
            (Some(session), Some(pending)) => session.window_due(pending.from_cs),
            _ => false,
        };
        if due {
            self.phase = Phase::Repassing;
            Vec::new()
        } else {
            let nothing: Vec<Segment> = Vec::new();
            assert(segment_views(nothing@) =~= Seq::<SegmentView>::empty());
            self.report(nothing)
        }
    }

    /// Handles the end of the second pass.
    fn on_repass(&mut self, event: Event) -> (out: Vec<Output>)
        requires
            old(self)@.wf(),
            old(self)@.phase is Repassing,
        ensures
            final(self)@.wf(),
            old(self)@.repass_step(event, final(self)@, output_views(out@)),
    {
        match event {
            Event::PassFinished { segments, eot_id } => {
                let found = match (&self.session, &self.pending) {
                    (Some(session), Some(pending)) => session.transcribe_from(
                        pending.from_cs,
                        self.finalized,
                        &segments,
                        eot_id,
                    ),
                    _ => Err(SessionError::EngineTimestamps),
                };
                match found {
                    Ok(fresh) => self.report(fresh),
                    Err(_) => {
                        self.resume();
                        Vec::new()
                    },
                }
            },
            Event::PassFailed(_) => {
                self.resume();
                Vec::new()
            },
            Event::SendFailed => self.fail(
                ErrorKind::TransportError,
                String::from_str("send failed"),
            ),
            _ => Vec::new(),
        }
    }

    /// Handles what happens while the connection waits.
    fn on_waiting(&mut self, event: Event) -> (out: Vec<Output>)
        requires
            old(self)@.wf(),
            old(self)@.phase is Waiting,
        ensures
            final(self)@.wf(),
            old(self)@.waiting_step(event, final(self)@, output_views(out@)),
    {
        match event {
            Event::Ready => {
                self.phase = Phase::Draining;
                Vec::new()
            },
            Event::SendFailed => self.fail(
                ErrorKind::TransportError,
                String::from_str("send failed"),
            ),
            _ => Vec::new(),
        }
    }

    /// Takes in what happened and answers with what is to be put on the
    /// wire, in order. What the connection asks to send is added to its
    /// history, in which every AdvanceSuggestion comes right after the
    /// Transcription it belongs to.
    pub fn handle(&mut self, event: Event) -> (out: Vec<Output>)
        requires
            old(self)@.wf(),
        ensures
            final(self)@.wf(),
            old(self)@.step(event, final(self)@, output_views(out@)),
    {
        match self.phase {
            Phase::AwaitConfigure => self.on_first(event),
            Phase::Opening => self.on_opening(event),
            Phase::Draining => match event {
                Event::Idle => self.on_idle(),
                _ => self.on_buffered(event),
            },
            Phase::Passing => self.on_pass(event),
            Phase::Redraining => match event {
                Event::Idle => self.on_redrain_idle(),
                _ => self.on_buffered(event),
            },
            Phase::Repassing => self.on_repass(event),
            Phase::Waiting => self.on_waiting(event),
            Phase::Closed => Vec::new(),
        }
    }
}

} // verus!
