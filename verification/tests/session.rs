use transcriber::engine::{EngineSegment, EngineToken, SamplingStrategy};
use transcriber::protocol::{Segment, ServerMessage, Token};
use transcriber::session::{Session, SessionError, TranscribeOpts};

const EOT: i32 = 50257;

fn opts() -> TranscribeOpts {
    TranscribeOpts {
        dynamic_audio_ctx: false,
        temperature_inc: None,
        entropy_thold: None,
        reinit_state: false,
    }
}

fn session_in(language: Option<&str>) -> Session {
    Session::new(
        language.map(|l| l.to_string()),
        Some("names: Ada, Grace".to_string()),
        None,
        None,
        None,
        None,
        SamplingStrategy::Greedy { best_of: 1 },
        opts(),
    )
}

fn frame(seed: i32) -> Vec<i16> {
    let mut samples = Vec::with_capacity(960);
    for i in 0..960 {
        samples.push((((i * 31 + seed * 17) % 3000) - 1500) as i16);
    }
    samples
}

fn with_frames(n: i32) -> Session {
    let mut session = session_in(Some("en"));
    for i in 0..n {
        assert_eq!(session.decode_and_append_opus(&frame(i)), Ok(()));
    }
    session
}

fn word(text: &str, id: i32, t0: i64, t1: i64) -> EngineToken {
    EngineToken { text: text.to_string(), id, t0, t1, probability: 500_000 }
}

fn spoken(start_cs: i64, end_cs: i64, text: &str) -> EngineSegment {
    EngineSegment {
        start_cs,
        end_cs,
        no_speech_probability: 1_000,
        tokens: vec![word(text, 10, start_cs, end_cs)],
    }
}

fn parts(message: ServerMessage) -> (Vec<Segment>, Option<Segment>, i64) {
    match message {
        ServerMessage::Transcription { complete, incomplete, fast_preview, advance_cs } => {
            assert!(fast_preview.is_none());
            (complete, incomplete, advance_cs)
        },
        _ => panic!("not a transcription"),
    }
}

#[test]
fn new_session_starts_at_zero() {
    let session = session_in(None);
    assert_eq!(session.advance_cs(), 0);
    assert_eq!(session.transcribed_up_to_cs(), 0);
    assert_eq!(session.current_end_cs(), 0);
    assert_eq!(session.audio().len(), 0);
    assert_eq!(session.prompt_tokens().len(), 0);
    assert_eq!(session.vad().probabilities().len(), 0);
}

#[test]
fn auto_language_is_no_language() {
    for language in [None, Some("auto"), Some("")] {
        let mut session = session_in(language);
        for i in 0..3 {
            session.decode_and_append_opus(&frame(i)).unwrap();
        }
        let params = session.pass_params(true).unwrap();
        assert_eq!(params.language, None);
    }
    let mut session = session_in(Some("en"));
    for i in 0..3 {
        session.decode_and_append_opus(&frame(i)).unwrap();
    }
    assert_eq!(session.pass_params(true).unwrap().language, Some("en".to_string()));
    let mut session = session_in(Some("Auto"));
    for i in 0..3 {
        session.decode_and_append_opus(&frame(i)).unwrap();
    }
    assert_eq!(session.pass_params(true).unwrap().language, Some("Auto".to_string()));
}

#[test]
fn a_frame_is_six_centiseconds() {
    let mut session = session_in(None);
    assert_eq!(session.decode_and_append_opus(&frame(1)), Ok(()));
    assert_eq!(session.audio().len(), 960);
    assert_eq!(session.current_end_cs(), 6);
    assert_eq!(session.audio().as_slice(), frame(1).as_slice());
    assert_eq!(session.vad().probabilities().len(), 3);
    assert_eq!(session.vad().leftovers().len(), 192);
    session.decode_and_append_opus(&frame(2)).unwrap();
    assert_eq!(session.current_end_cs(), 12);
    assert_eq!(session.vad().probabilities().len(), 7);
    assert_eq!(session.vad().leftovers().len(), 128);
}

#[test]
fn anything_but_one_frame_is_refused() {
    let mut session = with_frames(1);
    let short = vec![0i16; 959];
    assert_eq!(
        session.decode_and_append_opus(&short),
        Err(SessionError::AudioFormat { samples: 959 })
    );
    let long = vec![0i16; 961];
    assert_eq!(
        session.decode_and_append_opus(&long),
        Err(SessionError::AudioFormat { samples: 961 })
    );
    assert_eq!(
        session.decode_and_append_opus(&[]),
        Err(SessionError::AudioFormat { samples: 0 })
    );
    assert_eq!(session.audio().len(), 960);
    assert_eq!(session.vad().probabilities().len(), 3);
}

#[test]
fn error_messages() {
    assert_eq!(
        SessionError::AudioFormat { samples: 959 }.message(),
        "decompressed to unexpected len 959"
    );
    assert_eq!(
        SessionError::AdvanceOutOfRange { timestamp_cs: 121 }.message(),
        "cannot advance to 1.21s"
    );
    assert_eq!(
        SessionError::AdvanceOutOfRange { timestamp_cs: 360000 }.message(),
        "cannot advance to 3600.00s"
    );
    assert_eq!(SessionError::TimelineExhausted.message(), "audio timeline is full");
    assert_eq!(SessionError::EngineTimestamps.message(), "engine timestamps are out of range");
}

#[test]
fn less_than_three_frames_is_not_transcribed() {
    for n in 0..3 {
        let mut session = with_frames(n);
        assert!(!session.pass_due(false));
        assert!(!session.pass_due(true));
        assert!(session.pass_params(true).is_none());
        let answer = vec![spoken(0, 6, " hm")];
        assert!(matches!(session.transcribe(true, &answer, EOT), Ok(None)));
        assert!(matches!(session.transcribe(false, &answer, EOT), Ok(None)));
        assert_eq!(session.transcribed_up_to_cs(), 0);
    }
    let mut session = with_frames(3);
    assert!(session.pass_due(false));
    assert!(session.pass_params(false).is_some());
    assert!(matches!(session.transcribe(false, &Vec::new(), EOT), Ok(Some(_))));
    assert_eq!(session.transcribed_up_to_cs(), 18);
}

#[test]
fn nothing_new_means_no_pass() {
    let mut session = with_frames(5);
    assert!(matches!(session.transcribe(false, &Vec::new(), EOT), Ok(Some(_))));
    assert!(!session.pass_due(false));
    assert!(session.pass_params(false).is_none());
    assert!(matches!(session.transcribe(false, &Vec::new(), EOT), Ok(None)));
    // a final pass is always run
    assert!(session.pass_due(true));
    // new audio makes a pass due
    session.decode_and_append_opus(&frame(9)).unwrap();
    assert!(session.pass_due(false));
}

#[test]
fn a_pass_is_due_after_an_advance() {
    let mut session = with_frames(10);
    session.transcribe(false, &Vec::new(), EOT).unwrap();
    assert!(!session.pass_due(false));
    assert_eq!(session.advance(12, None), Ok(()));
    assert!(session.pass_due(false));
    session.transcribe(false, &Vec::new(), EOT).unwrap();
    assert!(!session.pass_due(false));
}

#[test]
fn last_segment_is_incomplete_until_the_end() {
    let answer = vec![spoken(0, 40, " one"), spoken(40, 80, " two"), spoken(80, 115, " three")];
    let mut session = with_frames(20);
    let (complete, incomplete, advance_cs) =
        parts(session.transcribe(false, &answer, EOT).unwrap().unwrap());
    assert_eq!(advance_cs, 0);
    assert_eq!(complete.len(), 2);
    assert_eq!(complete[0].text, "one");
    assert_eq!(complete[1].text, "two");
    assert_eq!(incomplete.unwrap().text, "three");

    let mut session = with_frames(20);
    let (complete, incomplete, _) =
        parts(session.transcribe(true, &answer, EOT).unwrap().unwrap());
    assert_eq!(complete.len(), 3);
    assert_eq!(complete[2].text, "three");
    assert!(incomplete.is_none());
}

#[test]
fn the_last_kept_segment_is_the_incomplete_one() {
    // the engine's last segment starts beyond the audio and keeps no token
    let answer = vec![spoken(0, 40, " one"), spoken(40, 80, " two"), spoken(120, 150, " ghost")];
    let mut session = with_frames(20);
    let (complete, incomplete, _) =
        parts(session.transcribe(false, &answer, EOT).unwrap().unwrap());
    assert_eq!(complete.len(), 1);
    assert_eq!(complete[0].text, "one");
    assert_eq!(incomplete.unwrap().text, "two");
}

#[test]
fn an_empty_answer_is_an_empty_transcription() {
    let mut session = with_frames(3);
    let (complete, incomplete, advance_cs) =
        parts(session.transcribe(true, &Vec::new(), EOT).unwrap().unwrap());
    assert_eq!(complete.len(), 0);
    assert!(incomplete.is_none());
    assert_eq!(advance_cs, 0);
    let mut session = with_frames(3);
    let (complete, incomplete, _) =
        parts(session.transcribe(false, &Vec::new(), EOT).unwrap().unwrap());
    assert_eq!(complete.len(), 0);
    assert!(incomplete.is_none());
}

#[test]
fn advance_drops_audio() {
    let mut session = with_frames(20);
    let (_, _, advance_cs) =
        parts(session.transcribe(false, &vec![spoken(0, 100, " first")], EOT).unwrap().unwrap());
    assert_eq!(advance_cs, 0);
    assert_eq!(session.transcribed_up_to_cs(), 120);

    let kept: Vec<i16> = session.audio()[16000..].to_vec();
    assert_eq!(session.advance(100, None), Ok(()));
    assert_eq!(session.advance_cs(), 100);
    assert_eq!(session.audio().len(), 20 * 960 - 16000);
    assert_eq!(session.audio().as_slice(), kept.as_slice());
    assert_eq!(session.current_end_cs(), 120);
    assert_eq!(session.vad().probabilities().len(), 3200 / 256);
    assert_eq!(session.vad().leftovers().len(), 3200 % 256);

    for i in 0..10 {
        session.decode_and_append_opus(&frame(100 + i)).unwrap();
    }
    assert_eq!(session.current_end_cs(), 180);
    let answer = vec![spoken(0, 30, " second"), spoken(30, 80, " third")];
    let (complete, incomplete, advance_cs) =
        parts(session.transcribe(false, &answer, EOT).unwrap().unwrap());
    assert_eq!(advance_cs, 100);
    assert_eq!(complete.len(), 1);
    assert_eq!(complete[0].start_cs, 100);
    assert_eq!(complete[0].end_cs, 130);
    assert_eq!(complete[0].tokens[0].start_cs, 100);
    let incomplete = incomplete.unwrap();
    assert_eq!(incomplete.start_cs, 130);
    assert_eq!(incomplete.end_cs, 180);
    assert_eq!(session.transcribed_up_to_cs(), 180);
    assert!(session.transcribed_up_to_cs() >= session.advance_cs());
}

#[test]
fn ring_after_an_advance_is_the_ring_of_what_is_left() {
    let mut session = with_frames(8);
    session.advance(17, None).unwrap();
    let mut fresh = transcriber::vad::Vad::new();
    fresh.consume(session.audio());
    assert_eq!(session.vad().probabilities(), fresh.probabilities());
    assert_eq!(session.vad().leftovers(), fresh.leftovers());
}

#[test]
fn advance_beyond_the_audio_is_refused() {
    let mut session = with_frames(20);
    assert_eq!(
        session.advance(121, None),
        Err(SessionError::AdvanceOutOfRange { timestamp_cs: 121 })
    );
    assert_eq!(session.advance_cs(), 0);
    assert_eq!(session.audio().len(), 20 * 960);
    assert_eq!(
        session.advance(i64::MAX, None),
        Err(SessionError::AdvanceOutOfRange { timestamp_cs: i64::MAX })
    );
    // exactly to the end is fine
    assert_eq!(session.advance(120, None), Ok(()));
    assert_eq!(session.advance_cs(), 120);
    assert_eq!(session.audio().len(), 0);
    assert_eq!(session.current_end_cs(), 120);
}

#[test]
fn advancing_twice_is_advancing_once() {
    let mut once = with_frames(20);
    once.advance(50, None).unwrap();
    let mut twice = with_frames(20);
    twice.advance(50, None).unwrap();
    let context = Segment {
        text: "x".to_string(),
        start_cs: 0,
        end_cs: 50,
        tokens: vec![Token {
            text: "x".to_string(),
            id: 42,
            start_cs: 0,
            end_cs: 50,
            special: false,
            probability: 0,
        }],
        fallback_segmentation: false,
        end_vad_probability: 0,
        no_speech_probability: 0,
    };
    assert_eq!(twice.advance(50, Some(context)), Ok(()));
    assert_eq!(once.advance_cs(), twice.advance_cs());
    assert_eq!(once.audio(), twice.audio());
    assert_eq!(once.prompt_tokens(), twice.prompt_tokens());
    assert_eq!(once.vad().probabilities(), twice.vad().probabilities());
    assert_eq!(once.vad().leftovers(), twice.vad().leftovers());
    assert_eq!(once.pass_due(false), twice.pass_due(false));
}

#[test]
fn advance_never_moves_back() {
    let mut session = with_frames(20);
    let mut before = session.advance_cs();
    for timestamp in [10i64, 5, 10, -3, 40, 39, 1000, 0, 120, 119] {
        let _ = session.advance(timestamp, None);
        assert!(session.advance_cs() >= before);
        before = session.advance_cs();
    }
    assert_eq!(session.advance_cs(), 120);
}

#[test]
fn prompt_is_the_last_224_token_ids() {
    let mut tokens = Vec::new();
    for id in 0..300 {
        tokens.push(Token {
            text: "t".to_string(),
            id,
            start_cs: 0,
            end_cs: 10,
            special: false,
            probability: 0,
        });
    }
    let context = Segment {
        text: "t".to_string(),
        start_cs: 0,
        end_cs: 10,
        tokens,
        fallback_segmentation: false,
        end_vad_probability: 0,
        no_speech_probability: 0,
    };
    let mut session = with_frames(20);
    session.advance(10, Some(context)).unwrap();
    let expected: Vec<i32> = (76..300).collect();
    assert_eq!(session.prompt_tokens(), &expected);
    assert_eq!(session.pass_params(false).unwrap().prompt_tokens, expected);
    // an advance without context clears the prompt
    session.advance(20, None).unwrap();
    assert_eq!(session.prompt_tokens().len(), 0);
}

#[test]
fn short_context_is_taken_whole() {
    let context = Segment {
        text: "ab".to_string(),
        start_cs: 0,
        end_cs: 10,
        tokens: vec![
            Token {
                text: "a".to_string(),
                id: 7,
                start_cs: 0,
                end_cs: 5,
                special: false,
                probability: 0,
            },
            Token {
                text: "b".to_string(),
                id: 50300,
                start_cs: 5,
                end_cs: 10,
                special: true,
                probability: 0,
            },
        ],
        fallback_segmentation: false,
        end_vad_probability: 0,
        no_speech_probability: 0,
    };
    let mut session = with_frames(5);
    session.advance(6, Some(context)).unwrap();
    assert_eq!(session.prompt_tokens(), &vec![7, 50300]);
}

#[test]
fn pass_params_carry_the_configuration() {
    let mut session = Session::new(
        Some("de".to_string()),
        Some("Kontext".to_string()),
        Some(40),
        Some(64),
        Some(true),
        Some(1_500_000),
        SamplingStrategy::BeamSearch { beam_size: 5, patience: -1_000_000 },
        TranscribeOpts {
            dynamic_audio_ctx: true,
            temperature_inc: Some(200_000),
            entropy_thold: Some(2_400_000),
            reinit_state: true,
        },
    );
    for i in 0..3 {
        session.decode_and_append_opus(&frame(i)).unwrap();
    }
    let params = session.pass_params(false).unwrap();
    assert_eq!(params.offset_samples, 0);
    assert!(matches!(
        params.sampling,
        SamplingStrategy::BeamSearch { beam_size: 5, patience: -1_000_000 }
    ));
    assert_eq!(params.language, Some("de".to_string()));
    assert_eq!(params.initial_prompt, Some("Kontext".to_string()));
    assert_eq!(params.prompt_tokens.len(), 0);
    assert_eq!(params.max_len, 40);
    assert_eq!(params.max_tokens, 64);
    assert_eq!(params.max_initial_ts, 1_500_000);
    assert!(params.single_segment);
    assert_eq!(params.audio_ctx, Some(384));
    assert_eq!(params.temperature_inc, Some(200_000));
    assert_eq!(params.entropy_thold, Some(2_400_000));
    assert!(params.reinit_state);
    assert!(params.suppress_nst);
    assert!(params.no_context);
    assert!(params.token_timestamps);
    assert!(!params.print_special);
    assert!(!params.print_progress);
    assert!(!params.print_realtime);
}

#[test]
fn absent_knobs_take_the_defaults() {
    let session = with_frames(3);
    let params = session.pass_params(true).unwrap();
    assert_eq!(params.max_len, 0);
    assert_eq!(params.max_tokens, 0);
    assert_eq!(params.max_initial_ts, 0);
    assert!(!params.single_segment);
    assert_eq!(params.audio_ctx, None);
    assert_eq!(params.temperature_inc, None);
    assert_eq!(params.entropy_thold, None);
    assert!(!params.reinit_state);
    assert_eq!(params.initial_prompt, Some("names: Ada, Grace".to_string()));
}

#[test]
fn timestamps_that_do_not_fit_are_refused() {
    let mut session = with_frames(20);
    session.advance(1, None).unwrap();
    let answer = vec![EngineSegment {
        start_cs: i64::MAX,
        end_cs: 10,
        no_speech_probability: 0,
        tokens: vec![word(" x", 10, 0, 10)],
    }];
    assert_eq!(
        session.transcribe(true, &answer, EOT).err(),
        Some(SessionError::EngineTimestamps)
    );
    assert_eq!(session.transcribed_up_to_cs(), 0);
    assert!(session.pass_due(false));
}

#[test]
fn timestamps_of_what_is_left_out_need_not_fit() {
    let mut session = with_frames(20);
    session.advance(1, None).unwrap();
    // the only token starts beyond the audio, so the segment is left out
    let answer = vec![spoken(0, 30, " one"), spoken(i64::MAX, i64::MAX, " x")];
    let (complete, incomplete, advance_cs) =
        parts(session.transcribe(true, &answer, EOT).unwrap().unwrap());
    assert_eq!(complete.len(), 1);
    assert_eq!(complete[0].start_cs, 1);
    assert!(incomplete.is_none());
    assert_eq!(advance_cs, 1);
}

#[test]
fn window_is_planned_from_the_given_time() {
    let mut session = Session::new(
        Some("en".to_string()),
        None,
        Some(40),
        None,
        Some(true),
        Some(1_000_000),
        SamplingStrategy::Greedy { best_of: 2 },
        TranscribeOpts {
            dynamic_audio_ctx: true,
            temperature_inc: None,
            entropy_thold: None,
            reinit_state: true,
        },
    );
    for i in 0..20 {
        session.decode_and_append_opus(&frame(i)).unwrap();
    }
    session.advance(10, None).unwrap();
    let params = session.window_params(70).unwrap();
    assert_eq!(params.offset_samples, 60 * 160);
    assert_eq!(params.prompt_tokens.len(), 0);
    assert_eq!(params.max_len, 40);
    assert_eq!(params.max_initial_ts, 0);
    assert!(!params.single_segment);
    assert!(params.print_special);
    assert!(params.no_context);
    assert!(params.token_timestamps);
    assert!(params.suppress_nst);
    assert!(!params.reinit_state);
    assert_eq!(params.audio_ctx, Some(384));
    assert_eq!(params.language, Some("en".to_string()));
}

#[test]
fn window_needs_three_frames_within_the_audio() {
    let mut session = with_frames(20);
    session.advance(10, None).unwrap();
    // the audio runs from 10 to 120
    assert!(session.window_due(10));
    assert!(session.window_due(102));
    assert!(!session.window_due(103));
    assert!(!session.window_due(120));
    assert!(!session.window_due(500));
    assert!(!session.window_due(9));
    assert!(!session.window_due(i64::MIN));
    assert!(session.window_params(103).is_none());
    let answer = vec![spoken(0, 5, " x")];
    assert_eq!(session.transcribe_from(103, false, &answer, EOT).unwrap().len(), 0);
    assert_eq!(session.transcribe_from(9, false, &answer, EOT).unwrap().len(), 0);
    assert_eq!(session.transcribe_from(102, false, &answer, EOT).unwrap().len(), 1);
}

#[test]
fn window_segments_count_from_the_window() {
    let session = with_frames(20);
    let answer = vec![
        spoken(0, 30, " tail"),
        EngineSegment { start_cs: 30, end_cs: 40, no_speech_probability: 5, tokens: vec![] },
        spoken(40, 90, " end"),
    ];
    for is_final in [false, true] {
        let segments = session.transcribe_from(60, is_final, &answer, EOT).unwrap();
        assert_eq!(segments.len(), 3);
        assert_eq!(segments[0].start_cs, 60);
        assert_eq!(segments[0].end_cs, 90);
        assert_eq!(segments[0].text, "tail");
        assert_eq!(segments[0].tokens[0].start_cs, 60);
        assert_eq!(segments[0].tokens[0].end_cs, 90);
        assert_eq!(segments[0].end_vad_probability, 0);
        assert_eq!(segments[0].no_speech_probability, 1_000);
        assert_eq!(segments[1].tokens.len(), 0);
        assert_eq!(segments[1].text, "");
        assert_eq!(segments[1].start_cs, 90);
        assert_eq!(segments[2].start_cs, 100);
        // capped at the end of the audio
        assert_eq!(segments[2].end_cs, 120);
        assert_eq!(segments[2].end_vad_probability, 0);
    }
    assert_eq!(session.transcribed_up_to_cs(), 0);
}

#[test]
fn window_timestamps_must_fit() {
    let session = with_frames(20);
    let answer = vec![spoken(i64::MAX - 59, 10, " x")];
    assert_eq!(
        session.transcribe_from(60, false, &answer, EOT).err(),
        Some(SessionError::EngineTimestamps)
    );
}
