//! From the engine's answer to the segments a client sees.
//!
//! The engine's timestamps count from the start of the audio it was given.
//! They are moved onto the connection's clock here, and only here: tokens that
//! start beyond the audio are dropped, segment ends are capped at the end of
//! the audio, and text and flags are derived from what is kept.

use crate::engine::{
    engine_segment_views, engine_token_views, EngineSegment, EngineSegmentView, EngineToken,
    EngineTokenView,
};
use crate::protocol::{
    segment_views, token_views, visible_text, whole_seconds, Segment, SegmentView, Token,
    TokenView,
};
use crate::text::{trimmed, trimmed_copy};
use crate::vad::{Vad, VadView};
use vstd::prelude::*;
use vstd::string::StringExecFns;

verus! {

/// The tokens that start before `limit_cs`.
pub open spec fn starts_before(limit_cs: int) -> spec_fn(EngineTokenView) -> bool {
    |t: EngineTokenView| t.t0 < limit_cs
}

/// An engine token moved by `base_cs` onto the connection's clock. A token is
/// special when its id is at or above the end-of-text marker `eot_id`.
pub open spec fn rebased_token(base_cs: int, eot_id: i32) -> spec_fn(EngineTokenView) -> TokenView {
    |t: EngineTokenView|
        TokenView {
            text: t.text,
            id: t.id,
            start_cs: (t.t0 + base_cs) as i64,
            end_cs: (t.t1 + base_cs) as i64,
            special: t.id >= eot_id,
            probability: t.probability,
        }
}

/// The tokens of a segment that are kept, on the connection's clock: those
/// that start within the `buffer_len_cs` centiseconds of audio.
pub open spec fn kept_tokens(
    tokens: Seq<EngineTokenView>,
    base_cs: int,
    buffer_len_cs: int,
    eot_id: i32,
) -> Seq<TokenView> {
    tokens.filter(starts_before(buffer_len_cs)).map_values(rebased_token(base_cs, eot_id))
}

/// Where a segment ends relative to the audio: at its own end, or at the end
/// of the audio if that comes first.
pub open spec fn capped_end(segment: EngineSegmentView, buffer_len_cs: int) -> int {
    if segment.end_cs < buffer_len_cs {
        segment.end_cs as int
    } else {
        buffer_len_cs
    }
}

/// The speech probability reported for a segment that ends `end_cs` into the
/// audio: read from the ring when there is one, zero otherwise.
pub open spec fn end_probability(vad: Option<VadView>, end_cs: int) -> u32 {
    match vad {
        Some(ring) => ring.probability_at(end_cs) as u32,
        None => 0,
    }
}

/// The segment a client sees for an engine segment of a pass over
/// `buffer_len_cs` centiseconds of audio that starts at `base_cs`.
pub open spec fn placed_segment(
    segment: EngineSegmentView,
    base_cs: int,
    buffer_len_cs: int,
    eot_id: i32,
    vad: Option<VadView>,
) -> SegmentView {
    let tokens = kept_tokens(segment.tokens, base_cs, buffer_len_cs, eot_id);
    let start_cs = segment.start_cs + base_cs;
    let end_cs = capped_end(segment, buffer_len_cs) + base_cs;
    SegmentView {
        text: trimmed(visible_text(tokens)),
        start_cs: start_cs as i64,
        end_cs: end_cs as i64,
        tokens,
        fallback_segmentation: whole_seconds(end_cs - start_cs),
        end_vad_probability: end_probability(vad, capped_end(segment, buffer_len_cs)),
        no_speech_probability: segment.no_speech_probability,
    }
}

/// `placed_segment` as a function of the engine segment alone.
pub open spec fn placing(base_cs: int, buffer_len_cs: int, eot_id: i32, vad: Option<VadView>)
    -> spec_fn(EngineSegmentView) -> SegmentView {
    |s: EngineSegmentView| placed_segment(s, base_cs, buffer_len_cs, eot_id, vad)
}

/// The segments that kept at least one token.
pub open spec fn has_tokens() -> spec_fn(SegmentView) -> bool {
    |s: SegmentView| s.tokens.len() > 0
}

/// The segments a client sees for a whole pass. Unless `keep_empty` is set,
/// segments that kept no token are left out.
pub open spec fn placed_segments(
    engine: Seq<EngineSegmentView>,
    base_cs: int,
    buffer_len_cs: int,
    eot_id: i32,
    vad: Option<VadView>,
    keep_empty: bool,
) -> Seq<SegmentView> {
    let all = engine.map_values(placing(base_cs, buffer_len_cs, eot_id, vad));
    if keep_empty {
        all
    } else {
        all.filter(has_tokens())
    }
}

/// Whether some token of `segment` starts within the audio, so that the
/// segment keeps a token.
pub open spec fn keeps_a_token(segment: EngineSegmentView, buffer_len_cs: int) -> bool {
    segment.tokens.filter(starts_before(buffer_len_cs)).len() > 0
}

/// Whether the start of `segment` and the ends of the tokens it keeps stay
/// within `i64` when moved by `base_cs`.
pub open spec fn segment_movable(segment: EngineSegmentView, base_cs: int, buffer_len_cs: int)
    -> bool {
    &&& segment.start_cs + base_cs <= i64::MAX
    &&& forall|i: int|
        0 <= i < segment.tokens.len() && (#[trigger] segment.tokens[i]).t0 < buffer_len_cs
            ==> segment.tokens[i].t1 + base_cs <= i64::MAX
}

/// Whether `segment` can be placed where it has to be: a segment that is
/// left out has nothing to fit, and neither has a token that is dropped.
pub open spec fn segment_fits(
    segment: EngineSegmentView,
    base_cs: int,
    buffer_len_cs: int,
    keep_empty: bool,
) -> bool {
    keep_empty || keeps_a_token(segment, buffer_len_cs) ==> segment_movable(
        segment,
        base_cs,
        buffer_len_cs,
    )
}

/// Whether every segment of an engine answer can be placed where it has to
/// be.
pub open spec fn all_fit(
    engine: Seq<EngineSegmentView>,
    base_cs: int,
    buffer_len_cs: int,
    keep_empty: bool,
) -> bool {
    forall|i: int|
        0 <= i < engine.len() ==> segment_fits(
            #[trigger] engine[i],
            base_cs,
            buffer_len_cs,
            keep_empty,
        )
}

/// What the engine owes for the timing guarantees of a placed segment: the
/// segment starts at or after the start of the audio, does not end before it
/// starts, and does not start beyond the audio.
pub open spec fn segment_sane(segment: EngineSegmentView, buffer_len_cs: int) -> bool {
    0 <= segment.start_cs <= segment.end_cs && segment.start_cs <= buffer_len_cs
}

/// What the engine owes for the timing guarantees of the tokens of a placed
/// segment: the segment ends within the audio, and its tokens lie within the
/// segment, in order of their start.
pub open spec fn tokens_sane(segment: EngineSegmentView, buffer_len_cs: int) -> bool {
    &&& segment.end_cs <= buffer_len_cs
    &&& forall|i: int|
        0 <= i < segment.tokens.len() ==> segment.start_cs <= (#[trigger] segment.tokens[i]).t0
            && segment.tokens[i].t1 <= segment.end_cs
    &&& forall|i: int, j: int|
        0 <= i <= j < segment.tokens.len() ==> segment.tokens[i].t0 <= segment.tokens[j].t0
}

/// A placed segment renders its own tokens and its flag agrees with its
/// length.
pub proof fn lemma_placed_segment_consistent(
    segment: EngineSegmentView,
    base_cs: int,
    buffer_len_cs: int,
    eot_id: i32,
    vad: Option<VadView>,
)
    requires
        0 <= base_cs,
        0 <= buffer_len_cs,
        base_cs + buffer_len_cs <= i64::MAX,
        segment_movable(segment, base_cs, buffer_len_cs),
    ensures
        placed_segment(segment, base_cs, buffer_len_cs, eot_id, vad).consistent(),
{
}

/// A placed segment never ends after the audio does. If the engine's segment
/// is sane, it also starts no earlier than the audio and does not end before
/// it starts.
pub proof fn lemma_placed_segment_bounds(
    segment: EngineSegmentView,
    base_cs: int,
    buffer_len_cs: int,
    eot_id: i32,
    vad: Option<VadView>,
)
    requires
        0 <= base_cs,
        0 <= buffer_len_cs,
        base_cs + buffer_len_cs <= i64::MAX,
    ensures
        placed_segment(segment, base_cs, buffer_len_cs, eot_id, vad).end_cs <= base_cs
            + buffer_len_cs,
        segment_sane(segment, buffer_len_cs) ==> base_cs <= placed_segment(
            segment,
            base_cs,
            buffer_len_cs,
            eot_id,
            vad,
        ).start_cs <= placed_segment(segment, base_cs, buffer_len_cs, eot_id, vad).end_cs,
{
}

/// Filtering keeps tokens in the order of their start.
proof fn lemma_filter_keeps_order(tokens: Seq<EngineTokenView>, keep: spec_fn(EngineTokenView) -> bool)
    requires
        forall|i: int, j: int| 0 <= i <= j < tokens.len() ==> tokens[i].t0 <= tokens[j].t0,
    ensures
        forall|i: int, j: int|
            0 <= i <= j < tokens.filter(keep).len() ==> tokens.filter(keep)[i].t0 <= tokens.filter(
                keep,
            )[j].t0,
        forall|i: int|
            0 <= i < tokens.filter(keep).len() ==> tokens.contains(#[trigger] tokens.filter(keep)[i]),
    decreases tokens.len(),
{
    reveal(Seq::filter);
    if tokens.len() > 0 {
        let front = tokens.drop_last();
        lemma_filter_keeps_order(front, keep);
        let kept = tokens.filter(keep);
        assert forall|i: int| 0 <= i < kept.len() implies tokens.contains(#[trigger] kept[i]) by {
            if i < front.filter(keep).len() {
                let k = choose|k: int| 0 <= k < front.len() && front[k] == front.filter(keep)[i];
                assert(tokens[k] == kept[i]);
            } else {
                assert(tokens[tokens.len() - 1] == kept[i]);
            }
        }
        assert forall|i: int, j: int| 0 <= i <= j < kept.len() implies kept[i].t0 <= kept[j].t0 by {
            if j >= front.filter(keep).len() && i < front.filter(keep).len() {
                let k = choose|k: int| 0 <= k < front.len() && front[k] == front.filter(keep)[i];
                assert(tokens[k].t0 <= tokens[tokens.len() - 1].t0);
            }
        }
    }
}

/// If the engine's segment ends within the audio and its tokens lie within
/// it in order of their start, the kept tokens lie within the placed segment
/// in order of their start.
pub proof fn lemma_placed_tokens_within(
    segment: EngineSegmentView,
    base_cs: int,
    buffer_len_cs: int,
    eot_id: i32,
    vad: Option<VadView>,
)
    requires
        0 <= base_cs,
        0 <= buffer_len_cs,
        base_cs + buffer_len_cs <= i64::MAX,
        segment_sane(segment, buffer_len_cs),
        tokens_sane(segment, buffer_len_cs),
    ensures
        placed_segment(segment, base_cs, buffer_len_cs, eot_id, vad).tokens_within(),
        placed_segment(segment, base_cs, buffer_len_cs, eot_id, vad).tokens_ordered(),
{
    let keep = starts_before(buffer_len_cs);
    let rebase = rebased_token(base_cs, eot_id);
    let kept = segment.tokens.filter(keep);
    let placed = placed_segment(segment, base_cs, buffer_len_cs, eot_id, vad);
    lemma_filter_keeps_order(segment.tokens, keep);
    assert(placed.tokens == kept.map_values(rebase));
    assert forall|i: int| 0 <= i < placed.tokens.len() implies placed.start_cs <= (
    #[trigger] placed.tokens[i]).start_cs && placed.tokens[i].end_cs <= placed.end_cs by {
        assert(segment.tokens.contains(kept[i]));
        let k = choose|k: int| 0 <= k < segment.tokens.len() && segment.tokens[k] == kept[i];
        assert(segment.start_cs <= segment.tokens[k].t0 && segment.tokens[k].t1 <= segment.end_cs);
        assert(placed.tokens[i] == rebase(kept[i]));
    }
    assert forall|i: int, j: int| 0 <= i <= j < placed.tokens.len() implies placed.tokens[i].start_cs
        <= placed.tokens[j].start_cs by {
        assert(segment.tokens.contains(kept[i]));
        assert(segment.tokens.contains(kept[j]));
        let ki = choose|k: int| 0 <= k < segment.tokens.len() && segment.tokens[k] == kept[i];
        let kj = choose|k: int| 0 <= k < segment.tokens.len() && segment.tokens[k] == kept[j];
        assert(segment.start_cs <= segment.tokens[ki].t0 && segment.tokens[ki].t1 <= segment.end_cs);
        assert(segment.start_cs <= segment.tokens[kj].t0 && segment.tokens[kj].t1 <= segment.end_cs);
        assert(kept[i].t0 <= kept[j].t0);
        assert(placed.tokens[i] == rebase(kept[i]));
        assert(placed.tokens[j] == rebase(kept[j]));
    }
}

/// Whether some token of `segment` starts within the audio.
fn starts_within(segment: &EngineSegment, buffer_len_cs: i64) -> (some: bool)
    ensures
        some == keeps_a_token(segment@, buffer_len_cs as int),
{
    let ghost source = segment@.tokens;
    let ghost keep = starts_before(buffer_len_cs as int);
    let n: usize = segment.tokens.len();
    let mut i: usize = 0;
    assert(source.take(0).filter(keep) == Seq::<EngineTokenView>::empty()) by {
        reveal(Seq::filter);
    }
    while i < n
        invariant
            n == segment.tokens@.len(),
            i <= n,
            source == segment@.tokens,
            keep == starts_before(buffer_len_cs as int),
            source.take(i as int).filter(keep).len() == 0,
        decreases n - i,
    {
        proof {
            assert(source[i as int] == segment.tokens@[i as int]@);
            assert(source.take(i as int + 1) == source.take(i as int).push(source[i as int]));
            source.take(i as int).lemma_filter_push(source[i as int], keep);
        }
        if segment.tokens[i].t0 < buffer_len_cs {
            proof {
                lemma_filter_grows(source, keep, i as int + 1);
            }
            return true;
        }
        i += 1;
    }
    assert(source.take(n as int) == source);
    false
}

/// What a filter keeps of the beginning of a run it keeps of the whole run.
proof fn lemma_filter_grows<T>(s: Seq<T>, keep: spec_fn(T) -> bool, n: int)
    requires
        0 <= n <= s.len(),
    ensures
        s.take(n).filter(keep).len() <= s.filter(keep).len(),
    decreases s.len() - n,
{
    if n < s.len() {
        assert(s.take(n + 1) == s.take(n).push(s[n]));
        s.take(n).lemma_filter_push(s[n], keep);
        lemma_filter_grows(s, keep, n + 1);
    } else {
        assert(s.take(n) == s);
    }
}

/// Checks that the start of one segment and the ends of the tokens it keeps
/// can be moved by `base_cs`.
fn segment_can_move(segment: &EngineSegment, base_cs: i64, buffer_len_cs: i64) -> (ok: bool)
    requires
        base_cs >= 0,
    ensures
        ok == segment_movable(segment@, base_cs as int, buffer_len_cs as int),
{
    let limit: i64 = i64::MAX - base_cs;
    if segment.start_cs > limit {
        return false;
    }
    let n: usize = segment.tokens.len();
    let mut i: usize = 0;
    while i < n
        invariant
            n == segment.tokens@.len(),
            i <= n,
            limit == i64::MAX - base_cs,
            forall|j: int|
                0 <= j < i && (#[trigger] segment@.tokens[j]).t0 < buffer_len_cs
                    ==> segment@.tokens[j].t1 + base_cs <= i64::MAX,
        decreases n - i,
    {
        if segment.tokens[i].t0 < buffer_len_cs && segment.tokens[i].t1 > limit {
            assert(segment@.tokens[i as int].t0 < buffer_len_cs && segment@.tokens[i as int].t1
                + base_cs > i64::MAX);
            return false;
        }
        assert(segment@.tokens[i as int] == segment.tokens@[i as int]@);
        i += 1;
    }
    true
}

/// Checks that one segment can be placed where it has to be.
fn segment_in_range(segment: &EngineSegment, base_cs: i64, buffer_len_cs: i64, keep_empty: bool)
    -> (ok: bool)
    requires
        base_cs >= 0,
    ensures
        ok == segment_fits(segment@, base_cs as int, buffer_len_cs as int, keep_empty),
{
    if keep_empty || starts_within(segment, buffer_len_cs) {
        segment_can_move(segment, base_cs, buffer_len_cs)
    } else {
        true
    }
}

/// Checks that an engine answer can be placed on the connection's clock
/// without leaving `i64`: every segment that will be emitted, with the tokens
/// it keeps. `keep_empty` says whether segments without tokens are emitted.
pub fn fits_timeline(
    engine: &Vec<EngineSegment>,
    base_cs: i64,
    buffer_len_cs: i64,
    keep_empty: bool,
) -> (ok: bool)
    requires
        base_cs >= 0,
    ensures
        ok == all_fit(
            engine_segment_views(engine@),
            base_cs as int,
            buffer_len_cs as int,
            keep_empty,
        ),
{
    let n: usize = engine.len();
    let mut i: usize = 0;
    while i < n
        invariant
            n == engine@.len(),
            i <= n,
            base_cs >= 0,
            forall|j: int|
                0 <= j < i ==> segment_fits(
                    #[trigger] engine_segment_views(engine@)[j],
                    base_cs as int,
                    buffer_len_cs as int,
                    keep_empty,
                ),
        decreases n - i,
    {
        if !segment_in_range(&engine[i], base_cs, buffer_len_cs, keep_empty) {
            assert(!segment_fits(
                engine_segment_views(engine@)[i as int],
                base_cs as int,
                buffer_len_cs as int,
                keep_empty,
            ));
            return false;
        }
        i += 1;
    }
    true
}

/// Keeps the tokens that start within the audio and moves them by `base_cs`.
fn keep_tokens(tokens: &Vec<EngineToken>, base_cs: i64, buffer_len_cs: i64, eot_id: i32) -> (kept:
    Vec<Token>)
    requires
        0 <= base_cs,
        0 <= buffer_len_cs,
        base_cs + buffer_len_cs <= i64::MAX,
        forall|i: int|
            0 <= i < tokens@.len() && (#[trigger] engine_token_views(tokens@)[i]).t0
                < buffer_len_cs ==> engine_token_views(tokens@)[i].t1 + base_cs <= i64::MAX,
    ensures
        token_views(kept@) == kept_tokens(
            engine_token_views(tokens@),
            base_cs as int,
            buffer_len_cs as int,
            eot_id,
        ),
{
    let ghost source = engine_token_views(tokens@);
    let ghost keep = starts_before(buffer_len_cs as int);
    let ghost rebase = rebased_token(base_cs as int, eot_id);
    let mut kept: Vec<Token> = Vec::new();
    let n: usize = tokens.len();
    let mut i: usize = 0;
    assert(source.take(0).filter(keep) == Seq::<EngineTokenView>::empty()) by {
        reveal(Seq::filter);
    }
    while i < n
        invariant
            n == tokens@.len(),
            i <= n,
            0 <= base_cs,
            0 <= buffer_len_cs,
            base_cs + buffer_len_cs <= i64::MAX,
            source == engine_token_views(tokens@),
            keep == starts_before(buffer_len_cs as int),
            rebase == rebased_token(base_cs as int, eot_id),
            forall|j: int|
                0 <= j < tokens@.len() && (#[trigger] source[j]).t0 < buffer_len_cs ==> source[j].t1
                    + base_cs <= i64::MAX,
            token_views(kept@) == source.take(i as int).filter(keep).map_values(rebase),
        decreases n - i,
    {
        let token = &tokens[i];
        proof {
            assert(source[i as int] == token@);
            assert(source.take(i as int + 1) == source.take(i as int).push(token@));
            source.take(i as int).lemma_filter_push(token@, keep);
        }
        if token.t0 < buffer_len_cs {
            let ghost before = kept@;
            let placed = Token {
                text: token.text.clone(),
                id: token.id,
                start_cs: token.t0 + base_cs,
                end_cs: token.t1 + base_cs,
                special: token.id >= eot_id,
                probability: token.probability,
            };
            kept.push(placed);
            proof {
                assert(placed@ == rebase(token@));
                assert(token_views(kept@) =~= token_views(before).push(placed@));
                assert(source.take(i as int).filter(keep).push(token@).map_values(rebase)
                    =~= source.take(i as int).filter(keep).map_values(rebase).push(rebase(token@)));
            }
        }
        i += 1;
    }
    assert(source.take(n as int) == source);
    kept
}

/// Joins the texts of the tokens that are not special and trims the result.
pub fn render_text(tokens: &Vec<Token>) -> (text: String)
    ensures
        text@ == trimmed(visible_text(token_views(tokens@))),
{
    let ghost views = token_views(tokens@);
    let mut joined = String::new();
    let n: usize = tokens.len();
    let mut i: usize = 0;
    while i < n
        invariant
            n == tokens@.len(),
            i <= n,
            views == token_views(tokens@),
            joined@ == visible_text(views.take(i as int)),
        decreases n - i,
    {
        proof {
            assert(views.take(i as int + 1).drop_last() == views.take(i as int));
            assert(views.take(i as int + 1).last() == tokens@[i as int]@);
        }
        if !tokens[i].special {
            joined.append(tokens[i].text.as_str());
        }
        i += 1;
    }
    assert(views.take(n as int) == views);
    trimmed_copy(joined.as_str())
}

/// Whether `end_cs - start_cs` is a whole number of seconds.
fn is_whole_seconds(start_cs: i64, end_cs: i64) -> (whole: bool)
    ensures
        whole == whole_seconds(end_cs - start_cs),
{
    let length: i128 = end_cs as i128 - start_cs as i128;
    if length >= 0 {
        length % 100 == 0
    } else {
        let positive: i128 = -length;
        assert((positive % 100 == 0) == (length % 100 == 0)) by (nonlinear_arith)
            requires
                positive == -length,
        ;
        positive % 100 == 0
    }
}

/// Places one engine segment on the connection's clock.
pub fn place_segment(
    segment: &EngineSegment,
    base_cs: i64,
    buffer_len_cs: i64,
    eot_id: i32,
    vad: Option<&Vad>,
) -> (placed: Segment)
    requires
        0 <= base_cs,
        0 <= buffer_len_cs,
        base_cs + buffer_len_cs <= i64::MAX,
        segment_movable(segment@, base_cs as int, buffer_len_cs as int),
        vad matches Some(ring) ==> ring@.wf(),
    ensures
        placed@ == placed_segment(
            segment@,
            base_cs as int,
            buffer_len_cs as int,
            eot_id,
            vad_option_view(vad),
        ),
{
    assert(segment@.tokens.len() == segment.tokens@.len());
    let tokens = keep_tokens(&segment.tokens, base_cs, buffer_len_cs, eot_id);
    let text = render_text(&tokens);
    let start_cs: i64 = segment.start_cs + base_cs;
    let relative_end: i64 = if segment.end_cs < buffer_len_cs {
        segment.end_cs
    } else {
        buffer_len_cs
    };
    let end_cs: i64 = relative_end + base_cs;
    let end_vad_probability: u32 = match vad {
        Some(ring) => ring.probability_at_cs(relative_end),
        None => 0,
    };
    Segment {
        text,
        start_cs,
        end_cs,
        tokens,
        fallback_segmentation: is_whole_seconds(start_cs, end_cs),
        end_vad_probability,
        no_speech_probability: segment.no_speech_probability,
    }
}

/// The view of an optional ring.
pub open spec fn vad_option_view(vad: Option<&Vad>) -> Option<VadView> {
    match vad {
        Some(ring) => Some(ring@),
        None => None,
    }
}

/// Places every segment of an engine answer on the connection's clock.
/// Unless `keep_empty` is set, segments that kept no token are left out.
pub fn place_segments(
    engine: &Vec<EngineSegment>,
    base_cs: i64,
    buffer_len_cs: i64,
    eot_id: i32,
    vad: Option<&Vad>,
    keep_empty: bool,
) -> (placed: Vec<Segment>)
    requires
        0 <= base_cs,
        0 <= buffer_len_cs,
        base_cs + buffer_len_cs <= i64::MAX,
        all_fit(engine_segment_views(engine@), base_cs as int, buffer_len_cs as int, keep_empty),
        vad matches Some(ring) ==> ring@.wf(),
    ensures
        segment_views(placed@) == placed_segments(
            engine_segment_views(engine@),
            base_cs as int,
            buffer_len_cs as int,
            eot_id,
            vad_option_view(vad),
            keep_empty,
        ),
{
    let ghost source = engine_segment_views(engine@);
    let ghost place = placing(base_cs as int, buffer_len_cs as int, eot_id, vad_option_view(vad));
    let mut placed: Vec<Segment> = Vec::new();
    let n: usize = engine.len();
    let mut i: usize = 0;
    assert(source.take(0).map_values(place).filter(has_tokens()) == Seq::<SegmentView>::empty())
        by {
        reveal(Seq::filter);
    }
    while i < n
        invariant
            n == engine@.len(),
            i <= n,
            0 <= base_cs,
            0 <= buffer_len_cs,
            base_cs + buffer_len_cs <= i64::MAX,
            source == engine_segment_views(engine@),
            all_fit(source, base_cs as int, buffer_len_cs as int, keep_empty),
            vad matches Some(ring) ==> ring@.wf(),
            place == placing(base_cs as int, buffer_len_cs as int, eot_id, vad_option_view(vad)),
            segment_views(placed@) == if keep_empty {
                source.take(i as int).map_values(place)
            } else {
                source.take(i as int).map_values(place).filter(has_tokens())
            },
        decreases n - i,
    {
        assert(source[i as int] == engine@[i as int]@);
        proof {
            let next = place(source[i as int]);
            assert(source.take(i as int + 1).map_values(place) =~= source.take(
                i as int,
            ).map_values(place).push(next));
            source.take(i as int).map_values(place).lemma_filter_push(next, has_tokens());
            assert(has_tokens()(next) == keeps_a_token(source[i as int], buffer_len_cs as int));
            assert(segment_fits(source[i as int], base_cs as int, buffer_len_cs as int, keep_empty));
        }
        if keep_empty || starts_within(&engine[i], buffer_len_cs) {
            let segment = place_segment(&engine[i], base_cs, buffer_len_cs, eot_id, vad);
            let ghost before = placed@;
            placed.push(segment);
            assert(segment_views(placed@) =~= segment_views(before).push(segment@));
        }
        i += 1;
    }
    assert(source.take(n as int) == source);
    placed
}

} // verus!
