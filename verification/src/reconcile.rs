//! The two-stroke reconciler: how well a second pass over the tail of the
//! audio agrees with the segment that was reported first.
//!
//! Texts are compared trimmed and in a normal form (see `text::normalized`),
//! segment texts and token texts alike. Two measures come out: whether the
//! first segment of the second pass says the same as the original segment,
//! and how many leading tokens the two passes share.

use crate::protocol::{
    segment_views, token_views, Segment, SegmentView, ServerMessage, ServerMessageView, Token,
    TokenView,
};
use crate::text::{normalize_for_comparison, normalized, trimmed, trimmed_copy};
use vstd::prelude::*;

verus! {

/// The contents of a run of strings.
pub open spec fn string_views(strings: Seq<String>) -> Seq<Seq<char>> {
    strings.map_values(|s: String| s@)
}

/// The form in which a text is compared: trimmed, then normalised.
pub open spec fn compared(text: Seq<char>) -> Seq<char> {
    normalized(trimmed(text))
}

/// The compared form of a token's text.
pub open spec fn normalized_text() -> spec_fn(TokenView) -> Seq<char> {
    |t: TokenView| compared(t.text)
}

/// The compared forms of the texts of a run of tokens.
pub open spec fn normalized_texts(tokens: Seq<TokenView>) -> Seq<Seq<char>> {
    tokens.map_values(normalized_text())
}

/// The tokens of a run of segments, in order.
pub open spec fn all_tokens(segments: Seq<SegmentView>) -> Seq<TokenView>
    decreases segments.len(),
{
    if segments.len() == 0 {
        Seq::empty()
    } else {
        all_tokens(segments.drop_last()) + segments.last().tokens
    }
}

/// Two texts say the same: their compared forms are equal and not empty.
pub open spec fn same_text(original: Seq<char>, fresh: Seq<char>) -> bool {
    compared(original).len() > 0 && compared(original) == compared(fresh)
}

/// `n` is the length of the longest common prefix of `a` and `b`.
pub open spec fn is_common_prefix_len<T>(a: Seq<T>, b: Seq<T>, n: nat) -> bool {
    &&& n <= a.len()
    &&& n <= b.len()
    &&& forall|i: int| 0 <= i < n ==> a[i] == b[i]
    &&& n < a.len() && n < b.len() ==> a[n as int] != b[n as int]
}

/// The two measures for an original segment and the segments of the second
/// pass: with no second pass, nothing matches.
pub open spec fn is_comparison(
    original: SegmentView,
    fresh: Seq<SegmentView>,
    exact_match: bool,
    n_matching_tokens: nat,
) -> bool {
    if fresh.len() == 0 {
        !exact_match && n_matching_tokens == 0
    } else {
        &&& exact_match == same_text(original.text, fresh[0].text)
        &&& is_common_prefix_len(
            normalized_texts(original.tokens),
            normalized_texts(all_tokens(fresh)),
            n_matching_tokens,
        )
    }
}

/// The longest common prefix has one length only.
pub proof fn lemma_common_prefix_len_unique<T>(a: Seq<T>, b: Seq<T>, n: nat, m: nat)
    requires
        is_common_prefix_len(a, b, n),
        is_common_prefix_len(a, b, m),
    ensures
        n == m,
{
    if n < m {
        assert(a[n as int] == b[n as int]);
    }
    if m < n {
        assert(a[m as int] == b[m as int]);
    }
}

/// Whether two normalised texts are equal and not empty.
pub fn texts_match(original: &String, fresh: &String) -> (same: bool)
    ensures
        same == (original@.len() > 0 && original@ == fresh@),
{
    original.as_str().unicode_len() > 0 && *original == *fresh
}

/// The length of the longest common prefix of two runs of strings.
pub fn matching_prefix(a: &Vec<String>, b: &Vec<String>) -> (n: usize)
    ensures
        is_common_prefix_len(string_views(a@), string_views(b@), n as nat),
{
    let mut n: usize = 0;
    while n < a.len() && n < b.len()
        invariant
            n <= a@.len(),
            n <= b@.len(),
            forall|i: int| 0 <= i < n ==> string_views(a@)[i] == string_views(b@)[i],
        decreases a@.len() - n,
    {
        if !(a[n] == b[n]) {
            assert(string_views(a@)[n as int] != string_views(b@)[n as int]);
            return n;
        }
        n += 1;
    }
    n
}

/// The compared form of `text`.
pub fn compared_text(text: &str) -> (out: String)
    ensures
        out@ == compared(text@),
{
    normalize_for_comparison(trimmed_copy(text).as_str())
}

/// Appends the compared forms of the texts of `tokens` to `out`.
fn push_normalized_texts(out: &mut Vec<String>, tokens: &Vec<Token>)
    ensures
        string_views(final(out)@) == string_views(old(out)@) + normalized_texts(
            token_views(tokens@),
        ),
{
    let ghost before = string_views(out@);
    let ghost views = token_views(tokens@);
    let n: usize = tokens.len();
    let mut i: usize = 0;
    assert(before + normalized_texts(views.take(0)) =~= before);
    while i < n
        invariant
            n == tokens@.len(),
            i <= n,
            views == token_views(tokens@),
            string_views(out@) == before + normalized_texts(views.take(i as int)),
        decreases n - i,
    {
        let text = compared_text(tokens[i].text.as_str());
        let ghost held = out@;
        out.push(text);
        proof {
            assert(string_views(out@) =~= string_views(held).push(text@));
            assert(views[i as int] == tokens@[i as int]@);
            assert(normalized_texts(views.take(i as int + 1)) =~= normalized_texts(
                views.take(i as int),
            ).push(compared(views[i as int].text)));
            assert(string_views(out@) =~= before + normalized_texts(views.take(i as int + 1)));
        }
        i += 1;
    }
    assert(views.take(n as int) == views);
}

/// The compared forms of the texts of all tokens of `segments`, in order.
fn normalized_texts_of(segments: &Vec<Segment>) -> (texts: Vec<String>)
    ensures
        string_views(texts@) == normalized_texts(all_tokens(segment_views(segments@))),
{
    let ghost views = segment_views(segments@);
    let mut texts: Vec<String> = Vec::new();
    let n: usize = segments.len();
    let mut i: usize = 0;
    assert(string_views(texts@) =~= normalized_texts(all_tokens(views.take(0))));
    while i < n
        invariant
            n == segments@.len(),
            i <= n,
            views == segment_views(segments@),
            string_views(texts@) == normalized_texts(all_tokens(views.take(i as int))),
        decreases n - i,
    {
        push_normalized_texts(&mut texts, &segments[i].tokens);
        proof {
            let upto = views.take(i as int + 1);
            assert(upto.drop_last() == views.take(i as int));
            assert(upto.last().tokens == token_views(segments@[i as int].tokens@));
            assert(normalized_texts(all_tokens(upto)) =~= normalized_texts(
                all_tokens(views.take(i as int)),
            ) + normalized_texts(upto.last().tokens));
        }
        i += 1;
    }
    assert(views.take(n as int) == views);
    texts
}

/// Compares a segment with what a second pass over the same audio found.
/// The first measure says whether the first segment of the second pass has
/// the same text; the second counts the leading tokens that the segment
/// shares with the tokens of the whole second pass.
pub fn compare_segments(original: &Segment, retranscribed: &Vec<Segment>) -> (r: (bool, usize))
    ensures
        is_comparison(original@, segment_views(retranscribed@), r.0, r.1 as nat),
{
    if retranscribed.len() == 0 {
        return (false, 0);
    }
    let first = &retranscribed[0];
    assert(segment_views(retranscribed@)[0] == first@);
    let original_text = compared_text(original.text.as_str());
    let first_text = compared_text(first.text.as_str());
    let exact_match = texts_match(&original_text, &first_text);
    let mut original_tokens: Vec<String> = Vec::new();
    push_normalized_texts(&mut original_tokens, &original.tokens);
    assert(string_views(original_tokens@) =~= normalized_texts(original@.tokens));
    let fresh_tokens = normalized_texts_of(retranscribed);
    let n_matching_tokens = matching_prefix(&original_tokens, &fresh_tokens);
    (exact_match, n_matching_tokens)
}

/// The message that reports a second pass: the segment it was run for, what
/// it found, and the two measures of agreement.
pub open spec fn is_suggestion(
    message: ServerMessageView,
    advance_cs: i64,
    last: SegmentView,
    fresh: Seq<SegmentView>,
) -> bool {
    message matches ServerMessageView::AdvanceSuggestion {
        advance_cs: a,
        timestamp_cs,
        segments,
        original_last_segment,
        exact_match,
        n_matching_tokens,
    } && {
        &&& a == advance_cs
        &&& timestamp_cs == last.end_cs
        &&& segments == fresh
        &&& original_last_segment == last
        &&& is_comparison(last, fresh, exact_match, n_matching_tokens as nat)
    }
}

/// Builds the message that reports a second pass over the audio after the
/// segment before `last`.
pub fn advance_suggestion(advance_cs: i64, last: Segment, retranscribed: Vec<Segment>) -> (message:
    ServerMessage)
    ensures
        is_suggestion(message@, advance_cs, last@, segment_views(retranscribed@)),
{
    let (exact_match, n_matching_tokens) = compare_segments(&last, &retranscribed);
    ServerMessage::AdvanceSuggestion {
        advance_cs,
        timestamp_cs: last.end_cs,
        segments: retranscribed,
        original_last_segment: last,
        exact_match,
        n_matching_tokens,
    }
}

} // verus!
