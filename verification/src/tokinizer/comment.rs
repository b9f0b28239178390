use crate::pattern::{find_spans, regex_spans, span_text, TokenRegex};
use crate::tokinizer::{
    location_slot, location_views, span_free, with_location, LocationView, TokenLocationStatus,
    Tokinizer, UiToken, UiTokenType,
};
use vstd::prelude::*;

verus! {

/// The recognised spans of a line and the notes for display.
pub struct Marked {
    pub locations: Seq<LocationView>,
    pub notes: Seq<UiToken>,
}

/// The recognised spans and the notes that a tokenizer holds.
pub open spec fn line_of(tokinizer: Tokinizer) -> Marked {
    Marked { locations: location_views(tokinizer.token_locations@), notes: tokinizer.ui_tokens@ }
}

/// The location of a comment: a span of the text without a meaning.
pub open spec fn comment_location(text: Seq<char>, span: (usize, usize)) -> LocationView {
    LocationView {
        start: span.0,
        end: span.1,
        token_type: None,
        text: span_text(text, span.0 as int, span.1 as int),
        status: TokenLocationStatus::Active,
    }
}

/// A line after one match of a comment pattern: if the span is free, it is
/// recognised as a location without a meaning and noted as a comment; if
/// not, nothing changes.
pub open spec fn with_comment(line: Marked, text: Seq<char>, span: (usize, usize)) -> Marked {
    if span_free(line.locations, span.0 as int, span.1 as int) {
        Marked {
            locations: with_location(line.locations, comment_location(text, span)),
            notes: line.notes.push(
                UiToken { start: span.0, end: span.1, ui_type: UiTokenType::Comment },
            ),
        }
    } else {
        line
    }
}

/// A line after the first `upto` of the given matches, taken in order.
pub open spec fn with_comments(
    line: Marked,
    text: Seq<char>,
    spans: Seq<(usize, usize)>,
    upto: int,
) -> Marked
    decreases upto,
{
    if upto <= 0 {
        line
    } else {
        with_comment(with_comments(line, text, spans, upto - 1), text, spans[upto - 1])
    }
}

/// A line after the matches of the first `upto` comment patterns, the
/// patterns taken in order and of each all its matches.
pub open spec fn comment_pass(
    line: Marked,
    patterns: Seq<TokenRegex>,
    text: Seq<char>,
    upto: int,
) -> Marked
    decreases upto,
{
    if upto <= 0 {
        line
    } else {
        let spans = regex_spans(patterns[upto - 1]@, text);
        with_comments(comment_pass(line, patterns, text, upto - 1), text, spans, spans.len() as int)
    }
}

/// The meanings that a token stream hands on to evaluation: those of its
/// active locations that have one, in order.
pub open spec fn semantic_tokens(locations: Seq<LocationView>) -> Seq<crate::types::TokenType>
    decreases locations.len(),
{
    if locations.len() == 0 {
        Seq::empty()
    } else {
        match location_slot(locations.last()) {
            Some(token) => semantic_tokens(locations.drop_last()).push(token),
            None => semantic_tokens(locations.drop_last()),
        }
    }
}

/// Putting a location without a meaning into a stream adds nothing to
/// what the stream means.
pub proof fn lemma_insert_without_meaning(
    locations: Seq<LocationView>,
    position: int,
    location: LocationView,
)
    requires
        0 <= position <= locations.len(),
        location_slot(location) is None,
    ensures
        semantic_tokens(locations.insert(position, location)) == semantic_tokens(locations),
    decreases locations.len() - position,
{
    let after = locations.insert(position, location);
    if position == locations.len() {
        assert(after.drop_last() =~= locations);
    } else {
        assert(after.last() == locations.last());
        assert(after.drop_last() =~= locations.drop_last().insert(position, location));
        lemma_insert_without_meaning(locations.drop_last(), position, location);
    }
}

/// Comments mean nothing: whatever the comment patterns match, the
/// meanings that the line hands on to evaluation are those it had before.
pub proof fn lemma_comments_add_no_meaning(
    line: Marked,
    patterns: Seq<TokenRegex>,
    text: Seq<char>,
    upto: int,
)
    requires
        upto <= patterns.len(),
    ensures
        semantic_tokens(comment_pass(line, patterns, text, upto).locations) == semantic_tokens(
            line.locations,
        ),
    decreases upto,
{
    if upto > 0 {
        lemma_comments_add_no_meaning(line, patterns, text, upto - 1);
        let spans = regex_spans(patterns[upto - 1]@, text);
        lemma_spans_add_no_meaning(
            comment_pass(line, patterns, text, upto - 1),
            text,
            spans,
            spans.len() as int,
        );
    }
}

pub proof fn lemma_spans_add_no_meaning(
    line: Marked,
    text: Seq<char>,
    spans: Seq<(usize, usize)>,
    upto: int,
)
    requires
        upto <= spans.len(),
    ensures
        semantic_tokens(with_comments(line, text, spans, upto).locations) == semantic_tokens(
            line.locations,
        ),
    decreases upto,
{
    if upto > 0 {
        lemma_spans_add_no_meaning(line, text, spans, upto - 1);
        let earlier = with_comments(line, text, spans, upto - 1);
        let span = spans[upto - 1];
        if span_free(earlier.locations, span.0 as int, span.1 as int) {
            crate::tokinizer::lemma_insert_position_bounds(earlier.locations, span.0 as int);
            lemma_insert_without_meaning(
                earlier.locations,
                crate::tokinizer::insert_position(earlier.locations, span.0 as int),
                comment_location(text, span),
            );
        }
    }
}

/// Where a recognised span covers a region of the text, no span of that
/// region that holds a byte is free: whatever follows a comment marker up
/// to the end of the comment is never recognised as anything else.
pub proof fn lemma_covered_region_is_taken(
    locations: Seq<LocationView>,
    cover: int,
    start: int,
    end: int,
)
    requires
        0 <= cover < locations.len(),
        locations[cover].start <= start < end <= locations[cover].end,
    ensures
        !span_free(locations, start, end),
{
    assert(crate::tokinizer::overlaps(locations[cover], start, end));
}

/// Recognises comments: for each pattern in turn, and each of its matches
/// in the line from left to right, the span of the match is recognised as
/// a location without a meaning, and noted as a comment, unless it shares
/// a byte with a span recognised earlier.
pub fn comment_regex_parser(tokinizer: &mut Tokinizer, group_item: &[TokenRegex])
    ensures
        line_of(*final(tokinizer)) == comment_pass(
            line_of(*old(tokinizer)),
            group_item@,
            old(tokinizer).data@,
            group_item@.len() as int,
        ),
        final(tokinizer).data == old(tokinizer).data,
{
    let ghost initial = line_of(*tokinizer);
    let ghost text = tokinizer.data@;
    let mut index: usize = 0;
    while index < group_item.len()
        invariant
            0 <= index <= group_item@.len(),
            tokinizer.data == old(tokinizer).data,
            text == tokinizer.data@,
            line_of(*tokinizer) == comment_pass(initial, group_item@, text, index as int),
        decreases group_item@.len() - index,
    {
        let found = find_spans(&group_item[index], tokinizer.data.as_str());
        let ghost spans = regex_spans(group_item@[index as int]@, text);
        let ghost earlier = comment_pass(initial, group_item@, text, index as int);
        let mut k: usize = 0;
        while k < found.len()
            invariant
                0 <= k <= found@.len(),
                found@.len() == spans.len(),
                forall|i: int|
                    0 <= i < found@.len() ==> {
                        &&& (#[trigger] found@[i]).start == spans[i].0
                        &&& found@[i].end == spans[i].1
                        &&& found@[i].text@ == span_text(
                            text,
                            found@[i].start as int,
                            found@[i].end as int,
                        )
                    },
                tokinizer.data == old(tokinizer).data,
                text == tokinizer.data@,
                line_of(*tokinizer) == with_comments(earlier, text, spans, k as int),
            decreases found@.len() - k,
        {
            let start = found[k].start;
            let end = found[k].end;
            let matched = found[k].text.clone();
            let added = tokinizer.add_token_location(start, end, None, matched);
            if added {
                tokinizer.ui_tokens.push(UiToken { start, end, ui_type: UiTokenType::Comment });
            }
            k += 1;
        }
        index += 1;
    }
}

} // verus!
