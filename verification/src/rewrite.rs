use crate::tokinizer::{
    location_views, spans_ordered, LocationView, TokenLocation, TokenLocationStatus,
};
use crate::types::TokenType;
use vstd::prelude::*;

verus! {

/// The texts of the locations from `from` up to `to`, one after another.
pub open spec fn joined_text(locations: Seq<LocationView>, from: int, to: int) -> Seq<char>
    decreases to - from,
{
    if from >= to {
        Seq::empty()
    } else {
        joined_text(locations, from, to - 1) + locations[to - 1].text
    }
}

/// The one location that takes the place of a window: it spans the window
/// from the start of its first location to the end of its last, holds their
/// texts joined, is active, and means `token`.
pub open spec fn merged_location(
    locations: Seq<LocationView>,
    start: int,
    width: int,
    token: TokenType,
) -> LocationView {
    LocationView {
        start: locations[start].start,
        end: locations[start + width - 1].end,
        token_type: Some(token),
        text: joined_text(locations, start, start + width),
        status: TokenLocationStatus::Active,
    }
}

/// The token stream with the window of `width` locations at `start`
/// replaced by one location that means `token`.
pub open spec fn replaced(
    locations: Seq<LocationView>,
    start: int,
    width: int,
    token: TokenType,
) -> Seq<LocationView> {
    locations.subrange(0, start).push(merged_location(locations, start, width, token))
        + locations.subrange(start + width, locations.len() as int)
}

/// The part of the text that a token stream covers: from the start of its
/// first location to the end of its last.
pub open spec fn covered_span(locations: Seq<LocationView>) -> Option<(usize, usize)> {
    if locations.len() == 0 {
        None
    } else {
        Some((locations.first().start, locations.last().end))
    }
}

/// Replacing a window by one location leaves the stream no longer, and
/// covering the same part of the text; spans that were well formed and in
/// order stay so.
pub proof fn lemma_replaced_keeps_spans(
    locations: Seq<LocationView>,
    start: int,
    width: int,
    token: TokenType,
)
    requires
        0 <= start,
        0 < width,
        start + width <= locations.len(),
    ensures
        replaced(locations, start, width, token).len() == locations.len() - width + 1,
        covered_span(replaced(locations, start, width, token)) == covered_span(locations),
        spans_ordered(locations) ==> spans_ordered(replaced(locations, start, width, token)),
{
    let after = replaced(locations, start, width, token);
    let merged = merged_location(locations, start, width, token);
    assert(after.len() == locations.len() - width + 1);
    assert forall|i: int| 0 <= i < after.len() implies #[trigger] after[i] == (if i < start {
        locations[i]
    } else if i == start {
        merged
    } else {
        locations[i + width - 1]
    }) by {}
    assert(after.first().start == locations.first().start);
    assert(after.last().end == locations.last().end);
    if spans_ordered(locations) {
        assert forall|i: int| 0 <= i < after.len() implies (#[trigger] after[i]).start
            <= after[i].end by {
            if i == start {
                if width > 1 {
                    assert(locations[start].end <= locations[start + width - 1].start);
                }
            }
        }
        assert forall|i: int, j: int| 0 <= i < j < after.len() implies (#[trigger] after[i]).end <= (
        #[trigger] after[j]).start by {
            let source_i = if i <= start {
                i
            } else {
                i + width - 1
            };
            let source_j = if j < start {
                j
            } else {
                j + width - 1
            };
            if i == start {
                assert(after[i].end == locations[start + width - 1].end);
                assert(locations[start + width - 1].end <= locations[source_j].start);
            } else if j == start {
                assert(locations[source_i].end <= locations[start].start);
            } else {
                assert(locations[source_i].end <= locations[source_j].start);
            }
        }
    }
}

/// Replaces the window of `width` locations at `start` by one location
/// that means `token`.
pub fn merge_window(tokens: &mut Vec<TokenLocation>, start: usize, width: usize, token: TokenType)
    requires
        0 < width,
        start + width <= old(tokens).len(),
    ensures
        location_views(final(tokens)@) == replaced(
            location_views(old(tokens)@),
            start as int,
            width as int,
            token,
        ),
{
    let ghost before = location_views(tokens@);
    let text_start_position = tokens[start].start;
    let text_end_position = tokens[start + width - 1].end;
    let mut original_text = String::new();
    let mut removed: usize = 0;
    while removed < width
        invariant
            0 <= removed <= width,
            start + width <= before.len(),
            location_views(tokens@) == before.subrange(0, start as int) + before.subrange(
                start + removed,
                before.len() as int,
            ),
            original_text@ == joined_text(before, start as int, start + removed),
        decreases width - removed,
    {
        let ghost current = tokens@;
        proof {
            let head = before.subrange(0, start as int);
            let tail = before.subrange(start + removed, before.len() as int);
            assert(location_views(current).len() == current.len());
            assert(location_views(current).len() == head.len() + tail.len());
            assert(location_views(current)[start as int] == tail[0]);
        }
        let location = tokens.remove(start);
        assert(location@ == before[start + removed]) by {
            assert(location_views(current)[start as int] == location@);
        }
        assert(location_views(tokens@) =~= before.subrange(0, start as int) + before.subrange(
            start + removed + 1,
            before.len() as int,
        )) by {
            assert(location_views(current.remove(start as int)) =~= location_views(
                current,
            ).remove(start as int));
        }
        original_text.append(location.original_text.as_str());
        removed += 1;
    }
    let merged = TokenLocation {
        start: text_start_position,
        end: text_end_position,
        token_type: Some(token),
        original_text,
        status: TokenLocationStatus::Active,
    };
    let ghost shortened = tokens@;
    tokens.insert(start, merged);
    proof {
        let after = location_views(tokens@);
        assert(after =~= location_views(shortened).insert(start as int, merged@));
        assert(merged@ == merged_location(before, start as int, width as int, token));
        assert(after =~= replaced(before, start as int, width as int, token));
    }
}

} // verus!
