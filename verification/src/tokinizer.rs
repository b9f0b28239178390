use crate::types::{token_matches, token_type_matches, Token, TokenType};
use vstd::prelude::*;
use vstd::std_specs::cmp::PartialEqSpecImpl;

pub mod comment;
pub mod family;
pub mod scan;

verus! {

#[derive(Clone, Copy, Debug, PartialEq, Eq, Structural)]
pub enum TokenLocationStatus {
    Active,
    Removed,
}

/// A span of the input text and, once it is known, what the span means.
#[derive(Debug, Clone)]
pub struct TokenLocation {
    pub start: usize,
    pub end: usize,
    pub token_type: Option<TokenType>,
    pub original_text: String,
    pub status: TokenLocationStatus,
}

/// A token location with its text as a sequence of characters.
pub struct LocationView {
    pub start: usize,
    pub end: usize,
    pub token_type: Option<TokenType>,
    pub text: Seq<char>,
    pub status: TokenLocationStatus,
}

impl View for TokenLocation {
    type V = LocationView;

    open spec fn view(&self) -> LocationView {
        LocationView {
            start: self.start,
            end: self.end,
            token_type: self.token_type,
            text: self.original_text@,
            status: self.status,
        }
    }
}

pub open spec fn location_views(locations: Seq<TokenLocation>) -> Seq<LocationView> {
    locations.map_values(|location: TokenLocation| location@)
}

/// What a location offers to a pattern: its meaning, if it is active and has
/// one. A removed location offers nothing.
pub open spec fn location_slot(location: LocationView) -> Option<TokenType> {
    if location.status == TokenLocationStatus::Active {
        location.token_type
    } else {
        None
    }
}

/// A location meets an element of a pattern.
pub open spec fn location_matches(location: LocationView, element: TokenType) -> bool {
    match location_slot(location) {
        Some(token) => token_matches(token, element),
        None => false,
    }
}

/// Two locations are alike: both offer a meaning, and the meanings match.
pub open spec fn locations_alike(left: LocationView, right: LocationView) -> bool {
    match (location_slot(left), location_slot(right)) {
        (Some(l), Some(r)) => token_matches(l, r),
        _ => false,
    }
}

/// What a span was recognised as, for display.
#[derive(Clone, Copy, Debug, PartialEq, Eq, Structural)]
pub enum UiTokenType {
    Comment,
    VariableDefination,
    VariableUse,
}

/// A span of the text and its class, kept for whoever colours the text. No
/// computation reads these.
#[derive(Clone, Copy, Debug, PartialEq, Eq, Structural)]
pub struct UiToken {
    pub start: usize,
    pub end: usize,
    pub ui_type: UiTokenType,
}

/// The text of one line, the spans recognised in it so far, and the notes
/// for display.
#[derive(Debug)]
pub struct Tokinizer {
    pub data: String,
    pub token_locations: Vec<TokenLocation>,
    pub ui_tokens: Vec<UiToken>,
}

/// The half-open spans `[start, end)` and that of `location` share a byte.
pub open spec fn overlaps(location: LocationView, start: int, end: int) -> bool {
    start < location.end && location.start < end
}

/// A span is well formed and shares no byte with any recognised span.
pub open spec fn span_free(locations: Seq<LocationView>, start: int, end: int) -> bool {
    &&& start <= end
    &&& forall|i: int| 0 <= i < locations.len() ==> !overlaps(#[trigger] locations[i], start, end)
}

/// Every span is well formed, and each ends before the next begins.
pub open spec fn spans_ordered(locations: Seq<LocationView>) -> bool {
    &&& forall|i: int| 0 <= i < locations.len() ==> (#[trigger] locations[i]).start <= locations[i].end
    &&& forall|i: int, j: int|
        0 <= i < j < locations.len() ==> (#[trigger] locations[i]).end <= (#[trigger] locations[j]).start
}

/// Where a span that starts at `start` is put: behind the leading spans that
/// end at or before `start`.
pub open spec fn insert_position(locations: Seq<LocationView>, start: int) -> int
    decreases locations.len(),
{
    if locations.len() == 0 || locations[0].end > start {
        0
    } else {
        1 + insert_position(locations.drop_first(), start)
    }
}

/// The recognised spans after a request to add one: the span is put in its
/// place if it is free, and refused otherwise.
pub open spec fn with_location(locations: Seq<LocationView>, location: LocationView) -> Seq<
    LocationView,
> {
    if span_free(locations, location.start as int, location.end as int) {
        locations.insert(insert_position(locations, location.start as int), location)
    } else {
        locations
    }
}

pub proof fn lemma_insert_position_bounds(locations: Seq<LocationView>, start: int)
    ensures
        0 <= insert_position(locations, start) <= locations.len(),
        forall|i: int|
            0 <= i < insert_position(locations, start) ==> (#[trigger] locations[i]).end <= start,
        insert_position(locations, start) < locations.len() ==> locations[insert_position(
            locations,
            start,
        )].end > start,
    decreases locations.len(),
{
    if locations.len() == 0 || locations[0].end > start {
    } else {
        let rest = locations.drop_first();
        lemma_insert_position_bounds(rest, start);
        assert forall|i: int| 0 <= i < insert_position(locations, start) implies (
        #[trigger] locations[i]).end <= start by {
            if i > 0 {
                assert(locations[i] == rest[i - 1]);
            }
        }
    }
}

/// Adding a span keeps the spans well formed, ordered and apart.
pub proof fn lemma_with_location_ordered(locations: Seq<LocationView>, location: LocationView)
    requires
        spans_ordered(locations),
    ensures
        spans_ordered(with_location(locations, location)),
{
    let start = location.start as int;
    let end = location.end as int;
    if span_free(locations, start, end) {
        let p = insert_position(locations, start);
        lemma_insert_position_bounds(locations, start);
        let after = locations.insert(p, location);
        assert forall|i: int, j: int| 0 <= i < j < after.len() implies (#[trigger] after[i]).end <= (
        #[trigger] after[j]).start by {
            if j == p {
                assert(after[i] == locations[i]);
            } else if i == p {
                assert(after[j] == locations[j - 1]);
                assert(!overlaps(locations[p], start, end));
                if j - 1 > p {
                    assert(locations[p].end <= locations[j - 1].start);
                }
            } else {
                let oi = if i < p {
                    i
                } else {
                    i - 1
                };
                let oj = if j < p {
                    j
                } else {
                    j - 1
                };
                assert(after[i] == locations[oi]);
                assert(after[j] == locations[oj]);
            }
        }
        assert forall|i: int| 0 <= i < after.len() implies (#[trigger] after[i]).start
            <= after[i].end by {
            if i < p {
                assert(after[i] == locations[i]);
            } else if i > p {
                assert(after[i] == locations[i - 1]);
            }
        }
    }
}

impl TokenLocation {
    /// Decides [`location_matches`].
    pub fn matches_token(&self, element: &TokenType) -> (r: bool)
        ensures
            r == location_matches(self@, *element),
    {
        match self.status {
            TokenLocationStatus::Active => match &self.token_type {
                Some(token) => token_type_matches(token, element),
                None => false,
            },
            TokenLocationStatus::Removed => false,
        }
    }
}

impl PartialEq<Token> for TokenLocation {
    fn eq(&self, other: &Token) -> (r: bool) {
        self.matches_token(&other.token)
    }
}

impl PartialEqSpecImpl<Token> for TokenLocation {
    open spec fn obeys_eq_spec() -> bool {
        true
    }

    open spec fn eq_spec(&self, other: &Token) -> bool {
        location_matches(self@, other.token)
    }
}

impl PartialEq for TokenLocation {
    fn eq(&self, other: &Self) -> (r: bool) {
        match other.status {
            TokenLocationStatus::Active => match &other.token_type {
                Some(token) => self.matches_token(token),
                None => false,
            },
            TokenLocationStatus::Removed => false,
        }
    }
}

impl PartialEqSpecImpl for TokenLocation {
    open spec fn obeys_eq_spec() -> bool {
        true
    }

    open spec fn eq_spec(&self, other: &Self) -> bool {
        locations_alike(self@, other@)
    }
}

impl Tokinizer {
    /// A tokenizer for one line of text, with nothing recognised yet.
    pub fn new(data: String) -> (tokinizer: Tokinizer)
        ensures
            tokinizer.data == data,
            tokinizer.token_locations@.len() == 0,
            tokinizer.ui_tokens@.len() == 0,
    {
        Tokinizer { data, token_locations: Vec::new(), ui_tokens: Vec::new() }
    }

    /// Records that the bytes from `start` to `end` were recognised. The
    /// span is refused, and nothing changes, if its end lies before its
    /// start or if it shares a byte with a span recognised earlier:
    /// whoever claims a region first keeps it.
    pub fn add_token_location(
        &mut self,
        start: usize,
        end: usize,
        token_type: Option<TokenType>,
        text: String,
    ) -> (added: bool)
        ensures
            added == span_free(location_views(old(self).token_locations@), start as int, end as int),
            location_views(final(self).token_locations@) == with_location(
                location_views(old(self).token_locations@),
                LocationView {
                    start,
                    end,
                    token_type,
                    text: text@,
                    status: TokenLocationStatus::Active,
                },
            ),
            final(self).data == old(self).data,
            final(self).ui_tokens == old(self).ui_tokens,
            spans_ordered(location_views(old(self).token_locations@)) ==> spans_ordered(
                location_views(final(self).token_locations@),
            ),
    {
        let ghost before = location_views(self.token_locations@);
        proof {
            if spans_ordered(before) {
                lemma_with_location_ordered(
                    before,
                    LocationView {
                        start,
                        end,
                        token_type,
                        text: text@,
                        status: TokenLocationStatus::Active,
                    },
                );
            }
        }
        if start > end {
            return false;
        }
        let count = self.token_locations.len();
        let mut i: usize = 0;
        while i < count
            invariant
                count == self.token_locations.len(),
                before == location_views(self.token_locations@),
                0 <= i <= count,
                forall|j: int| 0 <= j < i ==> !overlaps(#[trigger] before[j], start as int, end as int),
            decreases count - i,
        {
            let location = &self.token_locations[i];
            if start < location.end && location.start < end {
                assert(overlaps(before[i as int], start as int, end as int));
                return false;
            }
            i += 1;
        }
        let mut position: usize = 0;
        assert(before.subrange(0, count as int) =~= before);
        while position < count && self.token_locations[position].end <= start
            invariant
                count == self.token_locations.len(),
                before == location_views(self.token_locations@),
                0 <= position <= count,
                insert_position(before, start as int) == position + insert_position(
                    before.subrange(position as int, count as int),
                    start as int,
                ),
            decreases count - position,
        {
            proof {
                let rest = before.subrange(position as int, count as int);
                assert(rest[0] == before[position as int]);
                assert(rest.drop_first() =~= before.subrange(position + 1, count as int));
            }
            position += 1;
        }
        proof {
            let rest = before.subrange(position as int, count as int);
            if position < count {
                assert(rest[0] == before[position as int]);
            }
            assert(insert_position(rest, start as int) == 0);
        }
        let location = TokenLocation {
            start,
            end,
            token_type,
            original_text: text,
            status: TokenLocationStatus::Active,
        };
        self.token_locations.insert(position, location);
        assert(location_views(self.token_locations@) =~= before.insert(position as int, location@));
        true
    }
}

} // verus!
