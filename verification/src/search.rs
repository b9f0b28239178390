use crate::tokinizer::{location_slot, location_views, LocationView, TokenLocation};
use crate::types::{token_matches, token_type_matches, Token, TokenType};
use vstd::prelude::*;

verus! {

/// What each token of a list offers to a pattern: its value.
pub open spec fn token_slots(tokens: Seq<Token>) -> Seq<Option<TokenType>> {
    tokens.map_values(|token: Token| Some(token.token))
}

/// What each location of a list offers to a pattern.
pub open spec fn location_slots(locations: Seq<LocationView>) -> Seq<Option<TokenType>> {
    locations.map_values(|location: LocationView| location_slot(location))
}

/// The elements of a pattern.
pub open spec fn pattern_elements(pattern: Seq<Token>) -> Seq<TokenType> {
    pattern.map_values(|token: Token| token.token)
}

/// A slot holds a value that matches the element.
pub open spec fn slot_matches(slot: Option<TokenType>, element: TokenType) -> bool {
    match slot {
        Some(token) => token_matches(token, element),
        None => false,
    }
}

/// The slots from `start` on meet the pattern, element by element.
pub open spec fn window_at(
    slots: Seq<Option<TokenType>>,
    pattern: Seq<TokenType>,
    start: int,
) -> bool {
    &&& 0 <= start
    &&& start + pattern.len() <= slots.len()
    &&& forall|k: int|
        0 <= k < pattern.len() ==> slot_matches(slots[start + k], #[trigger] pattern[k])
}

/// The first place at or after `from` where the slots meet the pattern.
pub open spec fn first_window(
    slots: Seq<Option<TokenType>>,
    pattern: Seq<TokenType>,
    from: int,
) -> Option<int>
    decreases slots.len() - from,
{
    if from < 0 || from + pattern.len() > slots.len() {
        None
    } else if window_at(slots, pattern, from) {
        Some(from)
    } else {
        first_window(slots, pattern, from + 1)
    }
}

/// `first_window` finds a window, the earliest one at or after `from`, and
/// finds none only where there is none.
pub proof fn lemma_first_window_is_earliest(
    slots: Seq<Option<TokenType>>,
    pattern: Seq<TokenType>,
    from: int,
)
    requires
        0 <= from,
    ensures
        match first_window(slots, pattern, from) {
            Some(start) => {
                &&& from <= start
                &&& window_at(slots, pattern, start)
                &&& forall|other: int| from <= other < start ==> !window_at(slots, pattern, other)
            },
            None => forall|other: int| from <= other ==> !window_at(slots, pattern, other),
        },
    decreases slots.len() - from,
{
    if from + pattern.len() > slots.len() {
    } else if window_at(slots, pattern, from) {
    } else {
        lemma_first_window_is_earliest(slots, pattern, from + 1);
    }
}

/// A window found in the slots of locations lies among active locations that
/// have a meaning: a removed location is part of no match.
pub proof fn lemma_window_is_active(
    locations: Seq<LocationView>,
    pattern: Seq<TokenType>,
    start: int,
)
    requires
        window_at(location_slots(locations), pattern, start),
    ensures
        forall|k: int|
            start <= k < start + pattern.len() ==> {
                &&& (#[trigger] locations[k]).status == crate::tokinizer::TokenLocationStatus::Active
                &&& locations[k].token_type is Some
            },
{
    assert forall|k: int| start <= k < start + pattern.len() implies {
        &&& (#[trigger] locations[k]).status == crate::tokinizer::TokenLocationStatus::Active
        &&& locations[k].token_type is Some
    } by {
        let element = pattern[k - start];
        assert(slot_matches(location_slots(locations)[start + (k - start)], element));
    }
}

/// The first window of `locations`, at or after `from`, that meets `rule`.
pub fn find_location_window(locations: &Vec<TokenLocation>, from: usize, rule: &Vec<Token>) -> (found:
    Option<usize>)
    ensures
        match found {
            Some(start) => first_window(
                location_slots(location_views(locations@)),
                pattern_elements(rule@),
                from as int,
            ) == Some(start as int),
            None => first_window(
                location_slots(location_views(locations@)),
                pattern_elements(rule@),
                from as int,
            ) is None,
        },
{
    let ghost slots = location_slots(location_views(locations@));
    let ghost pattern = pattern_elements(rule@);
    let count = locations.len();
    let width = rule.len();
    if width > count || from > count - width {
        return None;
    }
    let mut start: usize = from;
    while start <= count - width
        invariant
            count == locations.len(),
            width == rule.len(),
            width <= count,
            from <= start <= count - width + 1,
            slots == location_slots(location_views(locations@)),
            pattern == pattern_elements(rule@),
            first_window(slots, pattern, from as int) == first_window(slots, pattern, start as int),
        decreases count - width + 1 - start,
    {
        let mut k: usize = 0;
        let mut matched = true;
        while k < width
            invariant_except_break
                matched,
                forall|j: int| 0 <= j < k ==> slot_matches(slots[start + j], #[trigger] pattern[j]),
            invariant
                count == locations.len(),
                width == rule.len(),
                start + width <= count,
                0 <= k <= width,
                slots == location_slots(location_views(locations@)),
                pattern == pattern_elements(rule@),
            ensures
                matched ==> window_at(slots, pattern, start as int),
                !matched ==> !window_at(slots, pattern, start as int),
            decreases width - k,
        {
            if !locations[start + k].matches_token(&rule[k].token) {
                assert(!slot_matches(slots[start + k], pattern[k as int]));
                matched = false;
                break;
            }
            k += 1;
        }
        if matched {
            return Some(start);
        }
        start += 1;
    }
    None
}

impl Token {
    /// Looks for `rule_tokens` in `tokens`: the index of the first run of
    /// consecutive tokens that meet the rule's tokens one by one, or `None`
    /// where no run does. An empty rule is met at index 0.
    pub fn is_same(tokens: &Vec<Token>, rule_tokens: &Vec<Token>) -> (found: Option<usize>)
        ensures
            match found {
                Some(start) => first_window(
                    token_slots(tokens@),
                    pattern_elements(rule_tokens@),
                    0,
                ) == Some(start as int),
                None => first_window(token_slots(tokens@), pattern_elements(rule_tokens@), 0) is None,
            },
    {
        let ghost slots = token_slots(tokens@);
        let ghost pattern = pattern_elements(rule_tokens@);
        let count = tokens.len();
        let width = rule_tokens.len();
        if width > count {
            return None;
        }
        let mut start: usize = 0;
        while start <= count - width
            invariant
                count == tokens.len(),
                width == rule_tokens.len(),
                width <= count,
                0 <= start <= count - width + 1,
                slots == token_slots(tokens@),
                pattern == pattern_elements(rule_tokens@),
                first_window(slots, pattern, 0) == first_window(slots, pattern, start as int),
            decreases count - width + 1 - start,
        {
            let mut k: usize = 0;
            let mut matched = true;
            while k < width
                invariant_except_break
                    matched,
                    forall|j: int|
                        0 <= j < k ==> slot_matches(slots[start + j], #[trigger] pattern[j]),
                invariant
                    count == tokens.len(),
                    width == rule_tokens.len(),
                    start + width <= count,
                    0 <= k <= width,
                    slots == token_slots(tokens@),
                    pattern == pattern_elements(rule_tokens@),
                ensures
                    matched ==> window_at(slots, pattern, start as int),
                    !matched ==> !window_at(slots, pattern, start as int),
                decreases width - k,
            {
                if !token_type_matches(&tokens[start + k].token, &rule_tokens[k].token) {
                    assert(!slot_matches(slots[start + k], pattern[k as int]));
                    matched = false;
                    break;
                }
                k += 1;
            }
            if matched {
                return Some(start);
            }
            start += 1;
        }
        None
    }

    /// Looks for `rule_tokens` among token locations, as [`Token::is_same`]
    /// does among tokens. Only an active location with a meaning can meet an
    /// element of the rule.
    pub fn is_same_location(tokens: &Vec<TokenLocation>, rule_tokens: &Vec<Token>) -> (found: Option<
        usize,
    >)
        ensures
            match found {
                Some(start) => first_window(
                    location_slots(location_views(tokens@)),
                    pattern_elements(rule_tokens@),
                    0,
                ) == Some(start as int),
                None => first_window(
                    location_slots(location_views(tokens@)),
                    pattern_elements(rule_tokens@),
                    0,
                ) is None,
            },
    {
        find_location_window(tokens, 0, rule_tokens)
    }
}

} // verus!
