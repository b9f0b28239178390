use crate::binary64::Binary64;
use crate::formula::{answers_all, computes, Formula};
use crate::pattern::{
    capture_models, find_captures, regex_captures, span_text, RegexCapture, TokenRegex,
};
use crate::syntax::meaningful;
use crate::tokinizer::comment::{line_of, Marked};
use crate::config::SmartCalcConfig;
use crate::tokinizer::family::{family_plan, number_formula, plan_token, TokenFamily, TokenPlan};
use crate::tokinizer::{
    insert_position, location_views, span_free, spans_ordered, with_location, LocationView,
    TokenLocation, TokenLocationStatus, Tokinizer, UiToken, UiTokenType,
};
use crate::types::TokenType;
use crate::worker::tools::settled;
use vstd::prelude::*;

verus! {

/// The patterns of one token family.
#[derive(Debug)]
pub struct FamilyPatterns {
    pub family: TokenFamily,
    pub patterns: Vec<TokenRegex>,
}

/// The patterns of the token families, in the order in which the families
/// are declared: that is the order in which they have their turn.
#[derive(Debug)]
pub struct TokenParseRegexes {
    pub families: Vec<FamilyPatterns>,
}

/// What the patterns of one family found in a text: for each pattern, in
/// their order, its matches from left to right.
#[derive(Debug)]
pub struct FamilyCaptures {
    pub family: TokenFamily,
    pub captures: Vec<Vec<RegexCapture>>,
}

/// A byte of the text that no family recognised.
#[derive(Clone, Copy, Debug, PartialEq, Eq, Structural)]
pub struct TokenizeError {
    pub offset: usize,
}

/// The captures are those that a pattern has in the text.
pub open spec fn captured(captures: Seq<RegexCapture>, pattern: Seq<char>, text: Seq<char>) -> bool {
    &&& capture_models(captures) == regex_captures(pattern, text)
    &&& forall|i: int|
        0 <= i < captures.len() ==> (#[trigger] captures[i]).text@ == span_text(
            text,
            captures[i].start as int,
            captures[i].end as int,
        )
}

/// The captures are those that the patterns of every family have in the
/// text: one entry for each family in the order of the families, in it one
/// list for each pattern of the family in their order.
pub open spec fn found_in(
    found: Seq<FamilyCaptures>,
    families: Seq<FamilyPatterns>,
    text: Seq<char>,
) -> bool {
    &&& found.len() == families.len()
    &&& forall|f: int|
        0 <= f < found.len() ==> {
            &&& (#[trigger] found[f]).family == families[f].family
            &&& found[f].captures@.len() == families[f].patterns@.len()
        }
    &&& forall|f: int, p: int|
        0 <= f < found.len() && 0 <= p < found[f].captures@.len() ==> captured(
            #[trigger] found[f].captures@[p]@,
            families[f].patterns@[p]@,
            text,
        )
}

/// The meaning of a location that is recognised by a plan, where formulas
/// have the values that `values` gives them.
pub open spec fn plan_meaning(plan: TokenPlan, values: spec_fn(Formula) -> Binary64) -> Option<
    TokenType,
> {
    match plan {
        TokenPlan::Meaningless => None,
        TokenPlan::Token(token) => Some(token),
        TokenPlan::Compute(formula, unit) => Some(settled(unit, values(formula))),
    }
}

/// A line after one match of a family's pattern. The match is passed over
/// if it is nothing of the family after all, or if its span is not free;
/// else the span is recognised, and noted if it is a comment.
pub open spec fn with_capture(
    line: Marked,
    family: TokenFamily,
    capture: RegexCapture,
    config: SmartCalcConfig,
    values: spec_fn(Formula) -> Binary64,
) -> Marked {
    match family_plan(family, capture.groups@, config) {
        None => line,
        Some(plan) => if span_free(line.locations, capture.start as int, capture.end as int) {
            Marked {
                locations: with_location(
                    line.locations,
                    LocationView {
                        start: capture.start,
                        end: capture.end,
                        token_type: plan_meaning(plan, values),
                        text: capture.text@,
                        status: TokenLocationStatus::Active,
                    },
                ),
                notes: if family == TokenFamily::Comment {
                    line.notes.push(
                        UiToken {
                            start: capture.start,
                            end: capture.end,
                            ui_type: UiTokenType::Comment,
                        },
                    )
                } else {
                    line.notes
                },
            }
        } else {
            line
        },
    }
}

/// A line after the first `upto` matches of a pattern, from left to right.
pub open spec fn with_captures(
    line: Marked,
    family: TokenFamily,
    captures: Seq<RegexCapture>,
    config: SmartCalcConfig,
    values: spec_fn(Formula) -> Binary64,
    upto: int,
) -> Marked
    decreases upto,
{
    if upto <= 0 {
        line
    } else {
        with_capture(
            with_captures(line, family, captures, config, values, upto - 1),
            family,
            captures[upto - 1],
            config,
            values,
        )
    }
}

/// A line after the matches of the first `upto` patterns of a family.
pub open spec fn with_patterns(
    line: Marked,
    family: TokenFamily,
    lists: Seq<Vec<RegexCapture>>,
    config: SmartCalcConfig,
    values: spec_fn(Formula) -> Binary64,
    upto: int,
) -> Marked
    decreases upto,
{
    if upto <= 0 {
        line
    } else {
        with_captures(
            with_patterns(line, family, lists, config, values, upto - 1),
            family,
            lists[upto - 1]@,
            config,
            values,
            lists[upto - 1]@.len() as int,
        )
    }
}

/// A line after the first `upto` families had their turn, in their order.
pub open spec fn with_families(
    line: Marked,
    found: Seq<FamilyCaptures>,
    config: SmartCalcConfig,
    values: spec_fn(Formula) -> Binary64,
    upto: int,
) -> Marked
    decreases upto,
{
    if upto <= 0 {
        line
    } else {
        with_patterns(
            with_families(line, found, config, values, upto - 1),
            found[upto - 1].family,
            found[upto - 1].captures@,
            config,
            values,
            found[upto - 1].captures@.len() as int,
        )
    }
}

/// The first byte, at or after `expected`, that none of the locations
/// from `from` on covers, in a text of `length` bytes.
pub open spec fn gap(locations: Seq<LocationView>, from: int, expected: int, length: int) -> Option<
    int,
>
    decreases locations.len() - from,
{
    if from < 0 || from >= locations.len() {
        if expected < length {
            Some(expected)
        } else {
            None
        }
    } else if locations[from].start > expected {
        Some(expected)
    } else {
        gap(
            locations,
            from + 1,
            if locations[from].end > expected {
                locations[from].end as int
            } else {
                expected
            },
            length,
        )
    }
}

/// The line on which nothing is recognised yet.
pub open spec fn blank_line() -> Marked {
    Marked { locations: Seq::empty(), notes: Seq::empty() }
}

/// What tokenizing comes to once every family had its turn: the
/// locations that have a meaning, if all locations together cover the
/// text, and the first byte that none covers otherwise.
pub open spec fn outcome(
    result: Result<Vec<TokenLocation>, TokenizeError>,
    locations: Seq<LocationView>,
    length: int,
) -> bool {
    match gap(locations, 0, 0, length) {
        Some(offset) => result matches Err(error) && error.offset == offset,
        None => result matches Ok(tokens) && location_views(tokens@) == meaningful(locations),
    }
}

/// The line holds one location, which covers the text from its first byte
/// up to `length`.
pub open spec fn one_location(line: Marked, length: int) -> bool {
    &&& line.locations.len() == 1
    &&& line.locations[0].start == 0
    &&& line.locations[0].end == length
}

/// The line holds one location, which has no meaning and covers the text
/// from its first byte up to `length`.
pub open spec fn one_comment(line: Marked, length: int) -> bool {
    &&& one_location(line, length)
    &&& line.locations[0].token_type is None
}

/// Every match holds a byte and lies within the first `length` bytes.
pub open spec fn matches_within(captures: Seq<RegexCapture>, length: int) -> bool {
    forall|c: int|
        0 <= c < captures.len() ==> (#[trigger] captures[c]).start < captures[c].end <= length
}

/// The same of the matches of every pattern of a family.
pub open spec fn lists_within(lists: Seq<Vec<RegexCapture>>, length: int) -> bool {
    forall|p: int| 0 <= p < lists.len() ==> matches_within((#[trigger] lists[p])@, length)
}

/// The same of the matches of every pattern of every family.
pub open spec fn all_within(found: Seq<FamilyCaptures>, length: int) -> bool {
    forall|f: int| 0 <= f < found.len() ==> lists_within((#[trigger] found[f]).captures@, length)
}

/// Every one of the matches is passed over: it is nothing of the family
/// after all.
pub open spec fn passed_over(
    family: TokenFamily,
    captures: Seq<RegexCapture>,
    config: SmartCalcConfig,
) -> bool {
    forall|c: int|
        0 <= c < captures.len() ==> family_plan(family, (#[trigger] captures[c]).groups@, config)
             is None
}

/// The first match of the pattern `pattern` of the family at `position`
/// is the first that is not passed over: every match of a family that has
/// its turn before, and of a pattern of the same family that stands before,
/// is nothing of its family after all.
pub open spec fn first_recognised(
    found: Seq<FamilyCaptures>,
    config: SmartCalcConfig,
    position: int,
    pattern: int,
) -> bool {
    &&& 0 <= position < found.len()
    &&& 0 <= pattern < found[position].captures@.len()
    &&& found[position].captures@[pattern]@.len() > 0
    &&& forall|f: int, p: int|
        0 <= f < position && 0 <= p < found[f].captures@.len() ==> passed_over(
            found[f].family,
            (#[trigger] found[f].captures@[p])@,
            config,
        )
    &&& forall|p: int|
        0 <= p < pattern ==> passed_over(
            found[position].family,
            (#[trigger] found[position].captures@[p])@,
            config,
        )
}

/// On a line that one location covers, a match within the text changes
/// nothing: its span is taken.
pub proof fn lemma_covered_line_stays(
    line: Marked,
    family: TokenFamily,
    capture: RegexCapture,
    config: SmartCalcConfig,
    values: spec_fn(Formula) -> Binary64,
    length: int,
)
    requires
        one_location(line, length),
        capture.start < capture.end <= length,
    ensures
        with_capture(line, family, capture, config, values) == line,
{
    assert(crate::tokinizer::overlaps(line.locations[0], capture.start as int, capture.end as int));
}

/// Once the first `from` matches of a pattern have left the line covered
/// by one location, the other matches of the pattern change nothing.
pub proof fn lemma_matches_after_cover(
    start: Marked,
    family: TokenFamily,
    captures: Seq<RegexCapture>,
    config: SmartCalcConfig,
    values: spec_fn(Formula) -> Binary64,
    length: int,
    from: int,
    upto: int,
)
    requires
        0 <= from <= upto <= captures.len(),
        one_location(with_captures(start, family, captures, config, values, from), length),
        matches_within(captures, length),
    ensures
        with_captures(start, family, captures, config, values, upto) == with_captures(
            start,
            family,
            captures,
            config,
            values,
            from,
        ),
    decreases upto,
{
    if upto > from {
        lemma_matches_after_cover(start, family, captures, config, values, length, from, upto - 1);
        lemma_covered_line_stays(
            with_captures(start, family, captures, config, values, from),
            family,
            captures[upto - 1],
            config,
            values,
            length,
        );
    }
}

/// Once the first `from` patterns of a family have left the line covered
/// by one location, the other patterns of the family change nothing.
pub proof fn lemma_patterns_after_cover(
    start: Marked,
    family: TokenFamily,
    lists: Seq<Vec<RegexCapture>>,
    config: SmartCalcConfig,
    values: spec_fn(Formula) -> Binary64,
    length: int,
    from: int,
    upto: int,
)
    requires
        0 <= from <= upto <= lists.len(),
        one_location(with_patterns(start, family, lists, config, values, from), length),
        lists_within(lists, length),
    ensures
        with_patterns(start, family, lists, config, values, upto) == with_patterns(
            start,
            family,
            lists,
            config,
            values,
            from,
        ),
    decreases upto,
{
    if upto > from {
        lemma_patterns_after_cover(start, family, lists, config, values, length, from, upto - 1);
        let kept = with_patterns(start, family, lists, config, values, from);
        let captures = lists[upto - 1]@;
        assert(matches_within(captures, length));
        assert(with_captures(kept, family, captures, config, values, 0) == kept);
        lemma_matches_after_cover(
            kept,
            family,
            captures,
            config,
            values,
            length,
            0,
            captures.len() as int,
        );
    }
}

/// Once the first `from` families have left the line covered by one
/// location, the turns of the other families change nothing.
pub proof fn lemma_families_after_cover(
    start: Marked,
    found: Seq<FamilyCaptures>,
    config: SmartCalcConfig,
    values: spec_fn(Formula) -> Binary64,
    length: int,
    from: int,
    upto: int,
)
    requires
        0 <= from <= upto <= found.len(),
        one_location(with_families(start, found, config, values, from), length),
        all_within(found, length),
    ensures
        with_families(start, found, config, values, upto) == with_families(
            start,
            found,
            config,
            values,
            from,
        ),
    decreases upto,
{
    if upto > from {
        lemma_families_after_cover(start, found, config, values, length, from, upto - 1);
        let kept = with_families(start, found, config, values, from);
        let lists = found[upto - 1].captures@;
        assert(lists_within(lists, length));
        assert(with_patterns(kept, found[upto - 1].family, lists, config, values, 0) == kept);
        lemma_patterns_after_cover(
            kept,
            found[upto - 1].family,
            lists,
            config,
            values,
            length,
            0,
            lists.len() as int,
        );
    }
}

/// Matches that are passed over leave a line as it is.
pub proof fn lemma_matches_passed_over(
    line: Marked,
    family: TokenFamily,
    captures: Seq<RegexCapture>,
    config: SmartCalcConfig,
    values: spec_fn(Formula) -> Binary64,
    upto: int,
)
    requires
        upto <= captures.len(),
        passed_over(family, captures, config),
    ensures
        with_captures(line, family, captures, config, values, upto) == line,
    decreases upto,
{
    if upto > 0 {
        lemma_matches_passed_over(line, family, captures, config, values, upto - 1);
        assert(family_plan(family, captures[upto - 1].groups@, config) is None);
    }
}

/// Patterns whose matches are all passed over leave a line as it is.
pub proof fn lemma_patterns_passed_over(
    line: Marked,
    family: TokenFamily,
    lists: Seq<Vec<RegexCapture>>,
    config: SmartCalcConfig,
    values: spec_fn(Formula) -> Binary64,
    upto: int,
)
    requires
        upto <= lists.len(),
        forall|p: int| 0 <= p < upto ==> passed_over(family, (#[trigger] lists[p])@, config),
    ensures
        with_patterns(line, family, lists, config, values, upto) == line,
    decreases upto,
{
    if upto > 0 {
        lemma_patterns_passed_over(line, family, lists, config, values, upto - 1);
        assert(passed_over(family, lists[upto - 1]@, config));
        lemma_matches_passed_over(
            line,
            family,
            lists[upto - 1]@,
            config,
            values,
            lists[upto - 1]@.len() as int,
        );
    }
}

/// Families whose matches are all passed over leave a line as it is.
pub proof fn lemma_families_passed_over(
    line: Marked,
    found: Seq<FamilyCaptures>,
    config: SmartCalcConfig,
    values: spec_fn(Formula) -> Binary64,
    upto: int,
)
    requires
        upto <= found.len(),
        forall|f: int, p: int|
            0 <= f < upto && 0 <= p < found[f].captures@.len() ==> passed_over(
                found[f].family,
                (#[trigger] found[f].captures@[p])@,
                config,
            ),
    ensures
        with_families(line, found, config, values, upto) == line,
    decreases upto,
{
    if upto > 0 {
        lemma_families_passed_over(line, found, config, values, upto - 1);
        let lists = found[upto - 1].captures@;
        assert forall|p: int| 0 <= p < lists.len() implies passed_over(
            found[upto - 1].family,
            (#[trigger] lists[p])@,
            config,
        ) by {
            assert(passed_over(found[upto - 1].family, found[upto - 1].captures@[p]@, config));
        }
        lemma_patterns_passed_over(
            line,
            found[upto - 1].family,
            lists,
            config,
            values,
            lists.len() as int,
        );
    }
}

/// Whoever claims the whole text first keeps it.
///
/// Where the first match that is not passed over spans the text, it stays
/// the only location of the line, whatever else the patterns of any family
/// match in the text: every other match lies within its span.
pub proof fn lemma_first_match_takes_the_line(
    found: Seq<FamilyCaptures>,
    config: SmartCalcConfig,
    values: spec_fn(Formula) -> Binary64,
    position: int,
    pattern: int,
    length: int,
)
    requires
        first_recognised(found, config, position, pattern),
        all_within(found, length),
        found[position].captures@[pattern]@[0].start == 0,
        found[position].captures@[pattern]@[0].end == length,
        family_plan(
            found[position].family,
            found[position].captures@[pattern]@[0].groups@,
            config,
        ) is Some,
    ensures
        with_families(blank_line(), found, config, values, found.len() as int) == with_capture(
            blank_line(),
            found[position].family,
            found[position].captures@[pattern]@[0],
            config,
            values,
        ),
        one_location(
            with_families(blank_line(), found, config, values, found.len() as int),
            length,
        ),
{
    let empty = blank_line();
    let family = found[position].family;
    let lists = found[position].captures@;
    let captures = lists[pattern]@;
    let capture = captures[0];
    let begun = with_capture(empty, family, capture, config, values);
    assert(span_free(empty.locations, 0, length));
    assert(insert_position(empty.locations, 0) == 0);
    assert(one_location(begun, length));
    lemma_families_passed_over(empty, found, config, values, position);
    lemma_patterns_passed_over(empty, family, lists, config, values, pattern);
    assert(lists_within(lists, length));
    assert(matches_within(captures, length));
    assert(with_captures(empty, family, captures, config, values, 1) == with_capture(
        with_captures(empty, family, captures, config, values, 0),
        family,
        capture,
        config,
        values,
    ));
    lemma_matches_after_cover(
        empty,
        family,
        captures,
        config,
        values,
        length,
        1,
        captures.len() as int,
    );
    assert(with_patterns(empty, family, lists, config, values, pattern + 1) == begun);
    lemma_patterns_after_cover(
        empty,
        family,
        lists,
        config,
        values,
        length,
        pattern + 1,
        lists.len() as int,
    );
    assert(with_families(empty, found, config, values, position + 1) == begun);
    lemma_families_after_cover(
        empty,
        found,
        config,
        values,
        length,
        position + 1,
        found.len() as int,
    );
}

/// A line that is a comment means nothing, whatever stands in it.
///
/// Where the comments have their turn first and the first match of the
/// first comment pattern spans the text, that match stays the only
/// location of the line, whatever else the patterns of any family match in
/// the text: tokenizing yields no token. The families in the order of
/// [`TokenParseRegexes::comments_first`] meet the first condition.
pub proof fn lemma_comment_line_means_nothing(
    found: Seq<FamilyCaptures>,
    config: SmartCalcConfig,
    values: spec_fn(Formula) -> Binary64,
    length: int,
)
    requires
        found.len() > 0,
        found[0].family == TokenFamily::Comment,
        found[0].captures@.len() > 0,
        found[0].captures@[0]@.len() > 0,
        found[0].captures@[0]@[0].start == 0,
        found[0].captures@[0]@[0].end == length,
        all_within(found, length),
    ensures
        one_comment(with_families(blank_line(), found, config, values, found.len() as int), length),
        meaningful(
            with_families(blank_line(), found, config, values, found.len() as int).locations,
        ) == Seq::<LocationView>::empty(),
        gap(
            with_families(blank_line(), found, config, values, found.len() as int).locations,
            0,
            0,
            length,
        ) is None,
{
    let comment = found[0].captures@[0]@[0];
    assert(span_free(blank_line().locations, 0, length));
    assert(insert_position(blank_line().locations, 0) == 0);
    lemma_first_match_takes_the_line(found, config, values, 0, 0, length);
    let line = with_families(blank_line(), found, config, values, found.len() as int);
    assert(line == with_capture(blank_line(), TokenFamily::Comment, comment, config, values));
    assert(one_comment(line, length));
    assert(line.locations.drop_last() =~= Seq::<LocationView>::empty());
    assert(meaningful(line.locations.drop_last()) =~= Seq::<LocationView>::empty());
    assert(gap(line.locations, 1, length, length) is None);
}

/// A numeric literal becomes exactly one number.
///
/// Where a match of a number pattern spans the whole text and denotes a
/// number, and is the first match that is not passed over, tokenizing
/// yields one location, whatever else the patterns of any family match in
/// the text. The location spans the text and holds, as a number, the value
/// of the formula that the literal denotes. For a literal in the
/// hexadecimal, octal or binary system that formula is the whole number
/// that its digits spell in the system; for a decimal literal it is the
/// number that its digits denote, times the factor of its notation letter
/// if it has one.
pub proof fn lemma_numeric_literal_is_one_number(
    found: Seq<FamilyCaptures>,
    config: SmartCalcConfig,
    values: spec_fn(Formula) -> Binary64,
    position: int,
    pattern: int,
    capture: RegexCapture,
    formula: Formula,
    length: int,
)
    requires
        first_recognised(found, config, position, pattern),
        all_within(found, length),
        found[position].family == TokenFamily::Number,
        found[position].captures@[pattern]@[0] == capture,
        capture.start == 0,
        capture.end == length,
        number_formula(capture.groups@, config) == Some(formula),
    ensures
        with_families(blank_line(), found, config, values, found.len() as int).locations == seq![
            LocationView {
                start: 0,
                end: capture.end,
                token_type: Some(TokenType::Number(values(formula))),
                text: capture.text@,
                status: TokenLocationStatus::Active,
            },
        ],
        gap(
            with_families(blank_line(), found, config, values, found.len() as int).locations,
            0,
            0,
            length,
        ) is None,
{
    let empty = blank_line();
    lemma_first_match_takes_the_line(found, config, values, position, pattern, length);
    let location = LocationView {
        start: 0,
        end: capture.end,
        token_type: Some(TokenType::Number(values(formula))),
        text: capture.text@,
        status: TokenLocationStatus::Active,
    };
    let after = with_capture(empty, TokenFamily::Number, capture, config, values);
    assert(span_free(empty.locations, 0, length));
    assert(insert_position(empty.locations, 0) == 0);
    assert(after.locations =~= seq![location]);
    assert(gap(after.locations, 1, length, length) is None);
}

impl TokenParseRegexes {
    /// The patterns of the families in the order of their declaration:
    /// percent, time, money, number, text, field, atom, whitespace,
    /// operator, comment.
    ///
    /// In this order a family that stands late finds taken what an earlier
    /// one claimed. With patterns for numbers and texts that match digits
    /// and letters wherever they stand, a comment keeps only what no
    /// earlier family recognised in it (in `#123` the number is a token),
    /// and the name of a placeholder or an atom is read as a text. Use
    /// [`TokenParseRegexes::comments_first`] where comments are to mean
    /// nothing and rule patterns are to be read.
    pub fn new(
        percent: Vec<TokenRegex>,
        time: Vec<TokenRegex>,
        money: Vec<TokenRegex>,
        number: Vec<TokenRegex>,
        text: Vec<TokenRegex>,
        field: Vec<TokenRegex>,
        atom: Vec<TokenRegex>,
        whitespace: Vec<TokenRegex>,
        operator: Vec<TokenRegex>,
        comment: Vec<TokenRegex>,
    ) -> (regexes: TokenParseRegexes)
        ensures
            regexes.families@ == seq![
                FamilyPatterns { family: TokenFamily::Percent, patterns: percent },
                FamilyPatterns { family: TokenFamily::Time, patterns: time },
                FamilyPatterns { family: TokenFamily::Money, patterns: money },
                FamilyPatterns { family: TokenFamily::Number, patterns: number },
                FamilyPatterns { family: TokenFamily::Text, patterns: text },
                FamilyPatterns { family: TokenFamily::Field, patterns: field },
                FamilyPatterns { family: TokenFamily::Atom, patterns: atom },
                FamilyPatterns { family: TokenFamily::Whitespace, patterns: whitespace },
                FamilyPatterns { family: TokenFamily::Operator, patterns: operator },
                FamilyPatterns { family: TokenFamily::Comment, patterns: comment },
            ],
    {
        let mut families: Vec<FamilyPatterns> = Vec::new();
        families.push(FamilyPatterns { family: TokenFamily::Percent, patterns: percent });
        families.push(FamilyPatterns { family: TokenFamily::Time, patterns: time });
        families.push(FamilyPatterns { family: TokenFamily::Money, patterns: money });
        families.push(FamilyPatterns { family: TokenFamily::Number, patterns: number });
        families.push(FamilyPatterns { family: TokenFamily::Text, patterns: text });
        families.push(FamilyPatterns { family: TokenFamily::Field, patterns: field });
        families.push(FamilyPatterns { family: TokenFamily::Atom, patterns: atom });
        families.push(FamilyPatterns { family: TokenFamily::Whitespace, patterns: whitespace });
        families.push(FamilyPatterns { family: TokenFamily::Operator, patterns: operator });
        families.push(FamilyPatterns { family: TokenFamily::Comment, patterns: comment });
        assert(families@ =~= seq![
            FamilyPatterns { family: TokenFamily::Percent, patterns: percent },
            FamilyPatterns { family: TokenFamily::Time, patterns: time },
            FamilyPatterns { family: TokenFamily::Money, patterns: money },
            FamilyPatterns { family: TokenFamily::Number, patterns: number },
            FamilyPatterns { family: TokenFamily::Text, patterns: text },
            FamilyPatterns { family: TokenFamily::Field, patterns: field },
            FamilyPatterns { family: TokenFamily::Atom, patterns: atom },
            FamilyPatterns { family: TokenFamily::Whitespace, patterns: whitespace },
            FamilyPatterns { family: TokenFamily::Operator, patterns: operator },
            FamilyPatterns { family: TokenFamily::Comment, patterns: comment },
        ]);
        TokenParseRegexes { families }
    }

    /// The patterns of the families in the order in which comments,
    /// placeholders and atoms keep what is theirs: comment, field, atom,
    /// percent, time, money, number, text, whitespace, operator.
    ///
    /// A comment has its turn before the numbers and words that stand in
    /// it, and a placeholder or an atom before the letters and signs that
    /// spell it. This is the order in which rule patterns are read and in
    /// which a comment line yields no token.
    pub fn comments_first(
        percent: Vec<TokenRegex>,
        time: Vec<TokenRegex>,
        money: Vec<TokenRegex>,
        number: Vec<TokenRegex>,
        text: Vec<TokenRegex>,
        field: Vec<TokenRegex>,
        atom: Vec<TokenRegex>,
        whitespace: Vec<TokenRegex>,
        operator: Vec<TokenRegex>,
        comment: Vec<TokenRegex>,
    ) -> (regexes: TokenParseRegexes)
        ensures
            regexes.families@ == seq![
                FamilyPatterns { family: TokenFamily::Comment, patterns: comment },
                FamilyPatterns { family: TokenFamily::Field, patterns: field },
                FamilyPatterns { family: TokenFamily::Atom, patterns: atom },
                FamilyPatterns { family: TokenFamily::Percent, patterns: percent },
                FamilyPatterns { family: TokenFamily::Time, patterns: time },
                FamilyPatterns { family: TokenFamily::Money, patterns: money },
                FamilyPatterns { family: TokenFamily::Number, patterns: number },
                FamilyPatterns { family: TokenFamily::Text, patterns: text },
                FamilyPatterns { family: TokenFamily::Whitespace, patterns: whitespace },
                FamilyPatterns { family: TokenFamily::Operator, patterns: operator },
            ],
    {
        let mut families: Vec<FamilyPatterns> = Vec::new();
        families.push(FamilyPatterns { family: TokenFamily::Comment, patterns: comment });
        families.push(FamilyPatterns { family: TokenFamily::Field, patterns: field });
        families.push(FamilyPatterns { family: TokenFamily::Atom, patterns: atom });
        families.push(FamilyPatterns { family: TokenFamily::Percent, patterns: percent });
        families.push(FamilyPatterns { family: TokenFamily::Time, patterns: time });
        families.push(FamilyPatterns { family: TokenFamily::Money, patterns: money });
        families.push(FamilyPatterns { family: TokenFamily::Number, patterns: number });
        families.push(FamilyPatterns { family: TokenFamily::Text, patterns: text });
        families.push(FamilyPatterns { family: TokenFamily::Whitespace, patterns: whitespace });
        families.push(FamilyPatterns { family: TokenFamily::Operator, patterns: operator });
        assert(families@ =~= seq![
            FamilyPatterns { family: TokenFamily::Comment, patterns: comment },
            FamilyPatterns { family: TokenFamily::Field, patterns: field },
            FamilyPatterns { family: TokenFamily::Atom, patterns: atom },
            FamilyPatterns { family: TokenFamily::Percent, patterns: percent },
            FamilyPatterns { family: TokenFamily::Time, patterns: time },
            FamilyPatterns { family: TokenFamily::Money, patterns: money },
            FamilyPatterns { family: TokenFamily::Number, patterns: number },
            FamilyPatterns { family: TokenFamily::Text, patterns: text },
            FamilyPatterns { family: TokenFamily::Whitespace, patterns: whitespace },
            FamilyPatterns { family: TokenFamily::Operator, patterns: operator },
        ]);
        TokenParseRegexes { families }
    }
}

/// A line that one comment covers is tokenized to no token.
///
/// Stated of the families in the order of
/// [`TokenParseRegexes::comments_first`], or in any order in which the
/// comments have their turn first: where the first match of the first
/// comment pattern spans the text and every match of every pattern holds
/// a byte within the text, the result of tokenizing is a list without a
/// location.
pub proof fn lemma_comment_line_has_no_token(
    result: Result<Vec<TokenLocation>, TokenizeError>,
    families: Seq<FamilyPatterns>,
    found: Seq<FamilyCaptures>,
    text: Seq<char>,
    config: SmartCalcConfig,
    values: spec_fn(Formula) -> Binary64,
    length: int,
)
    requires
        families.len() > 0,
        families[0].family == TokenFamily::Comment,
        found_in(found, families, text),
        found[0].captures@.len() > 0,
        found[0].captures@[0]@.len() > 0,
        found[0].captures@[0]@[0].start == 0,
        found[0].captures@[0]@[0].end == length,
        all_within(found, length),
        outcome(
            result,
            with_families(blank_line(), found, config, values, found.len() as int).locations,
            length,
        ),
    ensures
        result matches Ok(tokens) && tokens@.len() == 0,
{
    lemma_comment_line_means_nothing(found, config, values, length);
    let tokens = result->Ok_0;
    assert(location_views(tokens@).len() == tokens@.len());
}

/// Searches a text with the patterns of every family.
pub fn find_all(regexes: &TokenParseRegexes, text: &str) -> (found: Vec<FamilyCaptures>)
    ensures
        found_in(found@, regexes.families@, text@),
{
    let mut found: Vec<FamilyCaptures> = Vec::new();
    let mut position: usize = 0;
    while position < regexes.families.len()
        invariant
            0 <= position <= regexes.families@.len(),
            found@.len() == position,
            forall|f: int|
                0 <= f < position ==> {
                    &&& (#[trigger] found@[f]).family == regexes.families@[f].family
                    &&& found@[f].captures@.len() == regexes.families@[f].patterns@.len()
                },
            forall|f: int, p: int|
                0 <= f < position && 0 <= p < found@[f].captures@.len() ==> captured(
                    #[trigger] found@[f].captures@[p]@,
                    regexes.families@[f].patterns@[p]@,
                    text@,
                ),
        decreases regexes.families@.len() - position,
    {
        let patterns = &regexes.families[position].patterns;
        let mut lists: Vec<Vec<RegexCapture>> = Vec::new();
        let mut index: usize = 0;
        while index < patterns.len()
            invariant
                0 <= index <= patterns.len(),
                lists@.len() == index,
                forall|p: int|
                    0 <= p < index ==> captured(#[trigger] lists@[p]@, patterns@[p]@, text@),
            decreases patterns.len() - index,
        {
            let captures = find_captures(&patterns[index], text);
            lists.push(captures);
            index += 1;
        }
        found.push(FamilyCaptures { family: regexes.families[position].family, captures: lists });
        position += 1;
    }
    found
}

/// Recognises one match of a family's pattern on the line.
pub fn recognise<E: Fn(Formula) -> Binary64>(
    tokinizer: &mut Tokinizer,
    family: TokenFamily,
    capture: &RegexCapture,
    config: &SmartCalcConfig,
    eval: &E,
)
    requires
        answers_all(eval),
    ensures
        forall|values: spec_fn(Formula) -> Binary64| #[trigger]
            computes(eval, values) ==> line_of(*final(tokinizer)) == with_capture(
                line_of(*old(tokinizer)),
                family,
                *capture,
                *config,
                values,
            ),
        family_plan(family, capture.groups@, *config) is None ==> line_of(*final(tokinizer))
            == line_of(*old(tokinizer)),
        final(tokinizer).data == old(tokinizer).data,
        spans_ordered(location_views(old(tokinizer).token_locations@)) ==> spans_ordered(
            location_views(final(tokinizer).token_locations@),
        ),
{
    let plan = match plan_token(family, capture, config) {
        Some(plan) => plan,
        None => {
            return ;
        },
    };
    let ghost planned = plan;
    let token_type = match plan {
        TokenPlan::Meaningless => None,
        TokenPlan::Token(token) => Some(token),
        TokenPlan::Compute(formula, unit) => {
            let ghost asked = formula;
            let value = eval(formula);
            assert(call_ensures(*eval, (asked,), value));
            Some(unit.settle(value))
        },
    };
    assert forall|values: spec_fn(Formula) -> Binary64| #[trigger]
        computes(eval, values) implies token_type == plan_meaning(planned, values) by {}
    let added = tokinizer.add_token_location(
        capture.start,
        capture.end,
        token_type,
        capture.text.clone(),
    );
    if added {
        match family {
            TokenFamily::Comment => {
                tokinizer.ui_tokens.push(
                    UiToken {
                        start: capture.start,
                        end: capture.end,
                        ui_type: UiTokenType::Comment,
                    },
                );
            },
            _ => {},
        }
    }
}

/// Recognises on the line what the patterns of the families found, family
/// by family in the order of the families, pattern by pattern, match by
/// match from left to right. Whoever claims a region first keeps it.
pub fn tokenize_found<E: Fn(Formula) -> Binary64>(
    tokinizer: &mut Tokinizer,
    found: &Vec<FamilyCaptures>,
    config: &SmartCalcConfig,
    eval: &E,
)
    requires
        answers_all(eval),
    ensures
        forall|values: spec_fn(Formula) -> Binary64| #[trigger]
            computes(eval, values) ==> line_of(*final(tokinizer)) == with_families(
                line_of(*old(tokinizer)),
                found@,
                *config,
                values,
                found@.len() as int,
            ),
        final(tokinizer).data == old(tokinizer).data,
        spans_ordered(location_views(old(tokinizer).token_locations@)) ==> spans_ordered(
            location_views(final(tokinizer).token_locations@),
        ),
{
    let ghost initial = line_of(*tokinizer);
    let mut position: usize = 0;
    while position < found.len()
        invariant
            answers_all(eval),
            0 <= position <= found@.len(),
            tokinizer.data == old(tokinizer).data,
            spans_ordered(location_views(old(tokinizer).token_locations@)) ==> spans_ordered(
                location_views(tokinizer.token_locations@),
            ),
            forall|values: spec_fn(Formula) -> Binary64| #[trigger]
                computes(eval, values) ==> line_of(*tokinizer) == with_families(
                    initial,
                    found@,
                    *config,
                    values,
                    position as int,
                ),
        decreases found@.len() - position,
    {
        recognise_patterns(
            tokinizer,
            found[position].family,
            &found[position].captures,
            config,
            eval,
        );
        position += 1;
    }
}

/// Recognises on the line the matches of the patterns of one family,
/// pattern by pattern.
pub fn recognise_patterns<E: Fn(Formula) -> Binary64>(
    tokinizer: &mut Tokinizer,
    family: TokenFamily,
    lists: &Vec<Vec<RegexCapture>>,
    config: &SmartCalcConfig,
    eval: &E,
)
    requires
        answers_all(eval),
    ensures
        forall|values: spec_fn(Formula) -> Binary64| #[trigger]
            computes(eval, values) ==> line_of(*final(tokinizer)) == with_patterns(
                line_of(*old(tokinizer)),
                family,
                lists@,
                *config,
                values,
                lists@.len() as int,
            ),
        final(tokinizer).data == old(tokinizer).data,
        spans_ordered(location_views(old(tokinizer).token_locations@)) ==> spans_ordered(
            location_views(final(tokinizer).token_locations@),
        ),
{
    let ghost initial = line_of(*tokinizer);
    let mut index: usize = 0;
    while index < lists.len()
        invariant
            answers_all(eval),
            0 <= index <= lists@.len(),
            tokinizer.data == old(tokinizer).data,
            spans_ordered(location_views(old(tokinizer).token_locations@)) ==> spans_ordered(
                location_views(tokinizer.token_locations@),
            ),
            forall|values: spec_fn(Formula) -> Binary64| #[trigger]
                computes(eval, values) ==> line_of(*tokinizer) == with_patterns(
                    initial,
                    family,
                    lists@,
                    *config,
                    values,
                    index as int,
                ),
        decreases lists@.len() - index,
    {
        recognise_matches(tokinizer, family, &lists[index], config, eval);
        index += 1;
    }
}

/// Recognises on the line the matches of one pattern, from left to right.
pub fn recognise_matches<E: Fn(Formula) -> Binary64>(
    tokinizer: &mut Tokinizer,
    family: TokenFamily,
    captures: &Vec<RegexCapture>,
    config: &SmartCalcConfig,
    eval: &E,
)
    requires
        answers_all(eval),
    ensures
        forall|values: spec_fn(Formula) -> Binary64| #[trigger]
            computes(eval, values) ==> line_of(*final(tokinizer)) == with_captures(
                line_of(*old(tokinizer)),
                family,
                captures@,
                *config,
                values,
                captures@.len() as int,
            ),
        final(tokinizer).data == old(tokinizer).data,
        spans_ordered(location_views(old(tokinizer).token_locations@)) ==> spans_ordered(
            location_views(final(tokinizer).token_locations@),
        ),
{
    let ghost initial = line_of(*tokinizer);
    let mut number: usize = 0;
    while number < captures.len()
        invariant
            answers_all(eval),
            0 <= number <= captures@.len(),
            tokinizer.data == old(tokinizer).data,
            spans_ordered(location_views(old(tokinizer).token_locations@)) ==> spans_ordered(
                location_views(tokinizer.token_locations@),
            ),
            forall|values: spec_fn(Formula) -> Binary64| #[trigger]
                computes(eval, values) ==> line_of(*tokinizer) == with_captures(
                    initial,
                    family,
                    captures@,
                    *config,
                    values,
                    number as int,
                ),
        decreases captures@.len() - number,
    {
        recognise(tokinizer, family, &captures[number], config, eval);
        number += 1;
    }
}

/// The first byte of a text of `length` bytes that no location covers.
pub fn find_gap(locations: &Vec<TokenLocation>, length: usize) -> (offset: Option<usize>)
    ensures
        match offset {
            Some(byte) => gap(location_views(locations@), 0, 0, length as int) == Some(byte as int),
            None => gap(location_views(locations@), 0, 0, length as int) is None,
        },
{
    let ghost views = location_views(locations@);
    let mut expected: usize = 0;
    let mut index: usize = 0;
    while index < locations.len()
        invariant
            0 <= index <= locations.len(),
            views == location_views(locations@),
            gap(views, 0, 0, length as int) == gap(views, index as int, expected as int, length as int),
        decreases locations.len() - index,
    {
        if locations[index].start > expected {
            return Some(expected);
        }
        if locations[index].end > expected {
            expected = locations[index].end;
        }
        index += 1;
    }
    if expected < length {
        Some(expected)
    } else {
        None
    }
}

impl Tokinizer {
    /// Searches the line with the patterns of every family, and recognises
    /// what they found.
    pub fn tokinize_with_regex<E: Fn(Formula) -> Binary64>(
        &mut self,
        regexes: &TokenParseRegexes,
        config: &SmartCalcConfig,
        eval: &E,
    )
        requires
            answers_all(eval),
        ensures
            final(self).data == old(self).data,
            spans_ordered(location_views(old(self).token_locations@)) ==> spans_ordered(
                location_views(final(self).token_locations@),
            ),
            exists|found: Seq<FamilyCaptures>| #[trigger]
                found_in(found, regexes.families@, old(self).data@) && forall|
                    values: spec_fn(Formula) -> Binary64,
                | #[trigger]
                    computes(eval, values) ==> line_of(*final(self)) == with_families(
                        line_of(*old(self)),
                        found,
                        *config,
                        values,
                        found.len() as int,
                    ),
    {
        let found = find_all(regexes, self.data.as_str());
        tokenize_found(self, &found, config, eval);
    }
}

/// Tokenizes a text: every family has its turn in the order of the
/// families, and what a family recognises stays. The text is tokenized if
/// every byte of it was recognised by some family; else the first byte
/// that none recognised is the error.
pub fn tokenize<E: Fn(Formula) -> Binary64>(
    text: &str,
    regexes: &TokenParseRegexes,
    config: &SmartCalcConfig,
    eval: &E,
) -> (result: Result<Vec<TokenLocation>, TokenizeError>)
    requires
        answers_all(eval),
    ensures
        result matches Ok(tokens) ==> spans_ordered(location_views(tokens@)),
        exists|found: Seq<FamilyCaptures>| #[trigger]
            found_in(found, regexes.families@, text@) && forall|
                values: spec_fn(Formula) -> Binary64,
            | #[trigger]
                computes(eval, values) ==> outcome(
                    result,
                    with_families(blank_line(), found, *config, values, found.len() as int).locations,
                    text.len() as int,
                ),
{
    let mut tokinizer = Tokinizer::new(text.to_owned());
    let found = find_all(regexes, text);
    assert(line_of(tokinizer) == blank_line()) by {
        assert(location_views(tokinizer.token_locations@) =~= Seq::<LocationView>::empty());
        assert(tokinizer.ui_tokens@ =~= Seq::<UiToken>::empty());
    }
    tokenize_found(&mut tokinizer, &found, config, eval);
    let length = text.len();
    match find_gap(&tokinizer.token_locations, length) {
        Some(offset) => Err(TokenizeError { offset }),
        None => Ok(retain_meaningful(tokinizer.token_locations)),
    }
}

/// The locations with a meaning are among the locations, in their order:
/// where the spans of all were well formed and in order, theirs are.
pub proof fn lemma_meaningful_keeps_order(locations: Seq<LocationView>)
    ensures
        meaningful(locations).len() <= locations.len(),
        forall|i: int|
            0 <= i < meaningful(locations).len() ==> exists|j: int|
                i <= j < locations.len() && locations[j] == #[trigger] meaningful(locations)[i],
        spans_ordered(locations) ==> spans_ordered(meaningful(locations)),
    decreases locations.len(),
{
    if locations.len() > 0 {
        let rest = locations.drop_last();
        lemma_meaningful_keeps_order(rest);
        let kept = meaningful(locations);
        let earlier = meaningful(rest);
        assert forall|i: int| 0 <= i < kept.len() implies exists|j: int|
            i <= j < locations.len() && locations[j] == #[trigger] kept[i] by {
            if i < earlier.len() {
                let j = choose|j: int| i <= j < rest.len() && rest[j] == earlier[i];
                assert(locations[j] == kept[i]);
            } else {
                assert(locations[locations.len() - 1] == kept[i]);
            }
        }
        if spans_ordered(locations) {
            assert(spans_ordered(rest));
            assert forall|i: int, j: int| 0 <= i < j < kept.len() implies (#[trigger] kept[i]).end <= (
            #[trigger] kept[j]).start by {
                if j < earlier.len() {
                    assert(earlier[i].end <= earlier[j].start);
                } else {
                    let source = choose|source: int|
                        i <= source < rest.len() && rest[source] == earlier[i];
                    assert(locations[source].end <= locations[locations.len() - 1].start);
                }
            }
            assert forall|i: int| 0 <= i < kept.len() implies (#[trigger] kept[i]).start
                <= kept[i].end by {
                if i < earlier.len() {
                    assert(earlier[i].start <= earlier[i].end);
                } else {
                    assert(locations[locations.len() - 1].start <= locations[locations.len()
                        - 1].end);
                }
            }
        }
    }
}

/// Keeps the locations that are active and have a meaning, in their
/// order, and drops the others.
pub fn retain_meaningful(tokens: Vec<TokenLocation>) -> (kept: Vec<TokenLocation>)
    ensures
        location_views(kept@) == meaningful(location_views(tokens@)),
        spans_ordered(location_views(tokens@)) ==> spans_ordered(location_views(kept@)),
{
    proof {
        lemma_meaningful_keeps_order(location_views(tokens@));
    }
    let ghost views = location_views(tokens@);
    let mut rest = tokens;
    let mut kept: Vec<TokenLocation> = Vec::new();
    let ghost mut taken: int = 0;
    assert(views.subrange(0, 0) =~= Seq::<LocationView>::empty());
    assert(location_views(kept@) =~= Seq::<LocationView>::empty());
    assert(location_views(rest@) =~= views.subrange(0, views.len() as int));
    while rest.len() > 0
        invariant
            0 <= taken <= views.len(),
            location_views(rest@) == views.subrange(taken, views.len() as int),
            location_views(kept@) == meaningful(views.subrange(0, taken)),
        decreases rest@.len(),
    {
        let ghost before = rest@;
        let ghost kept_before = kept@;
        assert(location_views(before).len() == before.len());
        let location = rest.remove(0);
        proof {
            assert(location@ == location_views(before)[0]);
            assert(location@ == views[taken]);
            let upto = views.subrange(0, taken + 1);
            assert(upto.last() == location@);
            assert(upto.drop_last() =~= views.subrange(0, taken));
            assert(location_views(rest@) =~= views.subrange(taken + 1, views.len() as int)) by {
                assert(location_views(before.remove(0)) =~= location_views(before).remove(0));
            }
        }
        let counts = match location.status {
            TokenLocationStatus::Active => location.token_type.is_some(),
            TokenLocationStatus::Removed => false,
        };
        if counts {
            kept.push(location);
            assert(location_views(kept@) =~= location_views(kept_before).push(location@));
        }
        proof {
            taken = taken + 1;
        }
    }
    assert(views.subrange(0, taken) =~= views);
    kept
}

} // verus!
