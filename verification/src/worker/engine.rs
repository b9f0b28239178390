use crate::binary64::Binary64;
use crate::config::SmartCalcConfig;
use crate::formula::{answers_all, compute, computes, valued, Formula};
use crate::rewrite::{covered_span, lemma_replaced_keeps_spans, merge_window, replaced};
use crate::search::{
    find_location_window, first_window, lemma_first_window_is_earliest, location_slots,
    pattern_elements, window_at,
};
use crate::token::field_name_text;
use crate::tokinizer::{location_views, spans_ordered, LocationView, TokenLocation};
use crate::types::{field_name, Token, TokenType};
use crate::worker::rule::{function_plan, language_rules, RuleFunction, RuleItemList, RuleLanguage};
use crate::worker::tools::{agrees, settled, Plan, Request, RuleFields};
use vstd::prelude::*;

verus! {

/// The most passes over the rule table that one call makes.
pub const MAX_PASSES: usize = 64;

/// The name under which an element of a pattern captures its match.
pub open spec fn element_field_name(element: TokenType) -> Option<Seq<char>> {
    match element {
        TokenType::Field(field) => field_name(*field),
        _ => None,
    }
}

/// The captures of the first `upto` elements of a pattern that is met at
/// `start`: each named placeholder captures the location that it met.
pub open spec fn window_fields(
    locations: Seq<LocationView>,
    pattern: Seq<Token>,
    start: int,
    upto: int,
) -> Map<Seq<char>, LocationView>
    decreases upto,
{
    if upto <= 0 {
        Map::empty()
    } else {
        let earlier = window_fields(locations, pattern, start, upto - 1);
        match element_field_name(pattern[upto - 1].token) {
            Some(name) => earlier.insert(name, locations[start + upto - 1]),
            None => earlier,
        }
    }
}

/// What the handler decides on the window at `start`.
pub open spec fn plan_at(
    locations: Seq<LocationView>,
    function: RuleFunction,
    config: SmartCalcConfig,
    pattern: Seq<Token>,
    start: int,
) -> Plan {
    function_plan(
        function,
        window_fields(locations, pattern, start, pattern.len() as int),
        config,
    )
}

/// The pattern, which is not empty, is met at `start`, and the handler
/// accepts what it captured there.
pub open spec fn fires_at(
    locations: Seq<LocationView>,
    function: RuleFunction,
    config: SmartCalcConfig,
    pattern: Seq<Token>,
    start: int,
) -> bool {
    &&& pattern.len() > 0
    &&& window_at(location_slots(locations), pattern_elements(pattern), start)
    &&& plan_at(locations, function, config, pattern, start) is Ok
}

/// The first place at or after `from` where the pattern fires. A window
/// that the handler refuses is passed over.
pub open spec fn firing_from(
    locations: Seq<LocationView>,
    function: RuleFunction,
    config: SmartCalcConfig,
    pattern: Seq<Token>,
    from: int,
) -> Option<int>
    decreases locations.len() - from,
{
    if from < 0 || pattern.len() == 0 || from + pattern.len() > locations.len() {
        None
    } else if fires_at(locations, function, config, pattern, from) {
        Some(from)
    } else {
        firing_from(locations, function, config, pattern, from + 1)
    }
}

/// A rule that fires: which rule, which of its alternatives, and the
/// window.
pub struct Firing {
    pub rule: int,
    pub alternative: int,
    pub start: int,
    pub width: int,
}

/// The same, as found at run time.
#[derive(Clone, Copy, Debug, PartialEq, Eq, Structural)]
pub struct RuleMatch {
    pub rule: usize,
    pub alternative: usize,
    pub start: usize,
    pub width: usize,
}

impl View for RuleMatch {
    type V = Firing;

    open spec fn view(&self) -> Firing {
        Firing {
            rule: self.rule as int,
            alternative: self.alternative as int,
            start: self.start as int,
            width: self.width as int,
        }
    }
}

/// The first alternative of a rule, from `alternative` on, that fires, and
/// where.
pub open spec fn firing_in_rule(
    locations: Seq<LocationView>,
    function: RuleFunction,
    config: SmartCalcConfig,
    patterns: Seq<Vec<Token>>,
    alternative: int,
) -> Option<(int, int)>
    decreases patterns.len() - alternative,
{
    if alternative < 0 || alternative >= patterns.len() {
        None
    } else {
        match firing_from(locations, function, config, patterns[alternative]@, 0) {
            Some(start) => Some((alternative, start)),
            None => firing_in_rule(locations, function, config, patterns, alternative + 1),
        }
    }
}

/// The first rule of the table, from `rule` on, that fires.
pub open spec fn first_firing(
    locations: Seq<LocationView>,
    rules: Seq<(RuleFunction, Vec<Vec<Token>>)>,
    config: SmartCalcConfig,
    rule: int,
) -> Option<Firing>
    decreases rules.len() - rule,
{
    if rule < 0 || rule >= rules.len() {
        None
    } else {
        match firing_in_rule(locations, rules[rule].0, config, rules[rule].1@, 0) {
            Some((alternative, start)) => Some(
                Firing {
                    rule,
                    alternative,
                    start,
                    width: rules[rule].1@[alternative]@.len() as int,
                },
            ),
            None => first_firing(locations, rules, config, rule + 1),
        }
    }
}

/// What the handler of a firing rule decides.
pub open spec fn firing_plan(
    locations: Seq<LocationView>,
    rules: Seq<(RuleFunction, Vec<Vec<Token>>)>,
    config: SmartCalcConfig,
    firing: Firing,
) -> Plan {
    plan_at(
        locations,
        rules[firing.rule].0,
        config,
        rules[firing.rule].1@[firing.alternative]@,
        firing.start,
    )
}

/// No rule of the table fires anywhere in the stream.
pub open spec fn fully_reduced(
    locations: Seq<LocationView>,
    rules: Seq<(RuleFunction, Vec<Vec<Token>>)>,
    config: SmartCalcConfig,
) -> bool {
    first_firing(locations, rules, config, 0) is None
}

/// Where the pattern is met nowhere from `from` up to `to`, it fires
/// there nowhere.
pub proof fn lemma_no_window_no_firing(
    locations: Seq<LocationView>,
    function: RuleFunction,
    config: SmartCalcConfig,
    pattern: Seq<Token>,
    from: int,
    to: int,
)
    requires
        0 <= from <= to,
        forall|other: int|
            from <= other < to ==> !window_at(
                location_slots(locations),
                pattern_elements(pattern),
                other,
            ),
    ensures
        firing_from(locations, function, config, pattern, from) == firing_from(
            locations,
            function,
            config,
            pattern,
            to,
        ),
    decreases to - from,
{
    if from < to {
        if from + pattern.len() > locations.len() {
            assert(to + pattern.len() > locations.len());
        } else {
            lemma_no_window_no_firing(locations, function, config, pattern, from + 1, to);
        }
    }
}

/// A firing found by [`first_firing`] names a rule, one of its
/// alternatives, and a window of that alternative's width that lies in the
/// stream and that the handler accepts.
pub proof fn lemma_first_firing_fires(
    locations: Seq<LocationView>,
    rules: Seq<(RuleFunction, Vec<Vec<Token>>)>,
    config: SmartCalcConfig,
    rule: int,
)
    requires
        0 <= rule,
    ensures
        match first_firing(locations, rules, config, rule) {
            Some(firing) => {
                &&& rule <= firing.rule < rules.len()
                &&& 0 <= firing.alternative < rules[firing.rule].1@.len()
                &&& firing.width == rules[firing.rule].1@[firing.alternative]@.len()
                &&& 0 < firing.width
                &&& 0 <= firing.start
                &&& firing.start + firing.width <= locations.len()
                &&& fires_at(
                    locations,
                    rules[firing.rule].0,
                    config,
                    rules[firing.rule].1@[firing.alternative]@,
                    firing.start,
                )
            },
            None => true,
        },
    decreases rules.len() - rule,
{
    if rule < rules.len() {
        match firing_in_rule(locations, rules[rule].0, config, rules[rule].1@, 0) {
            Some((alternative, start)) => {
                lemma_firing_in_rule_fires(locations, rules[rule].0, config, rules[rule].1@, 0);
            },
            None => {
                lemma_first_firing_fires(locations, rules, config, rule + 1);
            },
        }
    }
}

/// An alternative found by [`firing_in_rule`] is one of the rule's, from
/// `alternative` on, and fires at the place that is named with it.
pub proof fn lemma_firing_in_rule_fires(
    locations: Seq<LocationView>,
    function: RuleFunction,
    config: SmartCalcConfig,
    patterns: Seq<Vec<Token>>,
    alternative: int,
)
    requires
        0 <= alternative,
    ensures
        match firing_in_rule(locations, function, config, patterns, alternative) {
            Some((found, start)) => {
                &&& alternative <= found < patterns.len()
                &&& 0 <= start
                &&& fires_at(locations, function, config, patterns[found]@, start)
            },
            None => true,
        },
    decreases patterns.len() - alternative,
{
    if alternative < patterns.len() {
        match firing_from(locations, function, config, patterns[alternative]@, 0) {
            Some(start) => {
                lemma_firing_from_fires(locations, function, config, patterns[alternative]@, 0);
            },
            None => {
                lemma_firing_in_rule_fires(locations, function, config, patterns, alternative + 1);
            },
        }
    }
}

/// A place found by [`firing_from`] is at or after `from`, and the pattern
/// fires there.
pub proof fn lemma_firing_from_fires(
    locations: Seq<LocationView>,
    function: RuleFunction,
    config: SmartCalcConfig,
    pattern: Seq<Token>,
    from: int,
)
    requires
        0 <= from,
    ensures
        match firing_from(locations, function, config, pattern, from) {
            Some(start) => from <= start && fires_at(locations, function, config, pattern, start),
            None => true,
        },
    decreases locations.len() - from,
{
    if pattern.len() > 0 && from + pattern.len() <= locations.len() && !fires_at(
        locations,
        function,
        config,
        pattern,
        from,
    ) {
        lemma_firing_from_fires(locations, function, config, pattern, from + 1);
    }
}

/// Gathers what the named placeholders of a pattern captured in the window
/// at `start`.
pub fn capture_fields<'a>(locations: &'a Vec<TokenLocation>, pattern: &Vec<Token>, start: usize) -> (fields:
    RuleFields<'a>)
    requires
        start + pattern.len() <= locations.len(),
    ensures
        fields@ == window_fields(
            location_views(locations@),
            pattern@,
            start as int,
            pattern.len() as int,
        ),
{
    let ghost views = location_views(locations@);
    let mut fields = RuleFields::new();
    let mut k: usize = 0;
    while k < pattern.len()
        invariant
            0 <= k <= pattern.len(),
            start + pattern.len() <= locations.len(),
            views == location_views(locations@),
            fields@ == window_fields(views, pattern@, start as int, k as int),
        decreases pattern.len() - k,
    {
        let name = match &pattern[k].token {
            TokenType::Field(field) => field_name_text(&**field),
            _ => None,
        };
        match name {
            Some(name) => {
                fields.insert(name, &locations[start + k]);
            },
            None => {},
        }
        k += 1;
    }
    fields
}

/// The first place where a pattern fires for a handler, and what the
/// handler asks for there.
pub fn find_in_pattern(
    locations: &Vec<TokenLocation>,
    function: RuleFunction,
    config: &SmartCalcConfig,
    pattern: &Vec<Token>,
) -> (found: Option<(usize, Request)>)
    ensures
        match found {
            Some((start, request)) => {
                &&& firing_from(location_views(locations@), function, *config, pattern@, 0)
                    == Some(start as int)
                &&& agrees(
                    Ok(request),
                    plan_at(location_views(locations@), function, *config, pattern@, start as int),
                )
            },
            None => firing_from(location_views(locations@), function, *config, pattern@, 0)
                 is None,
        },
{
    let ghost views = location_views(locations@);
    let ghost slots = location_slots(views);
    let ghost elements = pattern_elements(pattern@);
    if pattern.len() == 0 {
        return None;
    }
    let mut from: usize = 0;
    while from <= locations.len()
        invariant
            0 <= from <= locations.len() + 1,
            pattern.len() > 0,
            views == location_views(locations@),
            slots == location_slots(views),
            elements == pattern_elements(pattern@),
            firing_from(views, function, *config, pattern@, 0) == firing_from(
                views,
                function,
                *config,
                pattern@,
                from as int,
            ),
        decreases locations.len() + 1 - from,
    {
        proof {
            lemma_first_window_is_earliest(slots, elements, from as int);
        }
        match find_location_window(locations, from, pattern) {
            None => {
                proof {
                    lemma_no_window_no_firing(
                        views,
                        function,
                        *config,
                        pattern@,
                        from as int,
                        locations.len() + 1,
                    );
                }
                return None;
            },
            Some(start) => {
                proof {
                    lemma_no_window_no_firing(
                        views,
                        function,
                        *config,
                        pattern@,
                        from as int,
                        start as int,
                    );
                }
                let fields = capture_fields(locations, pattern, start);
                match function.request(config, &fields) {
                    Ok(request) => {
                        return Some((start, request));
                    },
                    Err(_) => {
                        from = start + 1;
                    },
                }
            },
        }
    }
    None
}

/// The first rule of the table, from `rule_from` on, that fires, with what
/// its handler asks for.
pub fn find_firing(
    locations: &Vec<TokenLocation>,
    rules: &RuleItemList,
    config: &SmartCalcConfig,
    rule_from: usize,
) -> (found: Option<(RuleMatch, Request)>)
    ensures
        match found {
            Some((firing, request)) => {
                &&& first_firing(location_views(locations@), rules@, *config, rule_from as int)
                    == Some(firing@)
                &&& agrees(
                    Ok(request),
                    firing_plan(location_views(locations@), rules@, *config, firing@),
                )
            },
            None => first_firing(location_views(locations@), rules@, *config, rule_from as int)
                 is None,
        },
{
    let ghost views = location_views(locations@);
    let mut rule: usize = rule_from;
    while rule < rules.len()
        invariant
            rule_from <= rule,
            views == location_views(locations@),
            first_firing(views, rules@, *config, rule_from as int) == first_firing(
                views,
                rules@,
                *config,
                rule as int,
            ),
        decreases rules.len() - rule,
    {
        let function = rules[rule].0;
        let patterns = &rules[rule].1;
        let mut alternative: usize = 0;
        while alternative < patterns.len()
            invariant
                0 <= alternative <= patterns.len(),
                rule < rules.len(),
                function == rules@[rule as int].0,
                *patterns == rules@[rule as int].1,
                views == location_views(locations@),
                first_firing(views, rules@, *config, rule_from as int) == first_firing(
                    views,
                    rules@,
                    *config,
                    rule as int,
                ),
                firing_in_rule(views, function, *config, patterns@, 0) == firing_in_rule(
                    views,
                    function,
                    *config,
                    patterns@,
                    alternative as int,
                ),
            decreases patterns.len() - alternative,
        {
            match find_in_pattern(locations, function, config, &patterns[alternative]) {
                Some((start, request)) => {
                    let firing = RuleMatch {
                        rule,
                        alternative,
                        start,
                        width: patterns[alternative].len(),
                    };
                    proof {
                        assert(firing_in_rule(
                            views,
                            function,
                            *config,
                            patterns@,
                            alternative as int,
                        ) == Some((alternative as int, start as int)));
                        assert(first_firing(views, rules@, *config, rule as int) == Some(firing@));
                        assert(firing_plan(views, rules@, *config, firing@) == plan_at(
                            views,
                            function,
                            *config,
                            patterns@[alternative as int]@,
                            start as int,
                        ));
                    }
                    return Some((firing, request));
                },
                None => {},
            }
            alternative += 1;
        }
        assert(first_firing(views, rules@, *config, rule as int) == first_firing(
            views,
            rules@,
            *config,
            rule + 1,
        ));
        rule += 1;
    }
    None
}

/// The token that a firing rule puts in the place of its window: the value
/// of what its handler asks for, in the unit that the handler names.
pub open spec fn firing_token(
    locations: Seq<LocationView>,
    rules: Seq<(RuleFunction, Vec<Vec<Token>>)>,
    config: SmartCalcConfig,
    firing: Firing,
    values: spec_fn(Formula) -> Binary64,
) -> TokenType {
    match firing_plan(locations, rules, config, firing) {
        Ok((formula, unit)) => settled(unit, valued(formula, values)),
        Err(_) => arbitrary(),
    }
}

/// The stream after rule application, where formulas have the values that
/// `values` gives them.
///
/// The table is gone through from `rule_from` on: the first rule that
/// fires has its window replaced, and the search goes on behind that rule.
/// When no rule is left, another pass begins at the head of the table if
/// a rule `fired` in this one, as long as passes are left; after a pass in
/// which none fired the stream stays as it is.
pub open spec fn reduced(
    locations: Seq<LocationView>,
    rules: Seq<(RuleFunction, Vec<Vec<Token>>)>,
    config: SmartCalcConfig,
    values: spec_fn(Formula) -> Binary64,
    rule_from: int,
    fired: bool,
    passes_left: nat,
) -> Seq<LocationView>
    decreases passes_left, rules.len() - rule_from,
{
    if passes_left == 0 {
        locations
    } else {
        match first_firing(locations, rules, config, rule_from) {
            Some(firing) => if rule_from <= firing.rule < rules.len() {
                reduced(
                    replaced(
                        locations,
                        firing.start,
                        firing.width,
                        firing_token(locations, rules, config, firing, values),
                    ),
                    rules,
                    config,
                    values,
                    firing.rule + 1,
                    true,
                    passes_left,
                )
            } else {
                locations
            },
            None => if fired {
                reduced(locations, rules, config, values, 0, false, (passes_left - 1) as nat)
            } else {
                locations
            },
        }
    }
}

/// Applies the rules of a table to a token stream until none fires.
///
/// The table is gone through in its order. A rule fires at most once in a
/// pass: its alternatives are tried in their order, each at the first
/// window that it meets and whose captures the handler accepts, and the
/// first that fires has its window replaced by one location holding the
/// handler's result. After a pass in which a rule fired comes another,
/// but no more than [`MAX_PASSES`] in all.
///
/// Returns whether the stream is at its fixed point. A stream that is
/// fully reduced already is left as it is. With an evaluator whose values
/// are a function of the formula, the outcome is exactly [`reduced`].
pub fn reduce<E: Fn(Formula) -> Binary64>(
    tokens: &mut Vec<TokenLocation>,
    rules: &RuleItemList,
    config: &SmartCalcConfig,
    eval: &E,
) -> (fixed_point: bool)
    requires
        answers_all(eval),
    ensures
        forall|values: spec_fn(Formula) -> Binary64| #[trigger]
            computes(eval, values) ==> location_views(final(tokens)@) == reduced(
                location_views(old(tokens)@),
                rules@,
                *config,
                values,
                0,
                false,
                MAX_PASSES as nat,
            ),
        fixed_point ==> fully_reduced(location_views(final(tokens)@), rules@, *config),
        fully_reduced(location_views(old(tokens)@), rules@, *config) ==> fixed_point
            && location_views(final(tokens)@) == location_views(old(tokens)@),
        final(tokens).len() <= old(tokens).len(),
        covered_span(location_views(final(tokens)@)) == covered_span(location_views(old(tokens)@)),
        spans_ordered(location_views(old(tokens)@)) ==> spans_ordered(
            location_views(final(tokens)@),
        ),
{
    let ghost initial = location_views(tokens@);
    let mut passes: usize = 0;
    let mut rule_from: usize = 0;
    let mut fired = false;
    let mut done = false;
    while !done && passes < MAX_PASSES
        invariant
            answers_all(eval),
            0 <= passes <= MAX_PASSES,
            0 <= rule_from <= rules.len(),
            !fired ==> rule_from == 0,
            !fired && passes == 0 ==> location_views(tokens@) == initial,
            done ==> fully_reduced(location_views(tokens@), rules@, *config),
            done && fully_reduced(initial, rules@, *config) ==> location_views(tokens@) == initial,
            fully_reduced(initial, rules@, *config) ==> !fired && passes == 0,
            tokens.len() <= initial.len(),
            location_views(tokens@).len() == tokens.len(),
            covered_span(location_views(tokens@)) == covered_span(initial),
            spans_ordered(initial) ==> spans_ordered(location_views(tokens@)),
            done ==> !fired,
            forall|values: spec_fn(Formula) -> Binary64| #[trigger]
                computes(eval, values) ==> reduced(
                    initial,
                    rules@,
                    *config,
                    values,
                    0,
                    false,
                    MAX_PASSES as nat,
                ) == reduced(
                    location_views(tokens@),
                    rules@,
                    *config,
                    values,
                    rule_from as int,
                    fired,
                    (MAX_PASSES - passes) as nat,
                ),
        decreases MAX_PASSES - passes, rules.len() - rule_from, if done { 0int } else { 1int },
    {
        let ghost before = location_views(tokens@);
        let ghost left = (MAX_PASSES - passes) as nat;
        let ghost from = rule_from as int;
        let ghost had_fired = fired;
        match find_firing(tokens, rules, config, rule_from) {
            Some((firing, request)) => {
                proof {
                    lemma_first_firing_fires(before, rules@, *config, rule_from as int);
                }
                let Request { formula, unit } = request;
                let ghost asked = formula;
                let value = compute(formula, eval);
                let token = unit.settle(value);
                proof {
                    lemma_replaced_keeps_spans(
                        before,
                        firing.start as int,
                        firing.width as int,
                        token,
                    );
                }
                merge_window(tokens, firing.start, firing.width, token);
                fired = true;
                rule_from = firing.rule + 1;
                proof {
                    let after = location_views(tokens@);
                    assert forall|values: spec_fn(Formula) -> Binary64| #[trigger]
                        computes(eval, values) implies reduced(
                        before,
                        rules@,
                        *config,
                        values,
                        from,
                        had_fired,
                        left,
                    ) == reduced(after, rules@, *config, values, firing.rule + 1, true, left) by {
                        assert(value == valued(asked, values));
                        assert(token == firing_token(before, rules@, *config, firing@, values));
                    }
                }
            },
            None => {
                if fired {
                    passes += 1;
                    rule_from = 0;
                    fired = false;
                } else {
                    done = true;
                }
            },
        }
    }
    proof {
        let current = location_views(tokens@);
        let left = (MAX_PASSES - passes) as nat;
        assert forall|values: spec_fn(Formula) -> Binary64| #[trigger]
            computes(eval, values) implies reduced(
            current,
            rules@,
            *config,
            values,
            rule_from as int,
            fired,
            left,
        ) == current by {}
    }
    done
}

/// Applies the rules of a language to a token stream, as [`reduce`] does.
/// A language that the table does not have has no rules, and leaves the
/// stream as it is.
pub fn apply_rules<E: Fn(Formula) -> Binary64>(
    language: &str,
    tokens: Vec<TokenLocation>,
    table: &RuleLanguage,
    config: &SmartCalcConfig,
    eval: &E,
) -> (stream: Vec<TokenLocation>)
    requires
        answers_all(eval),
    ensures
        forall|values: spec_fn(Formula) -> Binary64| #[trigger]
            computes(eval, values) ==> location_views(stream@) == (match language_rules(
                table.languages@,
                language@,
                0,
            ) {
                Some(index) => reduced(
                    location_views(tokens@),
                    table.languages@[index].1@,
                    *config,
                    values,
                    0,
                    false,
                    MAX_PASSES as nat,
                ),
                None => location_views(tokens@),
            }),
        stream.len() <= tokens.len(),
        covered_span(location_views(stream@)) == covered_span(location_views(tokens@)),
        spans_ordered(location_views(tokens@)) ==> spans_ordered(location_views(stream@)),
        match language_rules(table.languages@, language@, 0) {
            Some(index) => fully_reduced(
                location_views(tokens@),
                table.languages@[index].1@,
                *config,
            ) ==> location_views(stream@) == location_views(tokens@),
            None => location_views(stream@) == location_views(tokens@),
        },
{
    let mut stream = tokens;
    match table.get(language) {
        Some(rules) => {
            reduce(&mut stream, rules, config, eval);
        },
        None => {},
    }
    stream
}

} // verus!
