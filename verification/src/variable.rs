use crate::search::{
    find_location_window, first_window, lemma_first_window_is_earliest, location_slots,
    pattern_elements, window_at,
};
use crate::rewrite::{covered_span, lemma_replaced_keeps_spans, merge_window, replaced};
use crate::token::share;
use crate::tokinizer::{
    location_views, spans_ordered, LocationView, TokenLocation, TokenLocationStatus, Tokinizer,
    UiToken, UiTokenType,
};
use crate::types::{BramaAstType, Token, TokenType, VariableInfo};
use std::rc::Rc;
use vstd::prelude::*;

verus! {

/// The most substitutions that one call makes. A line whose variables are
/// still not all replaced after that many is left as far as it got.
pub const MAX_SUBSTITUTIONS: usize = 4096;

/// The variables of a session, in the order in which they were defined.
#[derive(Debug)]
pub struct Storage {
    pub variables: Vec<Rc<VariableInfo>>,
}

/// The variables after an assignment: the variable takes the place that
/// the assignment names if that place is taken, and the next free place
/// otherwise.
pub open spec fn assigned(
    variables: Seq<Rc<VariableInfo>>,
    index: int,
    variable: Rc<VariableInfo>,
) -> Seq<Rc<VariableInfo>> {
    if 0 <= index < variables.len() {
        variables.update(index, variable)
    } else {
        variables.push(variable)
    }
}

impl Storage {
    pub fn new() -> (storage: Storage)
        ensures
            storage.variables@.len() == 0,
    {
        Storage { variables: Vec::new() }
    }

    /// Stores the variable that an assignment defines. An earlier
    /// variable at its place is replaced: lines parsed from now on refer to
    /// the new value, and references made before keep the old one.
    pub fn assign(&mut self, variable: Rc<VariableInfo>)
        ensures
            final(self).variables@ == assigned(
                old(self).variables@,
                variable.index as int,
                variable,
            ),
    {
        let index = variable.index;
        if index < self.variables.len() {
            let ghost before = self.variables@;
            let _ = self.variables.remove(index);
            self.variables.insert(index, variable);
            assert(self.variables@ =~= before.update(index as int, variable));
        } else {
            self.variables.push(variable);
        }
    }

    /// Stores what an assignment defines: a variable of the given name
    /// and value at the place that the assignment names. The name is
    /// spelled by one text token, by which later lines find the variable.
    pub fn define(&mut self, index: usize, name: String, value: BramaAstType)
        ensures
            final(self).variables@ == assigned(
                old(self).variables@,
                index as int,
                final(self).variables@[place_of(old(self).variables@, index as int)],
            ),
            defines(
                *final(self).variables@[place_of(old(self).variables@, index as int)],
                index,
                name,
                value,
            ),
    {
        let spelled = Token { start: 0, end: 0, token: TokenType::Text(name.clone()) };
        let mut tokens: Vec<Token> = Vec::new();
        tokens.push(spelled);
        let variable = Rc::new(VariableInfo { index, name, tokens, data: Rc::new(value) });
        self.assign(variable);
    }
}

/// The place that an assignment to `index` fills: the place it names if
/// that is taken, and the next free place otherwise.
pub open spec fn place_of(variables: Seq<Rc<VariableInfo>>, index: int) -> int {
    if 0 <= index < variables.len() {
        index
    } else {
        variables.len() as int
    }
}

/// The variable is the one that an assignment of `value` to `name` at
/// `index` defines.
pub open spec fn defines(
    variable: VariableInfo,
    index: usize,
    name: String,
    value: BramaAstType,
) -> bool {
    &&& variable.index == index
    &&& variable.name == name
    &&& variable.tokens@ == seq![Token { start: 0, end: 0, token: TokenType::Text(name) }]
    &&& *variable.data == value
}

/// A place where a variable's name stands in the token stream.
pub struct Candidate {
    pub variable: int,
    pub start: int,
    pub width: int,
}

/// The location holds the assignment operator and is active: a removed
/// location is nothing to the search.
pub open spec fn is_assignment(location: LocationView) -> bool {
    &&& location.status == TokenLocationStatus::Active
    &&& location.token_type == Some(TokenType::Operator('='))
}

/// The first assignment operator at or after `from`.
pub open spec fn first_assignment(locations: Seq<LocationView>, from: int) -> Option<int>
    decreases locations.len() - from,
{
    if from < 0 || from >= locations.len() {
        None
    } else if is_assignment(locations[from]) {
        Some(from)
    } else {
        first_assignment(locations, from + 1)
    }
}

/// Where the search for uses of variables begins: behind the first
/// assignment operator, or at the front where there is none.
pub open spec fn search_start(locations: Seq<LocationView>) -> int {
    match first_assignment(locations, 0) {
        Some(position) => position + 1,
        None => 0,
    }
}

/// The note that marks what stands before the assignment operator as the
/// name being defined. Nothing is noted where nothing stands before it.
pub open spec fn definition_notes(locations: Seq<LocationView>) -> Seq<UiToken> {
    match first_assignment(locations, 0) {
        Some(position) => if position > 0 {
            seq![
                UiToken {
                    start: 0,
                    end: locations[position - 1].end,
                    ui_type: UiTokenType::VariableDefination,
                },
            ]
        } else {
            Seq::empty()
        },
        None => Seq::empty(),
    }
}

/// The better of two places: the earlier one, and of two that start
/// together the wider one. Of two equally good, the first stays.
pub open spec fn better(challenger: Candidate, holder: Candidate) -> bool {
    challenger.start < holder.start || (challenger.start == holder.start && holder.width
        < challenger.width)
}

/// The best place among the first `upto` variables: for each variable with
/// a name, the first window at or after `from` that meets the tokens of its
/// name is a candidate.
pub open spec fn best_candidate(
    locations: Seq<LocationView>,
    variables: Seq<Rc<VariableInfo>>,
    from: int,
    upto: int,
) -> Option<Candidate>
    decreases upto,
{
    if upto <= 0 {
        None
    } else {
        let earlier = best_candidate(locations, variables, from, upto - 1);
        let pattern = pattern_elements(variables[upto - 1].tokens@);
        if pattern.len() == 0 {
            earlier
        } else {
            match first_window(location_slots(locations), pattern, from) {
                None => earlier,
                Some(start) => {
                    let challenger = Candidate {
                        variable: upto - 1,
                        start,
                        width: pattern.len() as int,
                    };
                    match earlier {
                        None => Some(challenger),
                        Some(holder) => if better(challenger, holder) {
                            Some(challenger)
                        } else {
                            earlier
                        },
                    }
                },
            }
        }
    }
}

/// The token stream with the name at `place` replaced by one location that
/// refers to the variable.
pub open spec fn substitute(
    locations: Seq<LocationView>,
    place: Candidate,
    variable: Rc<VariableInfo>,
) -> Seq<LocationView> {
    replaced(locations, place.start, place.width, TokenType::Variable(variable))
}

/// The token stream after at most `fuel` substitutions, each at the best
/// place of the stream as it then stands.
pub open spec fn resolve(
    locations: Seq<LocationView>,
    variables: Seq<Rc<VariableInfo>>,
    from: int,
    fuel: nat,
) -> Seq<LocationView>
    decreases fuel,
{
    if fuel == 0 {
        locations
    } else {
        match best_candidate(locations, variables, from, variables.len() as int) {
            None => locations,
            Some(place) => resolve(
                substitute(locations, place, variables[place.variable]),
                variables,
                from,
                (fuel - 1) as nat,
            ),
        }
    }
}

/// The notes that mark each replaced name as the use of a variable, in the
/// order of the substitutions.
pub open spec fn use_notes(
    locations: Seq<LocationView>,
    variables: Seq<Rc<VariableInfo>>,
    from: int,
    fuel: nat,
) -> Seq<UiToken>
    decreases fuel,
{
    if fuel == 0 {
        Seq::empty()
    } else {
        match best_candidate(locations, variables, from, variables.len() as int) {
            None => Seq::empty(),
            Some(place) => seq![
                UiToken {
                    start: locations[place.start].start,
                    end: locations[place.start + place.width - 1].end,
                    ui_type: UiTokenType::VariableUse,
                },
            ] + use_notes(
                substitute(locations, place, variables[place.variable]),
                variables,
                from,
                (fuel - 1) as nat,
            ),
        }
    }
}

/// No variable's name stands in the stream at or after `from`.
pub open spec fn fully_resolved(
    locations: Seq<LocationView>,
    variables: Seq<Rc<VariableInfo>>,
    from: int,
) -> bool {
    best_candidate(locations, variables, from, variables.len() as int) is None
}

/// The best place names a variable with a name, and a window of the width
/// of that name that lies in the stream, at or after `from`, and meets the
/// name.
pub proof fn lemma_best_candidate_is_window(
    locations: Seq<LocationView>,
    variables: Seq<Rc<VariableInfo>>,
    from: int,
    upto: int,
)
    requires
        0 <= from,
        upto <= variables.len(),
    ensures
        match best_candidate(locations, variables, from, upto) {
            Some(place) => {
                &&& 0 <= place.variable < upto
                &&& place.width == variables[place.variable].tokens@.len()
                &&& place.width > 0
                &&& from <= place.start
                &&& place.start + place.width <= locations.len()
                &&& window_at(
                    location_slots(locations),
                    pattern_elements(variables[place.variable].tokens@),
                    place.start,
                )
            },
            None => true,
        },
    decreases upto,
{
    if upto > 0 {
        lemma_best_candidate_is_window(locations, variables, from, upto - 1);
        let pattern = pattern_elements(variables[upto - 1].tokens@);
        lemma_first_window_is_earliest(location_slots(locations), pattern, from);
    }
}

/// A stream in which no variable's name is left stays as it is, whatever
/// the number of substitutions allowed: resolving is a no-op at its fixed
/// point.
pub proof fn lemma_resolved_is_fixed_point(
    locations: Seq<LocationView>,
    variables: Seq<Rc<VariableInfo>>,
    from: int,
    fuel: nat,
)
    requires
        fully_resolved(locations, variables, from),
    ensures
        resolve(locations, variables, from, fuel) == locations,
        use_notes(locations, variables, from, fuel) == Seq::<UiToken>::empty(),
{
}

/// Every substitution shortens the stream or keeps its length, so the
/// stream never grows.
pub proof fn lemma_resolve_never_grows(
    locations: Seq<LocationView>,
    variables: Seq<Rc<VariableInfo>>,
    from: int,
    fuel: nat,
)
    requires
        0 <= from,
    ensures
        resolve(locations, variables, from, fuel).len() <= locations.len(),
    decreases fuel,
{
    if fuel > 0 {
        match best_candidate(locations, variables, from, variables.len() as int) {
            None => {},
            Some(place) => {
                lemma_best_candidate_is_window(locations, variables, from, variables.len() as int);
                lemma_resolve_never_grows(
                    substitute(locations, place, variables[place.variable]),
                    variables,
                    from,
                    (fuel - 1) as nat,
                );
            },
        }
    }
}

impl Token {
    /// Replaces the names of known variables in the token stream by
    /// references to them.
    ///
    /// The search begins behind the first assignment operator, so that the
    /// name being defined is left alone; what stands before the operator is
    /// noted as a definition. Then, as long as a name is found and at most
    /// [`MAX_SUBSTITUTIONS`] times, the earliest name in the stream (the
    /// longest of those that start together, the first defined of those
    /// that are equally long) is replaced by one location that refers to
    /// the variable, and its span is noted as a use.
    pub fn update_for_variable(tokenizer: &mut Tokinizer, storage: &Storage)
        ensures
            location_views(final(tokenizer).token_locations@) == resolve(
                location_views(old(tokenizer).token_locations@),
                storage.variables@,
                search_start(location_views(old(tokenizer).token_locations@)),
                MAX_SUBSTITUTIONS as nat,
            ),
            final(tokenizer).ui_tokens@ == old(tokenizer).ui_tokens@ + definition_notes(
                location_views(old(tokenizer).token_locations@),
            ) + use_notes(
                location_views(old(tokenizer).token_locations@),
                storage.variables@,
                search_start(location_views(old(tokenizer).token_locations@)),
                MAX_SUBSTITUTIONS as nat,
            ),
            final(tokenizer).data == old(tokenizer).data,
            final(tokenizer).token_locations.len() <= old(tokenizer).token_locations.len(),
            covered_span(location_views(final(tokenizer).token_locations@)) == covered_span(
                location_views(old(tokenizer).token_locations@),
            ),
            spans_ordered(location_views(old(tokenizer).token_locations@)) ==> spans_ordered(
                location_views(final(tokenizer).token_locations@),
            ),
            use_notes(
                location_views(old(tokenizer).token_locations@),
                storage.variables@,
                search_start(location_views(old(tokenizer).token_locations@)),
                MAX_SUBSTITUTIONS as nat,
            ).len() < MAX_SUBSTITUTIONS ==> fully_resolved(
                location_views(final(tokenizer).token_locations@),
                storage.variables@,
                search_start(location_views(old(tokenizer).token_locations@)),
            ),
    {
        let ghost initial = location_views(tokenizer.token_locations@);
        let ghost notes_before = tokenizer.ui_tokens@;
        let ghost variables = storage.variables@;
        let mut token_start_index: usize = 0;
        match find_assignment(&tokenizer.token_locations) {
            Some(index) => {
                token_start_index = index + 1;
                if index > 0 {
                    let end = tokenizer.token_locations[index - 1].end;
                    tokenizer.ui_tokens.push(
                        UiToken { start: 0, end, ui_type: UiTokenType::VariableDefination },
                    );
                }
            },
            None => {},
        }
        assert(tokenizer.ui_tokens@ =~= notes_before + definition_notes(initial));
        let ghost notes_start = tokenizer.ui_tokens@;
        let ghost from = token_start_index as int;
        let mut rounds: usize = 0;
        let mut done = false;
        while rounds < MAX_SUBSTITUTIONS && !done
            invariant
                0 <= rounds <= MAX_SUBSTITUTIONS,
                variables == storage.variables@,
                from == token_start_index as int,
                0 <= from,
                tokenizer.data == old(tokenizer).data,
                location_views(tokenizer.token_locations@).len() <= initial.len(),
                covered_span(location_views(tokenizer.token_locations@)) == covered_span(initial),
                spans_ordered(initial) ==> spans_ordered(
                    location_views(tokenizer.token_locations@),
                ),
                done ==> fully_resolved(location_views(tokenizer.token_locations@), variables, from),
                tokenizer.ui_tokens@.len() == notes_start.len() + rounds,
                resolve(initial, variables, from, MAX_SUBSTITUTIONS as nat) == resolve(
                    location_views(tokenizer.token_locations@),
                    variables,
                    from,
                    (MAX_SUBSTITUTIONS - rounds) as nat,
                ),
                notes_start + use_notes(initial, variables, from, MAX_SUBSTITUTIONS as nat)
                    == tokenizer.ui_tokens@ + use_notes(
                    location_views(tokenizer.token_locations@),
                    variables,
                    from,
                    (MAX_SUBSTITUTIONS - rounds) as nat,
                ),
            decreases MAX_SUBSTITUTIONS - rounds, if done { 0int } else { 1int },
        {
            let ghost before = location_views(tokenizer.token_locations@);
            let ghost notes_round = tokenizer.ui_tokens@;
            let mut found = false;
            let mut closest_variable: usize = 0;
            let mut variable_index: usize = 0;
            let mut variable_size: usize = 0;
            let mut candidate: usize = 0;
            while candidate < storage.variables.len()
                invariant
                    0 <= candidate <= storage.variables.len(),
                    variables == storage.variables@,
                    from == token_start_index as int,
                    before == location_views(tokenizer.token_locations@),
                    best_candidate(before, variables, from, candidate as int) == (if found {
                        Some(
                            Candidate {
                                variable: variable_index as int,
                                start: closest_variable as int,
                                width: variable_size as int,
                            },
                        )
                    } else {
                        None
                    }),
                decreases storage.variables.len() - candidate,
            {
                let variable: &VariableInfo = &*storage.variables[candidate];
                let width = variable.tokens.len();
                assert(pattern_elements(variable.tokens@).len() == width);
                if width > 0 {
                    match find_location_window(
                        &tokenizer.token_locations,
                        token_start_index,
                        &variable.tokens,
                    ) {
                        Some(start_index) => {
                            if !found || start_index < closest_variable || (start_index
                                == closest_variable && variable_size < width) {
                                closest_variable = start_index;
                                variable_index = candidate;
                                variable_size = width;
                                found = true;
                            }
                        },
                        None => {},
                    }
                }
                candidate += 1;
            }
            if !found {
                done = true;
                continue;
            }
            let ghost place = Candidate {
                variable: variable_index as int,
                start: closest_variable as int,
                width: variable_size as int,
            };
            proof {
                assert(best_candidate(before, variables, from, variables.len() as int) == Some(
                    place,
                ));
                lemma_best_candidate_is_window(before, variables, from, variables.len() as int);
                assert(closest_variable + variable_size <= tokenizer.token_locations.len());
            }
            let remove_start_index = closest_variable;
            let remove_end_index = remove_start_index + variable_size;
            let text_start_position = tokenizer.token_locations[remove_start_index].start;
            let text_end_position = tokenizer.token_locations[remove_end_index - 1].end;
            tokenizer.ui_tokens.push(
                UiToken {
                    start: text_start_position,
                    end: text_end_position,
                    ui_type: UiTokenType::VariableUse,
                },
            );
            merge_window(
                &mut tokenizer.token_locations,
                remove_start_index,
                variable_size,
                TokenType::Variable(share(&storage.variables[variable_index])),
            );
            proof {
                let after = location_views(tokenizer.token_locations@);
                assert(after == substitute(before, place, variables[place.variable]));
                lemma_replaced_keeps_spans(
                    before,
                    place.start,
                    place.width,
                    TokenType::Variable(variables[place.variable]),
                );
                assert(notes_round.push(
                    UiToken {
                        start: text_start_position,
                        end: text_end_position,
                        ui_type: UiTokenType::VariableUse,
                    },
                ) + use_notes(after, variables, from, (MAX_SUBSTITUTIONS - rounds - 1) as nat)
                    =~= notes_round + use_notes(
                    before,
                    variables,
                    from,
                    (MAX_SUBSTITUTIONS - rounds) as nat,
                ));
            }
            rounds += 1;
        }
        proof {
            let current = location_views(tokenizer.token_locations@);
            let left = (MAX_SUBSTITUTIONS - rounds) as nat;
            if done {
                lemma_resolved_is_fixed_point(current, variables, from, left);
            }
            assert(resolve(current, variables, from, left) == current);
            assert(tokenizer.ui_tokens@ + use_notes(current, variables, from, left)
                =~= tokenizer.ui_tokens@);
            assert((notes_start + use_notes(initial, variables, from, MAX_SUBSTITUTIONS as nat)).len()
                == notes_start.len() + rounds);
        }
    }
}

/// The index of the first location that holds the assignment operator.
pub fn find_assignment(locations: &Vec<TokenLocation>) -> (found: Option<usize>)
    ensures
        match found {
            Some(index) => first_assignment(location_views(locations@), 0) == Some(index as int)
                && index < locations.len(),
            None => first_assignment(location_views(locations@), 0) is None,
        },
{
    let ghost views = location_views(locations@);
    let mut index: usize = 0;
    while index < locations.len()
        invariant
            0 <= index <= locations.len(),
            views == location_views(locations@),
            first_assignment(views, 0) == first_assignment(views, index as int),
        decreases locations.len() - index,
    {
        let active = match locations[index].status {
            TokenLocationStatus::Active => true,
            TokenLocationStatus::Removed => false,
        };
        let assignment = active && match &locations[index].token_type {
            Some(TokenType::Operator(operator)) => *operator == '=',
            _ => false,
        };
        assert(assignment == is_assignment(views[index as int]));
        if assignment {
            return Some(index);
        }
        index += 1;
    }
    None
}

} // verus!
