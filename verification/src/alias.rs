use crate::pattern::{has_match, lowercase, lowercased, regex_matches, TokenRegex};
use crate::rewrite::covered_span;
use crate::tokinizer::{
    location_views, spans_ordered, LocationView, TokenLocation, TokenLocationStatus,
};
use crate::types::TokenType;
use vstd::prelude::*;
use vstd::string::StrSliceExecFns;

verus! {

/// The aliases of a session: words that stand for other words or for
/// operators. A literal alias applies to a text that equals its key when
/// both are put in lower case; a pattern applies to a text in whose lower
/// case form it has a match. Literal aliases go before patterns, and in
/// each list the first that applies wins.
#[derive(Debug)]
pub struct AliasTable {
    pub literals: Vec<(String, String)>,
    pub patterns: Vec<(TokenRegex, String)>,
}

/// The replacement text that stands for an operator: `[OPERATOR:` and
/// `]` around the operator's character.
pub open spec fn operator_atom(operator: char) -> Seq<char> {
    seq!['[', 'O', 'P', 'E', 'R', 'A', 'T', 'O', 'R', ':', operator, ']']
}

/// The operator that a replacement text stands for, if it stands for one.
pub open spec fn atom_operator(text: Seq<char>) -> Option<char> {
    if text.len() == 12 && text == operator_atom(text[10]) {
        Some(text[10])
    } else {
        None
    }
}

/// The replacement of the first literal alias, from `from` on, whose key
/// in lower case is `key`.
pub open spec fn literal_alias(literals: Seq<(String, String)>, key: Seq<char>, from: int) -> Option<
    Seq<char>,
>
    decreases literals.len() - from,
{
    if from < 0 || from >= literals.len() {
        None
    } else if lowercased(literals[from].0@) == key {
        Some(literals[from].1@)
    } else {
        literal_alias(literals, key, from + 1)
    }
}

/// The replacement of the first pattern, from `from` on, that has a match
/// in `key`.
pub open spec fn pattern_alias(patterns: Seq<(TokenRegex, String)>, key: Seq<char>, from: int) -> Option<
    Seq<char>,
>
    decreases patterns.len() - from,
{
    if from < 0 || from >= patterns.len() {
        None
    } else if regex_matches(patterns[from].0@, key) {
        Some(patterns[from].1@)
    } else {
        pattern_alias(patterns, key, from + 1)
    }
}

/// What a text is an alias of, if of anything.
pub open spec fn alias_of(table: AliasTable, text: Seq<char>) -> Option<Seq<char>> {
    match literal_alias(table.literals@, lowercased(text), 0) {
        Some(replacement) => Some(replacement),
        None => pattern_alias(table.patterns@, lowercased(text), 0),
    }
}

/// Aliases apply to active locations that hold a text or an operator.
pub open spec fn is_candidate(location: LocationView) -> bool {
    &&& location.status == TokenLocationStatus::Active
    &&& (location.token_type matches Some(TokenType::Text(_)) || location.token_type matches Some(
        TokenType::Operator(_),
    ))
}

/// A location after its alias was put in its place. The span and the text
/// of the source stay. An empty replacement removes the location from the
/// stream; one that stands for an operator makes it that operator; any
/// other makes it the replacement as a text.
pub open spec fn rewritten(before: LocationView, after: LocationView, replacement: Seq<char>) -> bool {
    &&& after.start == before.start
    &&& after.end == before.end
    &&& after.text == before.text
    &&& if replacement.len() == 0 {
        after.status == TokenLocationStatus::Removed && after.token_type == before.token_type
    } else {
        after.status == TokenLocationStatus::Active && match atom_operator(replacement) {
            Some(operator) => after.token_type == Some(TokenType::Operator(operator)),
            None => after.token_type matches Some(TokenType::Text(text)) && text@ == replacement,
        }
    }
}

/// A location after alias resolution: rewritten if it is a candidate whose
/// source text is an alias, and as it was otherwise.
pub open spec fn aliased(before: LocationView, after: LocationView, table: AliasTable) -> bool {
    if is_candidate(before) {
        match alias_of(table, before.text) {
            Some(replacement) => rewritten(before, after, replacement),
            None => after == before,
        }
    } else {
        after == before
    }
}

/// A token stream after alias resolution: each location by itself.
pub open spec fn all_aliased(before: Seq<LocationView>, after: Seq<LocationView>, table: AliasTable) -> bool {
    &&& after.len() == before.len()
    &&& forall|i: int| 0 <= i < before.len() ==> aliased(before[i], #[trigger] after[i], table)
}

/// Two locations are the same but for the identity of a text they hold.
pub open spec fn same_location(left: LocationView, right: LocationView) -> bool {
    &&& left.start == right.start
    &&& left.end == right.end
    &&& left.text == right.text
    &&& left.status == right.status
    &&& match (left.token_type, right.token_type) {
        (Some(TokenType::Text(l)), Some(TokenType::Text(r))) => l@ == r@,
        (l, r) => l == r,
    }
}

/// Alias resolution is idempotent: resolving the aliases of a location
/// that has been through it changes nothing.
pub proof fn lemma_alias_idempotent(
    first: LocationView,
    second: LocationView,
    third: LocationView,
    table: AliasTable,
)
    requires
        aliased(first, second, table),
        aliased(second, third, table),
    ensures
        same_location(second, third),
{
}

/// The same of a whole stream: a second pass leaves every location as the
/// first pass left it.
pub proof fn lemma_alias_pass_idempotent(
    first: Seq<LocationView>,
    second: Seq<LocationView>,
    third: Seq<LocationView>,
    table: AliasTable,
)
    requires
        all_aliased(first, second, table),
        all_aliased(second, third, table),
    ensures
        third.len() == second.len(),
        forall|i: int| 0 <= i < second.len() ==> same_location(second[i], #[trigger] third[i]),
{
    assert forall|i: int| 0 <= i < second.len() implies same_location(
        second[i],
        #[trigger] third[i],
    ) by {
        assert(aliased(first[i], second[i], table));
        lemma_alias_idempotent(first[i], second[i], third[i], table);
    }
}

/// Alias resolution moves nothing: every location keeps its span, so the
/// stream covers the same part of the text, and spans that were well
/// formed and in order stay so.
pub proof fn lemma_aliases_keep_spans(
    before: Seq<LocationView>,
    after: Seq<LocationView>,
    table: AliasTable,
)
    requires
        all_aliased(before, after, table),
    ensures
        forall|i: int|
            0 <= i < before.len() ==> (#[trigger] after[i]).start == before[i].start && after[i].end
                == before[i].end,
        covered_span(after) == covered_span(before),
        spans_ordered(before) ==> spans_ordered(after),
{
    assert forall|i: int| 0 <= i < before.len() implies (#[trigger] after[i]).start
        == before[i].start && after[i].end == before[i].end by {
        assert(aliased(before[i], after[i], table));
    }
    if before.len() > 0 {
        assert(after.first().start == before.first().start);
        assert(after.last().end == before.last().end);
    }
    if spans_ordered(before) {
        assert forall|i: int, j: int| 0 <= i < j < after.len() implies (#[trigger] after[i]).end <= (
        #[trigger] after[j]).start by {
            assert(before[i].end <= before[j].start);
        }
        assert forall|i: int| 0 <= i < after.len() implies (#[trigger] after[i]).start
            <= after[i].end by {
            assert(before[i].start <= before[i].end);
        }
    }
}

/// Decides [`atom_operator`].
pub fn operator_of_atom(text: &str) -> (operator: Option<char>)
    ensures
        operator == atom_operator(text@),
{
    if text.unicode_len() != 12 {
        return None;
    }
    let framed = text.get_char(0) == '[' && text.get_char(1) == 'O' && text.get_char(2) == 'P'
        && text.get_char(3) == 'E' && text.get_char(4) == 'R' && text.get_char(5) == 'A'
        && text.get_char(6) == 'T' && text.get_char(7) == 'O' && text.get_char(8) == 'R'
        && text.get_char(9) == ':' && text.get_char(11) == ']';
    if framed {
        let operator = text.get_char(10);
        assert(text@ =~= operator_atom(operator));
        Some(operator)
    } else {
        assert(text@ != operator_atom(text@[10])) by {
            let atom = operator_atom(text@[10]);
            assert(atom[0] == '[' && atom[1] == 'O' && atom[2] == 'P' && atom[3] == 'E' && atom[4]
                == 'R' && atom[5] == 'A' && atom[6] == 'T' && atom[7] == 'O' && atom[8] == 'R'
                && atom[9] == ':' && atom[11] == ']');
        }
        None
    }
}

impl AliasTable {
    /// No key stands twice among the literal aliases.
    pub open spec fn well_formed(&self) -> bool {
        crate::table::keys_distinct(self.literals@)
    }

    /// What a text is an alias of, if of anything.
    pub fn lookup(&self, text: &str) -> (replacement: Option<String>)
        ensures
            match replacement {
                Some(found) => alias_of(*self, text@) == Some(found@),
                None => alias_of(*self, text@) is None,
            },
    {
        let key = lowercase(text);
        let mut index: usize = 0;
        while index < self.literals.len()
            invariant
                0 <= index <= self.literals.len(),
                key@ == lowercased(text@),
                literal_alias(self.literals@, key@, 0) == literal_alias(
                    self.literals@,
                    key@,
                    index as int,
                ),
            decreases self.literals.len() - index,
        {
            let folded = lowercase(self.literals[index].0.as_str());
            if folded == key {
                return Some(self.literals[index].1.clone());
            }
            index += 1;
        }
        let mut index: usize = 0;
        while index < self.patterns.len()
            invariant
                0 <= index <= self.patterns.len(),
                key@ == lowercased(text@),
                literal_alias(self.literals@, key@, 0) is None,
                pattern_alias(self.patterns@, key@, 0) == pattern_alias(
                    self.patterns@,
                    key@,
                    index as int,
                ),
            decreases self.patterns.len() - index,
        {
            if has_match(&self.patterns[index].0, key.as_str()) {
                return Some(self.patterns[index].1.clone());
            }
            index += 1;
        }
        None
    }
}

/// Puts the replacement of an alias in the place of a location.
pub fn rewrite_location(location: TokenLocation, replacement: String) -> (changed: TokenLocation)
    ensures
        rewritten(location@, changed@, replacement@),
{
    if replacement.as_str().is_empty() {
        TokenLocation {
            start: location.start,
            end: location.end,
            token_type: location.token_type,
            original_text: location.original_text,
            status: TokenLocationStatus::Removed,
        }
    } else {
        let token_type = match operator_of_atom(replacement.as_str()) {
            Some(operator) => TokenType::Operator(operator),
            None => TokenType::Text(replacement),
        };
        TokenLocation {
            start: location.start,
            end: location.end,
            token_type: Some(token_type),
            original_text: location.original_text,
            status: TokenLocationStatus::Active,
        }
    }
}

/// Resolves aliases: every active location that holds a text or an
/// operator, and whose source text is an alias, is rewritten as the alias
/// says. The pass goes through the stream once, from left to right, and
/// looks at the source text of each location only, so that a second pass
/// finds nothing to change.
pub fn apply_aliases(tokens: &mut Vec<TokenLocation>, table: &AliasTable)
    ensures
        all_aliased(location_views(old(tokens)@), location_views(final(tokens)@), *table),
{
    let ghost before = location_views(tokens@);
    let mut index: usize = 0;
    while index < tokens.len()
        invariant
            0 <= index <= tokens.len(),
            tokens.len() == before.len(),
            forall|i: int|
                0 <= i < index ==> aliased(before[i], #[trigger] location_views(tokens@)[i], *table),
            forall|i: int|
                index <= i < before.len() ==> #[trigger] location_views(tokens@)[i] == before[i],
        decreases tokens.len() - index,
    {
        let candidate = match tokens[index].status {
            TokenLocationStatus::Active => match &tokens[index].token_type {
                Some(TokenType::Text(_)) => true,
                Some(TokenType::Operator(_)) => true,
                _ => false,
            },
            TokenLocationStatus::Removed => false,
        };
        let ghost current = tokens@;
        let ghost views = location_views(current);
        assert(views[index as int] == before[index as int]);
        assert(candidate == is_candidate(before[index as int]));
        if candidate {
            match table.lookup(tokens[index].original_text.as_str()) {
                Some(replacement) => {
                    let location = tokens.remove(index);
                    let changed = rewrite_location(location, replacement);
                    tokens.insert(index, changed);
                    assert(tokens@ =~= current.update(index as int, changed));
                },
                None => {},
            }
        }
        proof {
            let after = location_views(tokens@);
            assert(after.len() == views.len());
            assert forall|i: int| 0 <= i < index + 1 implies aliased(
                before[i],
                #[trigger] after[i],
                *table,
            ) by {
                if i < index {
                    assert(after[i] == views[i]);
                    assert(aliased(before[i], views[i], *table));
                }
            }
            assert forall|i: int| index + 1 <= i < before.len() implies #[trigger] after[i]
                == before[i] by {
                assert(after[i] == views[i]);
            }
        }
        index += 1;
    }
}

} // verus!
