use crate::alias::{all_aliased, apply_aliases, lemma_aliases_keep_spans, AliasTable};
use crate::binary64::Binary64;
use crate::config::SmartCalcConfig;
use crate::formula::{answers_all, computes, Formula};
use crate::rewrite::covered_span;
use crate::tokinizer::{location_views, spans_ordered, LocationView, Tokinizer};
use crate::types::Token;
use crate::variable::{resolve, search_start, Storage, MAX_SUBSTITUTIONS};
use crate::worker::engine::{fully_reduced, reduce, reduced, MAX_PASSES};
use crate::worker::rule::{language_rules, RuleLanguage};
use vstd::prelude::*;

verus! {

/// What rewrites a token stream before it is parsed: the aliases and the
/// rule tables of a session.
#[derive(Debug)]
pub struct WorkerExecuter {
    pub aliases: AliasTable,
    pub rules: RuleLanguage,
}

/// The stream as it stands when the rules are applied: the aliases are
/// resolved first, then the uses of variables.
pub open spec fn prepared(
    before: Seq<LocationView>,
    resolved_aliases: Seq<LocationView>,
    aliases: AliasTable,
    storage: Storage,
) -> Seq<LocationView>
    recommends
        all_aliased(before, resolved_aliases, aliases),
{
    resolve(
        resolved_aliases,
        storage.variables@,
        search_start(resolved_aliases),
        MAX_SUBSTITUTIONS as nat,
    )
}

impl WorkerExecuter {
    pub fn new(aliases: AliasTable, rules: RuleLanguage) -> (executer: WorkerExecuter)
        ensures
            executer.aliases == aliases,
            executer.rules == rules,
    {
        WorkerExecuter { aliases, rules }
    }

    /// Rewrites the token stream of a line: resolves aliases, replaces the
    /// uses of variables, and applies the rules of the language until none
    /// fires. Returns whether the rules reached their fixed point.
    ///
    /// The stream after the first two steps is exactly what those steps
    /// make of it; the rules leave it as it is where it is fully reduced,
    /// and otherwise no longer, and covering the same part of the text.
    pub fn process<E: Fn(Formula) -> Binary64>(
        &self,
        language: &str,
        tokinizer: &mut Tokinizer,
        storage: &Storage,
        config: &SmartCalcConfig,
        eval: &E,
    ) -> (fixed_point: bool)
        requires
            answers_all(eval),
        ensures
            final(tokinizer).data == old(tokinizer).data,
            final(tokinizer).token_locations.len() <= old(tokinizer).token_locations.len(),
            covered_span(location_views(final(tokinizer).token_locations@)) == covered_span(
                location_views(old(tokinizer).token_locations@),
            ),
            spans_ordered(location_views(old(tokinizer).token_locations@)) ==> spans_ordered(
                location_views(final(tokinizer).token_locations@),
            ),
            exists|resolved_aliases: Seq<LocationView>|
                {
                    let start = prepared(
                        location_views(old(tokinizer).token_locations@),
                        resolved_aliases,
                        self.aliases,
                        *storage,
                    );
                    let end = location_views(final(tokinizer).token_locations@);
                    &&& #[trigger] all_aliased(
                        location_views(old(tokinizer).token_locations@),
                        resolved_aliases,
                        self.aliases,
                    )
                    &&& forall|values: spec_fn(Formula) -> Binary64| #[trigger]
                        computes(eval, values) ==> end == (match language_rules(
                            self.rules.languages@,
                            language@,
                            0,
                        ) {
                            Some(index) => reduced(
                                start,
                                self.rules.languages@[index].1@,
                                *config,
                                values,
                                0,
                                false,
                                MAX_PASSES as nat,
                            ),
                            None => start,
                        })
                    &&& end.len() <= start.len()
                    &&& covered_span(end) == covered_span(start)
                    &&& match language_rules(self.rules.languages@, language@, 0) {
                        Some(index) => {
                            &&& fixed_point ==> fully_reduced(
                                end,
                                self.rules.languages@[index].1@,
                                *config,
                            )
                            &&& fully_reduced(start, self.rules.languages@[index].1@, *config)
                                ==> end == start
                        },
                        None => end == start,
                    }
                },
    {
        apply_aliases(&mut tokinizer.token_locations, &self.aliases);
        let ghost resolved_aliases = location_views(tokinizer.token_locations@);
        proof {
            lemma_aliases_keep_spans(
                location_views(old(tokinizer).token_locations@),
                resolved_aliases,
                self.aliases,
            );
        }
        Token::update_for_variable(tokinizer, storage);
        let ghost start = location_views(tokinizer.token_locations@);
        assert(start == prepared(
            location_views(old(tokinizer).token_locations@),
            resolved_aliases,
            self.aliases,
            *storage,
        ));
        let fixed_point = match self.rules.get(language) {
            Some(rules) => reduce(&mut tokinizer.token_locations, rules, config, eval),
            None => true,
        };
        fixed_point
    }
}

} // verus!
