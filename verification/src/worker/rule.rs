use crate::binary64::Binary64;
use crate::config::SmartCalcConfig;
use crate::formula::{answers_all, Formula};
use crate::table::{
    keys_distinct, lemma_position_of, lemma_put_keeps_distinct, position_of, put, put_in,
};
use crate::tokinizer::LocationView;
use crate::types::{Token, TokenType};
use crate::worker::rules::cleanup_rules::{division_cleanup_plan, division_cleanup_request};
use crate::worker::rules::date_time_rules::{hour_add_plan, hour_add_request};
use crate::worker::rules::money_rules::{convert_money_plan, convert_money_request};
use crate::worker::rules::number_rules::{
    amount_request, number_of_plan, number_off_plan, number_on_plan, AmountRule,
};
use crate::worker::rules::percent_rules::{
    find_numbers_percent_plan, find_numbers_percent_request, find_total_from_percent_plan,
    find_total_from_percent_request, percent_calculator_plan, percent_calculator_request,
};
use crate::worker::tools::{agrees, fulfil, fulfils, Plan, Request, RuleFields};
use vstd::prelude::*;

verus! {

/// The handlers that a rule can name.
#[derive(Clone, Copy, Debug, PartialEq, Eq, Structural)]
pub enum RuleFunction {
    HourAdd,
    PercentCalculator,
    ConvertMoney,
    NumberOn,
    NumberOf,
    NumberOff,
    DivisionCleanup,
    FindNumbersPercent,
    FindTotalFromPercent,
}

/// The rules of one language, in the order in which they are tried: for
/// each rule its handler and the alternative patterns that call for it.
pub type RuleItemList = Vec<(RuleFunction, Vec<Vec<Token>>)>;

/// The rules of every language, by the language's name.
#[derive(Debug)]
pub struct RuleLanguage {
    pub languages: Vec<(String, RuleItemList)>,
}

/// The handler that goes by a name in rule tables.
pub open spec fn function_named(name: Seq<char>) -> Option<RuleFunction> {
    if name == "hour_add"@ {
        Some(RuleFunction::HourAdd)
    } else if name == "percent_calculator"@ {
        Some(RuleFunction::PercentCalculator)
    } else if name == "convert_money"@ {
        Some(RuleFunction::ConvertMoney)
    } else if name == "number_on"@ {
        Some(RuleFunction::NumberOn)
    } else if name == "number_of"@ {
        Some(RuleFunction::NumberOf)
    } else if name == "number_off"@ {
        Some(RuleFunction::NumberOff)
    } else if name == "division_cleanup"@ {
        Some(RuleFunction::DivisionCleanup)
    } else if name == "find_numbers_percent"@ {
        Some(RuleFunction::FindNumbersPercent)
    } else if name == "find_total_from_percent"@ {
        Some(RuleFunction::FindTotalFromPercent)
    } else {
        None
    }
}

/// What a handler decides on the captures of a match.
pub open spec fn function_plan(
    function: RuleFunction,
    fields: Map<Seq<char>, LocationView>,
    config: SmartCalcConfig,
) -> Plan {
    match function {
        RuleFunction::HourAdd => hour_add_plan(fields),
        RuleFunction::PercentCalculator => percent_calculator_plan(fields),
        RuleFunction::ConvertMoney => convert_money_plan(fields, config),
        RuleFunction::NumberOn => number_on_plan(fields),
        RuleFunction::NumberOf => number_of_plan(fields),
        RuleFunction::NumberOff => number_off_plan(fields),
        RuleFunction::DivisionCleanup => division_cleanup_plan(fields),
        RuleFunction::FindNumbersPercent => find_numbers_percent_plan(fields),
        RuleFunction::FindTotalFromPercent => find_total_from_percent_plan(fields),
    }
}

/// The rules of a language: those of the first entry that bears its name.
pub open spec fn language_rules(
    languages: Seq<(String, RuleItemList)>,
    language: Seq<char>,
    from: int,
) -> Option<int>
    decreases languages.len() - from,
{
    if from < 0 || from >= languages.len() {
        None
    } else if languages[from].0@ == language {
        Some(from)
    } else {
        language_rules(languages, language, from + 1)
    }
}

/// Looks a handler up by the name that rule tables use for it.
pub fn rule_function(name: &str) -> (function: Option<RuleFunction>)
    ensures
        function == function_named(name@),
{
    let name = name.to_owned();
    if name == "hour_add".to_owned() {
        Some(RuleFunction::HourAdd)
    } else if name == "percent_calculator".to_owned() {
        Some(RuleFunction::PercentCalculator)
    } else if name == "convert_money".to_owned() {
        Some(RuleFunction::ConvertMoney)
    } else if name == "number_on".to_owned() {
        Some(RuleFunction::NumberOn)
    } else if name == "number_of".to_owned() {
        Some(RuleFunction::NumberOf)
    } else if name == "number_off".to_owned() {
        Some(RuleFunction::NumberOff)
    } else if name == "division_cleanup".to_owned() {
        Some(RuleFunction::DivisionCleanup)
    } else if name == "find_numbers_percent".to_owned() {
        Some(RuleFunction::FindNumbersPercent)
    } else if name == "find_total_from_percent".to_owned() {
        Some(RuleFunction::FindTotalFromPercent)
    } else {
        None
    }
}

impl RuleFunction {
    /// Decides [`function_plan`]: what the handler asks for, or why the
    /// rule does not apply.
    pub fn request(self, config: &SmartCalcConfig, fields: &RuleFields) -> (answer: Result<
        Request,
        String,
    >)
        ensures
            agrees(answer, function_plan(self, fields@, *config)),
    {
        match self {
            RuleFunction::HourAdd => hour_add_request(fields),
            RuleFunction::PercentCalculator => percent_calculator_request(fields),
            RuleFunction::ConvertMoney => convert_money_request(config, fields),
            RuleFunction::NumberOn => amount_request(fields, AmountRule::On),
            RuleFunction::NumberOf => amount_request(fields, AmountRule::Of),
            RuleFunction::NumberOff => amount_request(fields, AmountRule::Off),
            RuleFunction::DivisionCleanup => division_cleanup_request(fields),
            RuleFunction::FindNumbersPercent => find_numbers_percent_request(fields),
            RuleFunction::FindTotalFromPercent => find_total_from_percent_request(fields),
        }
    }

    /// Runs the handler on the captures of a match.
    pub fn call<E: Fn(Formula) -> Binary64>(
        self,
        config: &SmartCalcConfig,
        fields: &RuleFields,
        eval: &E,
    ) -> (result: Result<TokenType, String>)
        requires
            answers_all(eval),
        ensures
            fulfils(result, function_plan(self, fields@, *config), eval),
    {
        fulfil(self.request(config, fields), eval)
    }
}

/// The rules that are found for a language are those of the first entry
/// with its name: in a table without a language twice, of the only one.
pub proof fn lemma_language_is_first_entry(
    languages: Seq<(String, RuleItemList)>,
    language: Seq<char>,
    from: int,
)
    ensures
        language_rules(languages, language, from) == position_of(languages, language, from),
    decreases languages.len() - from,
{
    if 0 <= from < languages.len() && languages[from].0@ != language {
        lemma_language_is_first_entry(languages, language, from + 1);
    }
}

impl RuleLanguage {
    /// No language stands twice in the table.
    pub open spec fn well_formed(&self) -> bool {
        keys_distinct(self.languages@)
    }

    /// The table without a language.
    pub fn new() -> (table: RuleLanguage)
        ensures
            table.languages@.len() == 0,
            table.well_formed(),
    {
        RuleLanguage { languages: Vec::new() }
    }

    /// Gives a language its rules; the rules it had, if any, are gone.
    pub fn insert(&mut self, language: String, rules: RuleItemList)
        ensures
            final(self).languages@ == put_in(old(self).languages@, language, rules),
            old(self).well_formed() ==> final(self).well_formed(),
            old(self).well_formed() ==> (language_rules(final(self).languages@, language@, 0)
                matches Some(place) && final(self).languages@[place].1 == rules),
    {
        proof {
            if self.well_formed() {
                lemma_put_keeps_distinct(self.languages@, language, rules);
                lemma_position_of(self.languages@, language@, 0);
                lemma_position_of(put_in(self.languages@, language, rules), language@, 0);
                lemma_language_is_first_entry(
                    put_in(self.languages@, language, rules),
                    language@,
                    0,
                );
            }
        }
        put(&mut self.languages, language, rules);
    }

    /// The rules of a language, if the table has that language.
    pub fn get(&self, language: &str) -> (rules: Option<&RuleItemList>)
        ensures
            match rules {
                Some(list) => language_rules(self.languages@, language@, 0) matches Some(index)
                    && *list == self.languages@[index].1,
                None => language_rules(self.languages@, language@, 0) is None,
            },
    {
        let wanted = language.to_owned();
        let mut index: usize = 0;
        while index < self.languages.len()
            invariant
                0 <= index <= self.languages.len(),
                wanted@ == language@,
                language_rules(self.languages@, language@, 0) == language_rules(
                    self.languages@,
                    language@,
                    index as int,
                ),
            decreases self.languages.len() - index,
        {
            if self.languages[index].0 == wanted {
                return Some(&self.languages[index].1);
            }
            index += 1;
        }
        None
    }
}

} // verus!
