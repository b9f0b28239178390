use crate::compiler::item::RateTable;
use crate::pattern::{lowercase, lowercased};
use crate::table::keys_distinct;
use crate::token::share;
use crate::types::FieldType;
use std::rc::Rc;
use vstd::prelude::*;

verus! {

/// What the pipeline needs to know of the session: how numbers are
/// written, which spellings name which currency, what the currencies are
/// worth, and the placeholder of each word group.
#[derive(Debug)]
pub struct SmartCalcConfig {
    pub thousand_separator: char,
    pub decimal_seperator: char,
    pub currency_alias: Vec<(String, String)>,
    pub currency_rates: RateTable,
    pub word_groups: Vec<(String, Rc<FieldType>)>,
}

/// The code of the currency that a spelling names: that of the first
/// entry, from `from` on, whose spelling is the given one in lower case.
pub open spec fn currency_named(
    aliases: Seq<(String, String)>,
    spelling: Seq<char>,
    from: int,
) -> Option<String>
    decreases aliases.len() - from,
{
    if from < 0 || from >= aliases.len() {
        None
    } else if aliases[from].0@ == lowercased(spelling) {
        Some(aliases[from].1)
    } else {
        currency_named(aliases, spelling, from + 1)
    }
}

/// The placeholder of the word group of a name.
pub open spec fn word_group_named(
    groups: Seq<(String, Rc<FieldType>)>,
    name: Seq<char>,
    from: int,
) -> Option<Rc<FieldType>>
    decreases groups.len() - from,
{
    if from < 0 || from >= groups.len() {
        None
    } else if groups[from].0@ == name {
        Some(groups[from].1)
    } else {
        word_group_named(groups, name, from + 1)
    }
}

impl SmartCalcConfig {
    /// No spelling, no currency code and no name of a word group stands
    /// twice in its table.
    pub open spec fn well_formed(&self) -> bool {
        &&& keys_distinct(self.currency_alias@)
        &&& self.currency_rates.well_formed()
        &&& keys_distinct(self.word_groups@)
    }

    /// The code of the currency that a spelling names.
    pub fn currency(&self, spelling: &str) -> (code: Option<String>)
        ensures
            code == currency_named(self.currency_alias@, spelling@, 0),
    {
        let key = lowercase(spelling);
        let mut index: usize = 0;
        while index < self.currency_alias.len()
            invariant
                0 <= index <= self.currency_alias.len(),
                key@ == lowercased(spelling@),
                currency_named(self.currency_alias@, spelling@, 0) == currency_named(
                    self.currency_alias@,
                    spelling@,
                    index as int,
                ),
            decreases self.currency_alias.len() - index,
        {
            if self.currency_alias[index].0 == key {
                return Some(self.currency_alias[index].1.clone());
            }
            index += 1;
        }
        None
    }

    /// The placeholder of the word group of a name.
    pub fn word_group(&self, name: &String) -> (group: Option<Rc<FieldType>>)
        ensures
            group == word_group_named(self.word_groups@, name@, 0),
    {
        let mut index: usize = 0;
        while index < self.word_groups.len()
            invariant
                0 <= index <= self.word_groups.len(),
                word_group_named(self.word_groups@, name@, 0) == word_group_named(
                    self.word_groups@,
                    name@,
                    index as int,
                ),
            decreases self.word_groups.len() - index,
        {
            if self.word_groups[index].0 == *name {
                return Some(share(&self.word_groups[index].1));
            }
            index += 1;
        }
        None
    }
}

} // verus!
