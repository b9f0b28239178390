use crate::binary64::Binary64;
use std::rc::Rc;
use vstd::prelude::*;
use vstd::std_specs::cmp::PartialEqSpecImpl;

verus! {

/// A time of day: seconds since midnight and the nanoseconds within that
/// second.
#[derive(Clone, Copy, Debug, PartialEq, Eq, Structural)]
pub struct ClockTime {
    pub secs: u32,
    pub frac: u32,
}

/// A calendar date with a time of day: days since the first day of the
/// common era, and the time within that day.
#[derive(Clone, Copy, Debug, PartialEq, Eq, Structural)]
pub struct CalendarTime {
    pub days: i32,
    pub time: ClockTime,
}

/// A stored session variable: where it lives, what it is called, the tokens
/// that spell its name, and the value it currently holds.
#[derive(Debug)]
pub struct VariableInfo {
    pub index: usize,
    pub name: String,
    pub tokens: Vec<Token>,
    pub data: Rc<BramaAstType>,
}

/// A typed placeholder of a rule pattern. Every kind but `Group` carries the
/// name under which the matched token is handed to the rule's handler;
/// `Group` carries the words it accepts.
#[derive(Clone, Debug)]
pub enum FieldType {
    Text(String),
    Date(String),
    Time(String),
    Money(String),
    Percent(String),
    Number(String),
    Group(Vec<String>),
    NumberOrMoney(String),
}

#[derive(Clone, Copy, Debug, PartialEq, Eq, Structural)]
pub enum BramaNumberSystem {
    Binary,
    Octal,
    Decimal,
    Hexadecimal,
}

/// How amounts of one currency are written.
#[derive(Clone, Debug)]
pub struct Money {
    pub code: String,
    pub symbol: String,
    pub thousands_separator: String,
    pub decimal_separator: String,
    pub symbol_on_left: bool,
    pub space_between_amount_and_symbol: bool,
    pub decimal_digits: u8,
}

/// An element of a rule pattern or of a variable's name.
#[derive(Debug, Clone)]
pub struct Token {
    pub start: u16,
    pub end: u16,
    pub token: TokenType,
}

#[derive(Debug, Clone)]
pub enum TokenType {
    Number(Binary64),
    Text(String),
    Time(ClockTime),
    Date(CalendarTime),
    DateTime(CalendarTime),
    Operator(char),
    Field(Rc<FieldType>),
    Percent(Binary64),
    Money(Binary64, String),
    Variable(Rc<VariableInfo>),
}

#[derive(Clone, Copy, Debug)]
pub struct TokinizerBackup {
    pub index: u16,
    pub indexer: usize,
    pub column: u16,
}

pub trait CharTraits {
    spec fn new_line(&self) -> bool;

    spec fn blank(&self) -> bool;

    fn is_new_line(&self) -> (r: bool)
        ensures
            r == self.new_line(),
    ;

    fn is_whitespace(&self) -> (r: bool)
        ensures
            r == self.blank(),
    ;
}

impl CharTraits for char {
    open spec fn new_line(&self) -> bool {
        *self == '\n'
    }

    /// A space, a carriage return or a tab; a line feed is not blank.
    open spec fn blank(&self) -> bool {
        *self == ' ' || *self == '\r' || *self == '\t'
    }

    fn is_new_line(&self) -> (r: bool) {
        *self == '\n'
    }

    fn is_whitespace(&self) -> (r: bool) {
        *self == ' ' || *self == '\r' || *self == '\t'
    }
}

#[derive(Clone, Debug)]
pub enum BramaAstType {
    Nothing,
    Number(Binary64),
    Field(Rc<FieldType>),
    Percent(Binary64),
    Time(ClockTime),
    Money(Binary64, String),
    Binary { left: Rc<BramaAstType>, operator: char, right: Rc<BramaAstType> },
    PrefixUnary(char, Rc<BramaAstType>),
    Assignment { index: usize, expression: Rc<BramaAstType> },
    Symbol(String),
    Variable(Rc<VariableInfo>),
}

/// Two word lists hold the same words in the same order.
pub open spec fn words_same(a: Seq<String>, b: Seq<String>) -> bool {
    &&& a.len() == b.len()
    &&& forall|i: int| 0 <= i < a.len() ==> (#[trigger] a[i])@ == b[i]@
}

/// `text` is one of `items`.
pub open spec fn word_listed(items: Seq<String>, text: Seq<char>) -> bool {
    exists|i: int| 0 <= i < items.len() && (#[trigger] items[i])@ == text
}

/// Two placeholders are of the same kind and carry the same name (for
/// `Group`: the same words).
pub open spec fn field_same(a: FieldType, b: FieldType) -> bool {
    match (a, b) {
        (FieldType::Text(l), FieldType::Text(r)) => l@ == r@,
        (FieldType::Date(l), FieldType::Date(r)) => l@ == r@,
        (FieldType::Time(l), FieldType::Time(r)) => l@ == r@,
        (FieldType::Money(l), FieldType::Money(r)) => l@ == r@,
        (FieldType::Percent(l), FieldType::Percent(r)) => l@ == r@,
        (FieldType::Number(l), FieldType::Number(r)) => l@ == r@,
        (FieldType::Group(l), FieldType::Group(r)) => words_same(l@, r@),
        (FieldType::NumberOrMoney(l), FieldType::NumberOrMoney(r)) => l@ == r@,
        _ => false,
    }
}

/// A placeholder stands for a concrete token: the kinds agree, whatever the
/// value; a `Group` stands for a text that is one of its words; a `Date`
/// placeholder stands for nothing.
pub open spec fn field_accepts(field: FieldType, token: TokenType) -> bool {
    match (field, token) {
        (FieldType::Percent(_), TokenType::Percent(_)) => true,
        (FieldType::Number(_), TokenType::Number(_)) => true,
        (FieldType::Text(_), TokenType::Text(_)) => true,
        (FieldType::Time(_), TokenType::Time(_)) => true,
        (FieldType::Money(_), TokenType::Money(_, _)) => true,
        (FieldType::Group(items), TokenType::Text(text)) => word_listed(items@, text@),
        (FieldType::NumberOrMoney(_), TokenType::Money(_, _)) => true,
        (FieldType::NumberOrMoney(_), TokenType::Number(_)) => true,
        _ => false,
    }
}

/// A placeholder stands for a node of a syntax tree, by kind.
pub open spec fn field_accepts_ast(field: FieldType, node: BramaAstType) -> bool {
    match (field, node) {
        (FieldType::Percent(_), BramaAstType::Percent(_)) => true,
        (FieldType::Number(_), BramaAstType::Number(_)) => true,
        (FieldType::Text(_), BramaAstType::Symbol(_)) => true,
        (FieldType::Time(_), BramaAstType::Time(_)) => true,
        (FieldType::Money(_), BramaAstType::Money(_, _)) => true,
        (FieldType::NumberOrMoney(_), BramaAstType::Money(_, _)) => true,
        (FieldType::NumberOrMoney(_), BramaAstType::Number(_)) => true,
        _ => false,
    }
}

/// The relation by which a token of the input meets an element of a pattern.
/// Two values of one kind are compared by value; a placeholder on either
/// side is compared by kind. Times, dates and two placeholders never match.
pub open spec fn token_matches(a: TokenType, b: TokenType) -> bool
    decreases a, 0nat,
{
    match (a, b) {
        (TokenType::Text(l), TokenType::Text(r)) => l@ == r@,
        (TokenType::Number(l), TokenType::Number(r)) => l.same_value(r),
        (TokenType::Percent(l), TokenType::Percent(r)) => l.same_value(r),
        (TokenType::Operator(l), TokenType::Operator(r)) => l == r,
        (TokenType::Money(l, ls), TokenType::Money(r, rs)) => l.same_value(r) && ls@ == rs@,
        (TokenType::Variable(l), TokenType::Variable(r)) => variable_same(*l, *r),
        (TokenType::Field(l), _) => field_accepts(*l, b),
        (_, TokenType::Field(r)) => field_accepts(*r, a),
        _ => false,
    }
}

/// Equality of token values: the same kind and the same value. Dates and
/// date-times equal nothing.
pub open spec fn token_type_same(a: TokenType, b: TokenType) -> bool
    decreases a, 0nat,
{
    match (a, b) {
        (TokenType::Text(l), TokenType::Text(r)) => l@ == r@,
        (TokenType::Number(l), TokenType::Number(r)) => l.same_value(r),
        (TokenType::Percent(l), TokenType::Percent(r)) => l.same_value(r),
        (TokenType::Operator(l), TokenType::Operator(r)) => l == r,
        (TokenType::Variable(l), TokenType::Variable(r)) => variable_same(*l, *r),
        (TokenType::Money(l, ls), TokenType::Money(r, rs)) => l.same_value(r) && ls@ == rs@,
        (TokenType::Time(l), TokenType::Time(r)) => l == r,
        (TokenType::Field(l), TokenType::Field(r)) => field_same(*l, *r),
        _ => false,
    }
}

/// Equality of token values as `==` decides it. Two values of one kind are
/// equal when they are the same; two placeholders, when they are the same
/// placeholder; a placeholder and a value that is none, when the
/// placeholder stands for the value, whichever side it is on.
pub open spec fn token_type_alike(a: TokenType, b: TokenType) -> bool {
    ||| token_type_same(a, b)
    ||| a matches TokenType::Field(field) && !(b is Field) && field_accepts(*field, b)
    ||| b matches TokenType::Field(field) && !(a is Field) && field_accepts(*field, a)
}

/// Two token lists of one length match element by element from `from` on.
pub open spec fn tokens_match_from(a: Vec<Token>, b: Vec<Token>, from: nat) -> bool
    decreases a, a.len() - from,
{
    if from >= a.len() {
        true
    } else {
        token_matches(a[from as int].token, b[from as int].token) && tokens_match_from(
            a,
            b,
            from + 1,
        )
    }
}

/// Equality of variables: the same index and name, names spelled by token
/// lists that match element by element, and equal values.
pub open spec fn variable_same(a: VariableInfo, b: VariableInfo) -> bool
    decreases a, 0nat,
{
    &&& a.index == b.index
    &&& a.name@ == b.name@
    &&& a.tokens.len() == b.tokens.len()
    &&& tokens_match_from(a.tokens, b.tokens, 0)
    &&& ast_same(*a.data, *b.data)
}

/// Equality of syntax trees: the same shape with equal leaves.
pub open spec fn ast_same(a: BramaAstType, b: BramaAstType) -> bool
    decreases a, 0nat,
{
    match (a, b) {
        (BramaAstType::Nothing, BramaAstType::Nothing) => true,
        (BramaAstType::Number(l), BramaAstType::Number(r)) => l.same_value(r),
        (BramaAstType::Field(l), BramaAstType::Field(r)) => field_same(*l, *r),
        (BramaAstType::Percent(l), BramaAstType::Percent(r)) => l.same_value(r),
        (BramaAstType::Time(l), BramaAstType::Time(r)) => l == r,
        (BramaAstType::Money(l, ls), BramaAstType::Money(r, rs)) => l.same_value(r) && ls@ == rs@,
        (
            BramaAstType::Binary { left: ll, operator: lo, right: lr },
            BramaAstType::Binary { left: rl, operator: ro, right: rr },
        ) => ast_same(*ll, *rl) && lo == ro && ast_same(*lr, *rr),
        (BramaAstType::PrefixUnary(lo, le), BramaAstType::PrefixUnary(ro, re)) => lo == ro
            && ast_same(*le, *re),
        (
            BramaAstType::Assignment { index: li, expression: le },
            BramaAstType::Assignment { index: ri, expression: re },
        ) => li == ri && ast_same(*le, *re),
        (BramaAstType::Symbol(l), BramaAstType::Symbol(r)) => l@ == r@,
        (BramaAstType::Variable(l), BramaAstType::Variable(r)) => variable_same(*l, *r),
        _ => false,
    }
}

pub open spec fn money_same(a: Money, b: Money) -> bool {
    &&& a.code@ == b.code@
    &&& a.symbol@ == b.symbol@
    &&& a.thousands_separator@ == b.thousands_separator@
    &&& a.decimal_separator@ == b.decimal_separator@
    &&& a.symbol_on_left == b.symbol_on_left
    &&& a.space_between_amount_and_symbol == b.space_between_amount_and_symbol
    &&& a.decimal_digits == b.decimal_digits
}

/// The name that a placeholder hands its match over under; a `Group` has none.
pub open spec fn field_name(field: FieldType) -> Option<Seq<char>> {
    match field {
        FieldType::Text(name) => Some(name@),
        FieldType::Date(name) => Some(name@),
        FieldType::Time(name) => Some(name@),
        FieldType::Money(name) => Some(name@),
        FieldType::Percent(name) => Some(name@),
        FieldType::Number(name) => Some(name@),
        FieldType::NumberOrMoney(name) => Some(name@),
        FieldType::Group(_) => None,
    }
}

pub fn words_equal(a: &Vec<String>, b: &Vec<String>) -> (r: bool)
    ensures
        r == words_same(a@, b@),
{
    if a.len() != b.len() {
        return false;
    }
    let mut i: usize = 0;
    while i < a.len()
        invariant
            a.len() == b.len(),
            0 <= i <= a.len(),
            forall|j: int| 0 <= j < i ==> (#[trigger] a@[j])@ == b@[j]@,
        decreases a.len() - i,
    {
        if a[i] != b[i] {
            assert(a@[i as int]@ != b@[i as int]@);
            return false;
        }
        i += 1;
    }
    true
}

pub fn contains_word(items: &Vec<String>, text: &String) -> (r: bool)
    ensures
        r == word_listed(items@, text@),
{
    let mut i: usize = 0;
    while i < items.len()
        invariant
            0 <= i <= items.len(),
            forall|j: int| 0 <= j < i ==> (#[trigger] items@[j])@ != text@,
        decreases items.len() - i,
    {
        if items[i] == *text {
            assert(items@[i as int]@ == text@);
            return true;
        }
        i += 1;
    }
    false
}

pub fn field_equals(a: &FieldType, b: &FieldType) -> (r: bool)
    ensures
        r == field_same(*a, *b),
{
    match (a, b) {
        (FieldType::Text(l), FieldType::Text(r)) => *l == *r,
        (FieldType::Date(l), FieldType::Date(r)) => *l == *r,
        (FieldType::Time(l), FieldType::Time(r)) => *l == *r,
        (FieldType::Money(l), FieldType::Money(r)) => *l == *r,
        (FieldType::Percent(l), FieldType::Percent(r)) => *l == *r,
        (FieldType::Number(l), FieldType::Number(r)) => *l == *r,
        (FieldType::Group(l), FieldType::Group(r)) => words_equal(l, r),
        (FieldType::NumberOrMoney(l), FieldType::NumberOrMoney(r)) => *l == *r,
        _ => false,
    }
}

pub fn field_accepts_token(field: &FieldType, token: &TokenType) -> (r: bool)
    ensures
        r == field_accepts(*field, *token),
{
    match (field, token) {
        (FieldType::Percent(_), TokenType::Percent(_)) => true,
        (FieldType::Number(_), TokenType::Number(_)) => true,
        (FieldType::Text(_), TokenType::Text(_)) => true,
        (FieldType::Time(_), TokenType::Time(_)) => true,
        (FieldType::Money(_), TokenType::Money(_, _)) => true,
        (FieldType::Group(items), TokenType::Text(text)) => contains_word(items, text),
        (FieldType::NumberOrMoney(_), TokenType::Money(_, _)) => true,
        (FieldType::NumberOrMoney(_), TokenType::Number(_)) => true,
        _ => false,
    }
}

pub fn field_accepts_node(field: &FieldType, node: &BramaAstType) -> (r: bool)
    ensures
        r == field_accepts_ast(*field, *node),
{
    match (field, node) {
        (FieldType::Percent(_), BramaAstType::Percent(_)) => true,
        (FieldType::Number(_), BramaAstType::Number(_)) => true,
        (FieldType::Text(_), BramaAstType::Symbol(_)) => true,
        (FieldType::Time(_), BramaAstType::Time(_)) => true,
        (FieldType::Money(_), BramaAstType::Money(_, _)) => true,
        (FieldType::NumberOrMoney(_), BramaAstType::Money(_, _)) => true,
        (FieldType::NumberOrMoney(_), BramaAstType::Number(_)) => true,
        _ => false,
    }
}

/// Decides [`token_matches`].
pub fn token_type_matches(a: &TokenType, b: &TokenType) -> (r: bool)
    ensures
        r == token_matches(*a, *b),
    decreases *a, 0nat,
{
    match (a, b) {
        (TokenType::Text(l), TokenType::Text(r)) => *l == *r,
        (TokenType::Number(l), TokenType::Number(r)) => l.equals(r),
        (TokenType::Percent(l), TokenType::Percent(r)) => l.equals(r),
        (TokenType::Operator(l), TokenType::Operator(r)) => *l == *r,
        (TokenType::Money(l, ls), TokenType::Money(r, rs)) => l.equals(r) && *ls == *rs,
        (TokenType::Variable(l), TokenType::Variable(r)) => variable_equals(&**l, &**r),
        (TokenType::Field(l), _) => field_accepts_token(&**l, b),
        (_, TokenType::Field(r)) => field_accepts_token(&**r, a),
        _ => false,
    }
}

/// Decides [`token_type_same`].
pub fn token_type_equals(a: &TokenType, b: &TokenType) -> (r: bool)
    ensures
        r == token_type_same(*a, *b),
    decreases *a, 0nat,
{
    match (a, b) {
        (TokenType::Text(l), TokenType::Text(r)) => *l == *r,
        (TokenType::Number(l), TokenType::Number(r)) => l.equals(r),
        (TokenType::Percent(l), TokenType::Percent(r)) => l.equals(r),
        (TokenType::Operator(l), TokenType::Operator(r)) => *l == *r,
        (TokenType::Variable(l), TokenType::Variable(r)) => variable_equals(&**l, &**r),
        (TokenType::Money(l, ls), TokenType::Money(r, rs)) => l.equals(r) && *ls == *rs,
        (TokenType::Time(l), TokenType::Time(r)) => *l == *r,
        (TokenType::Field(l), TokenType::Field(r)) => field_equals(&**l, &**r),
        _ => false,
    }
}

/// Decides [`variable_same`].
pub fn variable_equals(a: &VariableInfo, b: &VariableInfo) -> (r: bool)
    ensures
        r == variable_same(*a, *b),
    decreases *a, 0nat,
{
    if a.index != b.index || a.name != b.name || a.tokens.len() != b.tokens.len() {
        return false;
    }
    let mut i: usize = 0;
    while i < a.tokens.len()
        invariant
            a.tokens.len() == b.tokens.len(),
            0 <= i <= a.tokens.len(),
            tokens_match_from(a.tokens, b.tokens, 0) == tokens_match_from(
                a.tokens,
                b.tokens,
                i as nat,
            ),
        decreases a.tokens.len() - i,
    {
        if !token_type_matches(&a.tokens[i].token, &b.tokens[i].token) {
            return false;
        }
        i += 1;
    }
    ast_equals(&*a.data, &*b.data)
}

/// Decides [`ast_same`].
pub fn ast_equals(a: &BramaAstType, b: &BramaAstType) -> (r: bool)
    ensures
        r == ast_same(*a, *b),
    decreases *a, 0nat,
{
    match (a, b) {
        (BramaAstType::Nothing, BramaAstType::Nothing) => true,
        (BramaAstType::Number(l), BramaAstType::Number(r)) => l.equals(r),
        (BramaAstType::Field(l), BramaAstType::Field(r)) => field_equals(&**l, &**r),
        (BramaAstType::Percent(l), BramaAstType::Percent(r)) => l.equals(r),
        (BramaAstType::Time(l), BramaAstType::Time(r)) => *l == *r,
        (BramaAstType::Money(l, ls), BramaAstType::Money(r, rs)) => l.equals(r) && *ls == *rs,
        (
            BramaAstType::Binary { left: ll, operator: lo, right: lr },
            BramaAstType::Binary { left: rl, operator: ro, right: rr },
        ) => ast_equals(&**ll, &**rl) && *lo == *ro && ast_equals(&**lr, &**rr),
        (BramaAstType::PrefixUnary(lo, le), BramaAstType::PrefixUnary(ro, re)) => *lo == *ro
            && ast_equals(&**le, &**re),
        (
            BramaAstType::Assignment { index: li, expression: le },
            BramaAstType::Assignment { index: ri, expression: re },
        ) => *li == *ri && ast_equals(&**le, &**re),
        (BramaAstType::Symbol(l), BramaAstType::Symbol(r)) => *l == *r,
        (BramaAstType::Variable(l), BramaAstType::Variable(r)) => variable_equals(&**l, &**r),
        _ => false,
    }
}

impl VariableInfo {
    /// Gives the variable a new value; index, name and tokens stay.
    pub fn update_data(&mut self, data: Rc<BramaAstType>)
        ensures
            final(self).data == data,
            final(self).index == old(self).index,
            final(self).name == old(self).name,
            final(self).tokens == old(self).tokens,
    {
        self.data = data;
    }

    /// The variable's name.
    pub fn to_string(&self) -> (text: String)
        ensures
            text@ == self.name@,
    {
        self.name.clone()
    }
}

impl PartialEq for VariableInfo {
    fn eq(&self, other: &Self) -> (r: bool) {
        variable_equals(self, other)
    }
}

impl PartialEqSpecImpl for VariableInfo {
    open spec fn obeys_eq_spec() -> bool {
        true
    }

    open spec fn eq_spec(&self, other: &Self) -> bool {
        variable_same(*self, *other)
    }
}

impl PartialEq for FieldType {
    fn eq(&self, other: &Self) -> (r: bool) {
        field_equals(self, other)
    }
}

impl PartialEqSpecImpl for FieldType {
    open spec fn obeys_eq_spec() -> bool {
        true
    }

    open spec fn eq_spec(&self, other: &Self) -> bool {
        field_same(*self, *other)
    }
}

impl PartialEq for Money {
    fn eq(&self, other: &Self) -> (r: bool) {
        self.code == other.code && self.symbol == other.symbol && self.thousands_separator
            == other.thousands_separator && self.decimal_separator == other.decimal_separator
            && self.symbol_on_left == other.symbol_on_left && self.space_between_amount_and_symbol
            == other.space_between_amount_and_symbol && self.decimal_digits == other.decimal_digits
    }
}

impl PartialEqSpecImpl for Money {
    open spec fn obeys_eq_spec() -> bool {
        true
    }

    open spec fn eq_spec(&self, other: &Self) -> bool {
        money_same(*self, *other)
    }
}

/// Decides [`token_type_alike`].
pub fn token_type_agrees(a: &TokenType, b: &TokenType) -> (r: bool)
    ensures
        r == token_type_alike(*a, *b),
{
    match (a, b) {
        (TokenType::Field(l), TokenType::Field(r)) => field_equals(&**l, &**r),
        (TokenType::Field(l), _) => field_accepts_token(&**l, b),
        (_, TokenType::Field(r)) => field_accepts_token(&**r, a),
        _ => token_type_equals(a, b),
    }
}

/// Two token values are equal when they are alike: a placeholder equals
/// every value that it stands for.
impl PartialEq for TokenType {
    fn eq(&self, other: &Self) -> (r: bool) {
        token_type_agrees(self, other)
    }
}

impl PartialEqSpecImpl for TokenType {
    open spec fn obeys_eq_spec() -> bool {
        true
    }

    open spec fn eq_spec(&self, other: &Self) -> bool {
        token_type_alike(*self, *other)
    }
}

/// Two pattern elements are equal when their values match; where they stand
/// in the text plays no part.
impl PartialEq for Token {
    fn eq(&self, other: &Self) -> (r: bool) {
        token_type_matches(&self.token, &other.token)
    }
}

impl PartialEqSpecImpl for Token {
    open spec fn obeys_eq_spec() -> bool {
        true
    }

    open spec fn eq_spec(&self, other: &Self) -> bool {
        token_matches(self.token, other.token)
    }
}

impl PartialEq for BramaAstType {
    fn eq(&self, other: &Self) -> (r: bool) {
        ast_equals(self, other)
    }
}

impl PartialEqSpecImpl for BramaAstType {
    open spec fn obeys_eq_spec() -> bool {
        true
    }

    open spec fn eq_spec(&self, other: &Self) -> bool {
        ast_same(*self, *other)
    }
}

} // verus!
