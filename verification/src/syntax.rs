use crate::token::share;
use crate::tokinizer::{location_slot, location_views, LocationView, TokenLocation, TokenLocationStatus};
use crate::types::{BramaAstType, TokenType, VariableInfo};
use crate::variable::Storage;
use std::rc::Rc;
use vstd::prelude::*;

verus! {

#[derive(Clone, Copy, Debug, PartialEq, Eq, Structural)]
pub enum ParseErrorKind {
    /// There is nothing to parse.
    EmptyExpression,
    /// A token stands where the grammar has no place for it.
    UnexpectedToken,
    /// An operator, or the assignment, is followed by nothing.
    UnmatchedOperator,
}

/// Why a token stream is no expression, with the bytes of the text that
/// the offending token spans.
#[derive(Clone, Copy, Debug, PartialEq, Eq, Structural)]
pub struct ParseError {
    pub kind: ParseErrorKind,
    pub start: usize,
    pub end: usize,
}

pub type AstResult = Result<BramaAstType, ParseError>;

/// A syntax tree and the position behind the tokens it was built from.
pub type Parsed = Result<(BramaAstType, int), ParseError>;

/// The locations that the parser reads: the active ones that have a
/// meaning, in order.
pub open spec fn meaningful(locations: Seq<LocationView>) -> Seq<LocationView>
    decreases locations.len(),
{
    if locations.len() == 0 {
        Seq::empty()
    } else if location_slot(locations.last()) is Some {
        meaningful(locations.drop_last()).push(locations.last())
    } else {
        meaningful(locations.drop_last())
    }
}

/// The leaf that a token becomes: a value a node of its kind, a text a
/// symbol. Operators and dates are no leaves.
pub open spec fn leaf(token: TokenType) -> Option<BramaAstType> {
    match token {
        TokenType::Number(number) => Some(BramaAstType::Number(number)),
        TokenType::Percent(percent) => Some(BramaAstType::Percent(percent)),
        TokenType::Money(price, currency) => Some(BramaAstType::Money(price, currency)),
        TokenType::Time(time) => Some(BramaAstType::Time(time)),
        TokenType::Text(text) => Some(BramaAstType::Symbol(text)),
        TokenType::Field(field) => Some(BramaAstType::Field(field)),
        TokenType::Variable(variable) => Some(BramaAstType::Variable(variable)),
        _ => None,
    }
}

pub open spec fn is_sign(operator: char) -> bool {
    operator == '+' || operator == '-'
}

pub open spec fn is_factor_operator(operator: char) -> bool {
    operator == '*' || operator == '/'
}

/// The operator at a position, if one stands there.
pub open spec fn operator_at(items: Seq<LocationView>, position: int) -> Option<char> {
    if 0 <= position < items.len() {
        match items[position].token_type {
            Some(TokenType::Operator(operator)) => Some(operator),
            _ => None,
        }
    } else {
        None
    }
}

pub open spec fn unexpected(location: LocationView) -> ParseError {
    ParseError { kind: ParseErrorKind::UnexpectedToken, start: location.start, end: location.end }
}

/// The error for an operand that is missing at `position`: the token
/// before it is left unmatched. Where nothing stands before it, the
/// expression is empty.
pub open spec fn missing_operand(items: Seq<LocationView>, position: int) -> ParseError {
    if 0 < position <= items.len() {
        ParseError {
            kind: ParseErrorKind::UnmatchedOperator,
            start: items[position - 1].start,
            end: items[position - 1].end,
        }
    } else {
        ParseError { kind: ParseErrorKind::EmptyExpression, start: 0, end: 0 }
    }
}

pub open spec fn binary(left: BramaAstType, operator: char, right: BramaAstType) -> BramaAstType {
    BramaAstType::Binary { left: Rc::new(left), operator, right: Rc::new(right) }
}

/// An operand with its signs: any number of `+` and `-` before a leaf,
/// each applying to all that follows it.
pub open spec fn parse_unary(items: Seq<LocationView>, position: int) -> Parsed
    decreases items.len() - position,
{
    if position < 0 || position >= items.len() {
        Err(missing_operand(items, position))
    } else {
        match items[position].token_type {
            Some(TokenType::Operator(operator)) => if is_sign(operator) {
                match parse_unary(items, position + 1) {
                    Ok((operand, next)) => Ok(
                        (BramaAstType::PrefixUnary(operator, Rc::new(operand)), next),
                    ),
                    Err(error) => Err(error),
                }
            } else {
                Err(unexpected(items[position]))
            },
            Some(token) => match leaf(token) {
                Some(node) => Ok((node, position + 1)),
                None => Err(unexpected(items[position])),
            },
            None => Err(unexpected(items[position])),
        }
    }
}

/// What follows the left operand of a product: any number of `*` and `/`
/// with an operand each, taken from left to right.
pub open spec fn product_rest(items: Seq<LocationView>, left: BramaAstType, position: int) -> Parsed
    decreases items.len() - position,
{
    match operator_at(items, position) {
        Some(operator) => if is_factor_operator(operator) {
            match parse_unary(items, position + 1) {
                Ok((right, next)) => if position < next <= items.len() {
                    product_rest(items, binary(left, operator, right), next)
                } else {
                    Err(unexpected(items[position]))
                },
                Err(error) => Err(error),
            }
        } else {
            Ok((left, position))
        },
        None => Ok((left, position)),
    }
}

pub open spec fn parse_product(items: Seq<LocationView>, position: int) -> Parsed {
    match parse_unary(items, position) {
        Ok((left, next)) => product_rest(items, left, next),
        Err(error) => Err(error),
    }
}

/// What follows the left operand of a sum: any number of `+` and `-` with
/// a product each, taken from left to right.
pub open spec fn sum_rest(items: Seq<LocationView>, left: BramaAstType, position: int) -> Parsed
    decreases items.len() - position,
{
    match operator_at(items, position) {
        Some(operator) => if is_sign(operator) {
            match parse_product(items, position + 1) {
                Ok((right, next)) => if position < next <= items.len() {
                    sum_rest(items, binary(left, operator, right), next)
                } else {
                    Err(unexpected(items[position]))
                },
                Err(error) => Err(error),
            }
        } else {
            Ok((left, position))
        },
        None => Ok((left, position)),
    }
}

pub open spec fn parse_sum(items: Seq<LocationView>, position: int) -> Parsed {
    match parse_product(items, position) {
        Ok((left, next)) => sum_rest(items, left, next),
        Err(error) => Err(error),
    }
}

/// The expression that the tokens from `from` to the end spell. A token
/// left over behind the expression is unexpected.
pub open spec fn parse_expression(items: Seq<LocationView>, from: int) -> AstResult {
    match parse_sum(items, from) {
        Ok((node, next)) => if next >= items.len() {
            Ok(node)
        } else {
            Err(unexpected(items[next]))
        },
        Err(error) => Err(error),
    }
}

/// The spelling of a location that holds a text.
pub open spec fn text_of(location: LocationView) -> Seq<char> {
    match location.token_type {
        Some(TokenType::Text(text)) => text@,
        _ => Seq::empty(),
    }
}

/// A parser's answer is the one that the grammar gives.
pub open spec fn same_parse(answer: Result<(BramaAstType, usize), ParseError>, parsed: Parsed) -> bool {
    match (answer, parsed) {
        (Ok((node, next)), Ok((expected, position))) => node == expected && next == position,
        (Err(error), Err(expected)) => error == expected,
        _ => false,
    }
}

/// The line begins with a name and the assignment operator.
pub open spec fn is_definition(items: Seq<LocationView>) -> bool {
    &&& items.len() >= 2
    &&& items[0].token_type matches Some(TokenType::Text(_))
    &&& items[1].token_type == Some(TokenType::Operator('='))
}

/// The place of a variable in storage: that of the first variable of this
/// name, at or after `from`, or the next free place.
pub open spec fn variable_index(variables: Seq<Rc<VariableInfo>>, name: Seq<char>, from: int) -> int
    decreases variables.len() - from,
{
    if from < 0 || from >= variables.len() {
        variables.len() as int
    } else if variables[from].name@ == name {
        from
    } else {
        variable_index(variables, name, from + 1)
    }
}

/// The syntax tree of a line: an assignment where the line begins with a
/// name and `=`, an expression otherwise.
pub open spec fn parse_line(items: Seq<LocationView>, variables: Seq<Rc<VariableInfo>>) -> AstResult {
    if is_definition(items) {
        match parse_expression(items, 2) {
            Ok(expression) => Ok(
                BramaAstType::Assignment {
                    index: variable_index(variables, text_of(items[0]), 0) as usize,
                    expression: Rc::new(expression),
                },
            ),
            Err(error) => Err(error),
        }
    } else {
        parse_expression(items, 0)
    }
}

/// A successful parse ends behind where it began, within the tokens.
pub proof fn lemma_unary_advances(items: Seq<LocationView>, position: int)
    ensures
        parse_unary(items, position) matches Ok((_, next)) ==> position < next <= items.len(),
    decreases items.len() - position,
{
    if 0 <= position < items.len() {
        lemma_unary_advances(items, position + 1);
    }
}

pub proof fn lemma_product_rest_advances(items: Seq<LocationView>, left: BramaAstType, position: int)
    requires
        position <= items.len(),
    ensures
        product_rest(items, left, position) matches Ok((_, next)) ==> position <= next
            <= items.len(),
    decreases items.len() - position,
{
    match operator_at(items, position) {
        Some(operator) => {
            if is_factor_operator(operator) {
                lemma_unary_advances(items, position + 1);
                match parse_unary(items, position + 1) {
                    Ok((right, next)) => {
                        lemma_product_rest_advances(items, binary(left, operator, right), next);
                    },
                    Err(_) => {},
                }
            }
        },
        None => {},
    }
}

pub proof fn lemma_product_advances(items: Seq<LocationView>, position: int)
    ensures
        parse_product(items, position) matches Ok((_, next)) ==> position < next <= items.len(),
{
    lemma_unary_advances(items, position);
    match parse_unary(items, position) {
        Ok((left, next)) => {
            lemma_product_rest_advances(items, left, next);
        },
        Err(_) => {},
    }
}

/// The tokens that a syntax tree spells when it is read from left to
/// right: an operator between its operands, a sign before its operand, a
/// leaf as the token it was made of.
pub open spec fn spelled(node: BramaAstType) -> Seq<TokenType>
    decreases node,
{
    match node {
        BramaAstType::Binary { left, operator, right } => spelled(*left).push(
            TokenType::Operator(operator),
        ) + spelled(*right),
        BramaAstType::PrefixUnary(operator, operand) => seq![TokenType::Operator(operator)]
            + spelled(*operand),
        BramaAstType::Number(number) => seq![TokenType::Number(number)],
        BramaAstType::Percent(percent) => seq![TokenType::Percent(percent)],
        BramaAstType::Money(price, currency) => seq![TokenType::Money(price, currency)],
        BramaAstType::Time(time) => seq![TokenType::Time(time)],
        BramaAstType::Symbol(text) => seq![TokenType::Text(text)],
        BramaAstType::Field(field) => seq![TokenType::Field(field)],
        BramaAstType::Variable(variable) => seq![TokenType::Variable(variable)],
        BramaAstType::Assignment { .. } => Seq::empty(),
        BramaAstType::Nothing => Seq::empty(),
    }
}

/// The meanings of the tokens from `from` up to `to`.
pub open spec fn token_run(items: Seq<LocationView>, from: int, to: int) -> Seq<TokenType> {
    Seq::new((to - from) as nat, |i: int| items[from + i].token_type.unwrap())
}

/// The tree of an operand reads back as the tokens it was built from.
pub proof fn lemma_unary_reads_back(items: Seq<LocationView>, position: int)
    ensures
        parse_unary(items, position) matches Ok((node, next)) ==> spelled(node) == token_run(
            items,
            position,
            next,
        ),
    decreases items.len() - position,
{
    if 0 <= position < items.len() {
        lemma_unary_advances(items, position);
        lemma_unary_advances(items, position + 1);
        lemma_unary_reads_back(items, position + 1);
        match parse_unary(items, position) {
            Ok((node, next)) => {
                match parse_unary(items, position + 1) {
                    Ok((operand, after)) => {
                        if node is PrefixUnary {
                            assert(token_run(items, position, next) =~= seq![
                                items[position].token_type.unwrap(),
                            ] + token_run(items, position + 1, next));
                        }
                    },
                    Err(_) => {},
                }
                assert(spelled(node) =~= token_run(items, position, next));
            },
            Err(_) => {},
        }
    }
}

/// Where the left operand reads back as the tokens from `from` up to
/// `position`, the product that continues it reads back as the tokens from
/// `from` up to its end.
pub proof fn lemma_product_rest_reads_back(
    items: Seq<LocationView>,
    left: BramaAstType,
    from: int,
    position: int,
)
    requires
        0 <= from <= position <= items.len(),
        spelled(left) == token_run(items, from, position),
    ensures
        product_rest(items, left, position) matches Ok((node, next)) ==> spelled(node)
            == token_run(items, from, next),
    decreases items.len() - position,
{
    match operator_at(items, position) {
        Some(operator) => {
            if is_factor_operator(operator) {
                lemma_unary_advances(items, position + 1);
                lemma_unary_reads_back(items, position + 1);
                match parse_unary(items, position + 1) {
                    Ok((right, next)) => {
                        let joined = binary(left, operator, right);
                        assert(spelled(joined) =~= token_run(items, from, next));
                        lemma_product_rest_reads_back(items, joined, from, next);
                    },
                    Err(_) => {},
                }
            }
        },
        None => {},
    }
}

pub proof fn lemma_product_reads_back(items: Seq<LocationView>, position: int)
    requires
        0 <= position,
    ensures
        parse_product(items, position) matches Ok((node, next)) ==> spelled(node) == token_run(
            items,
            position,
            next,
        ),
{
    lemma_unary_advances(items, position);
    lemma_unary_reads_back(items, position);
    match parse_unary(items, position) {
        Ok((left, next)) => {
            lemma_product_rest_reads_back(items, left, position, next);
        },
        Err(_) => {},
    }
}

pub proof fn lemma_sum_rest_reads_back(
    items: Seq<LocationView>,
    left: BramaAstType,
    from: int,
    position: int,
)
    requires
        0 <= from <= position <= items.len(),
        spelled(left) == token_run(items, from, position),
    ensures
        sum_rest(items, left, position) matches Ok((node, next)) ==> spelled(node) == token_run(
            items,
            from,
            next,
        ),
    decreases items.len() - position,
{
    match operator_at(items, position) {
        Some(operator) => {
            if is_sign(operator) {
                lemma_product_advances(items, position + 1);
                lemma_product_reads_back(items, position + 1);
                match parse_product(items, position + 1) {
                    Ok((right, next)) => {
                        let joined = binary(left, operator, right);
                        assert(spelled(joined) =~= token_run(items, from, next));
                        lemma_sum_rest_reads_back(items, joined, from, next);
                    },
                    Err(_) => {},
                }
            }
        },
        None => {},
    }
}

/// Parsing loses nothing and invents nothing: the tree of an expression,
/// read from left to right, spells the very tokens that it was built from,
/// all of them, in their order.
pub proof fn lemma_expression_reads_back(items: Seq<LocationView>, from: int)
    requires
        0 <= from,
    ensures
        parse_expression(items, from) matches Ok(node) ==> spelled(node) == token_run(
            items,
            from,
            items.len() as int,
        ),
{
    lemma_product_advances(items, from);
    lemma_product_reads_back(items, from);
    match parse_product(items, from) {
        Ok((left, next)) => {
            lemma_sum_rest_reads_back(items, left, from, next);
            lemma_sum_rest_advances(items, left, next);
        },
        Err(_) => {},
    }
}

pub proof fn lemma_sum_rest_advances(items: Seq<LocationView>, left: BramaAstType, position: int)
    requires
        position <= items.len(),
    ensures
        sum_rest(items, left, position) matches Ok((_, next)) ==> position <= next <= items.len(),
    decreases items.len() - position,
{
    match operator_at(items, position) {
        Some(operator) => {
            if is_sign(operator) {
                lemma_product_advances(items, position + 1);
                match parse_product(items, position + 1) {
                    Ok((right, next)) => {
                        lemma_sum_rest_advances(items, binary(left, operator, right), next);
                    },
                    Err(_) => {},
                }
            }
        },
        None => {},
    }
}

fn unexpected_token(location: &TokenLocation) -> (error: ParseError)
    ensures
        error == unexpected(location@),
{
    ParseError { kind: ParseErrorKind::UnexpectedToken, start: location.start, end: location.end }
}

fn operand_missing(items: &Vec<&TokenLocation>, position: usize) -> (error: ParseError)
    ensures
        error == missing_operand(item_views(items@), position as int),
{
    if 0 < position && position <= items.len() {
        ParseError {
            kind: ParseErrorKind::UnmatchedOperator,
            start: items[position - 1].start,
            end: items[position - 1].end,
        }
    } else {
        ParseError { kind: ParseErrorKind::EmptyExpression, start: 0, end: 0 }
    }
}

/// The views of a list of borrowed locations.
pub open spec fn item_views(items: Seq<&TokenLocation>) -> Seq<LocationView> {
    items.map_values(|item: &TokenLocation| item@)
}

/// Gathers the locations that the parser reads.
pub fn meaningful_locations<'a>(locations: &'a Vec<TokenLocation>) -> (items: Vec<&'a TokenLocation>)
    ensures
        item_views(items@) == meaningful(location_views(locations@)),
{
    let ghost views = location_views(locations@);
    let mut items: Vec<&'a TokenLocation> = Vec::new();
    let mut index: usize = 0;
    assert(views.subrange(0, 0) =~= Seq::<LocationView>::empty());
    while index < locations.len()
        invariant
            0 <= index <= locations.len(),
            views == location_views(locations@),
            item_views(items@) == meaningful(views.subrange(0, index as int)),
        decreases locations.len() - index,
    {
        let location = &locations[index];
        let ghost before = items@;
        proof {
            let upto = views.subrange(0, index + 1);
            assert(upto.drop_last() =~= views.subrange(0, index as int));
            assert(upto.last() == location@);
        }
        let counts = match location.status {
            TokenLocationStatus::Active => location.token_type.is_some(),
            TokenLocationStatus::Removed => false,
        };
        if counts {
            items.push(location);
            assert(item_views(items@) =~= item_views(before).push(location@));
        }
        index += 1;
    }
    assert(views.subrange(0, index as int) =~= views);
    items
}

/// Decides [`leaf`].
fn leaf_of(token: &TokenType) -> (node: Option<BramaAstType>)
    ensures
        node == leaf(*token),
{
    match token {
        TokenType::Number(number) => Some(BramaAstType::Number(*number)),
        TokenType::Percent(percent) => Some(BramaAstType::Percent(*percent)),
        TokenType::Money(price, currency) => Some(BramaAstType::Money(*price, currency.clone())),
        TokenType::Time(time) => Some(BramaAstType::Time(*time)),
        TokenType::Text(text) => Some(BramaAstType::Symbol(text.clone())),
        TokenType::Field(field) => Some(BramaAstType::Field(share(field))),
        TokenType::Variable(variable) => Some(BramaAstType::Variable(share(variable))),
        _ => None,
    }
}

fn operator_of(items: &Vec<&TokenLocation>, position: usize) -> (operator: Option<char>)
    ensures
        operator == operator_at(item_views(items@), position as int),
{
    if position < items.len() {
        match &items[position].token_type {
            Some(TokenType::Operator(operator)) => Some(*operator),
            _ => None,
        }
    } else {
        None
    }
}

fn unary(items: &Vec<&TokenLocation>, position: usize) -> (parsed: Result<
    (BramaAstType, usize),
    ParseError,
>)
    ensures
        same_parse(parsed, parse_unary(item_views(items@), position as int)),
    decreases items.len() - position,
{
    if position >= items.len() {
        return Err(operand_missing(items, position));
    }
    proof {
        lemma_unary_advances(item_views(items@), position + 1);
    }
    match &items[position].token_type {
        Some(TokenType::Operator(operator)) => {
            if *operator == '+' || *operator == '-' {
                match unary(items, position + 1) {
                    Ok((operand, next)) => Ok(
                        (BramaAstType::PrefixUnary(*operator, Rc::new(operand)), next),
                    ),
                    Err(error) => Err(error),
                }
            } else {
                Err(unexpected_token(items[position]))
            }
        },
        Some(token) => match leaf_of(token) {
            Some(node) => Ok((node, position + 1)),
            None => Err(unexpected_token(items[position])),
        },
        None => Err(unexpected_token(items[position])),
    }
}

fn product(items: &Vec<&TokenLocation>, position: usize) -> (parsed: Result<
    (BramaAstType, usize),
    ParseError,
>)
    ensures
        same_parse(parsed, parse_product(item_views(items@), position as int)),
{
    let ghost views = item_views(items@);
    let (mut left, mut next) = match unary(items, position) {
        Ok(parsed) => parsed,
        Err(error) => {
            return Err(error);
        },
    };
    proof {
        lemma_unary_advances(views, position as int);
    }
    loop
        invariant
            views == item_views(items@),
            next <= items.len(),
            parse_product(views, position as int) == product_rest(views, left, next as int),
        decreases items.len() - next,
    {
        let operator = match operator_of(items, next) {
            Some(operator) => operator,
            None => {
                return Ok((left, next));
            },
        };
        if !(operator == '*' || operator == '/') {
            return Ok((left, next));
        }
        proof {
            lemma_unary_advances(views, next + 1);
        }
        match unary(items, next + 1) {
            Ok((right, after)) => {
                left = BramaAstType::Binary { left: Rc::new(left), operator, right: Rc::new(right) };
                next = after;
            },
            Err(error) => {
                return Err(error);
            },
        }
    }
}

fn sum(items: &Vec<&TokenLocation>, position: usize) -> (parsed: Result<
    (BramaAstType, usize),
    ParseError,
>)
    ensures
        same_parse(parsed, parse_sum(item_views(items@), position as int)),
{
    let ghost views = item_views(items@);
    let (mut left, mut next) = match product(items, position) {
        Ok(parsed) => parsed,
        Err(error) => {
            return Err(error);
        },
    };
    proof {
        lemma_product_advances(views, position as int);
    }
    loop
        invariant
            views == item_views(items@),
            next <= items.len(),
            parse_sum(views, position as int) == sum_rest(views, left, next as int),
        decreases items.len() - next,
    {
        let operator = match operator_of(items, next) {
            Some(operator) => operator,
            None => {
                return Ok((left, next));
            },
        };
        if !(operator == '+' || operator == '-') {
            return Ok((left, next));
        }
        proof {
            lemma_product_advances(views, next + 1);
        }
        match product(items, next + 1) {
            Ok((right, after)) => {
                left = BramaAstType::Binary { left: Rc::new(left), operator, right: Rc::new(right) };
                next = after;
            },
            Err(error) => {
                return Err(error);
            },
        }
    }
}

fn expression(items: &Vec<&TokenLocation>, from: usize) -> (parsed: AstResult)
    ensures
        parsed == parse_expression(item_views(items@), from as int),
{
    match sum(items, from) {
        Ok((node, next)) => {
            if next >= items.len() {
                Ok(node)
            } else {
                Err(unexpected_token(items[next]))
            }
        },
        Err(error) => Err(error),
    }
}

/// The place of the variable called `name` in storage, or the next free
/// place where no variable is called so.
pub fn find_variable_index(storage: &Storage, name: &String) -> (index: usize)
    ensures
        index == variable_index(storage.variables@, name@, 0),
{
    let mut index: usize = 0;
    while index < storage.variables.len()
        invariant
            0 <= index <= storage.variables.len(),
            variable_index(storage.variables@, name@, 0) == variable_index(
                storage.variables@,
                name@,
                index as int,
            ),
        decreases storage.variables.len() - index,
    {
        let variable: &VariableInfo = &*storage.variables[index];
        if variable.name == *name {
            return index;
        }
        index += 1;
    }
    index
}

/// Builds the syntax tree of a line from its token stream.
///
/// Only active locations that have a meaning are read. A line that begins
/// with a name and `=` is an assignment to the variable of that name, at
/// its place in storage or, if it is new, at the next free place. Unary
/// `+` and `-` bind tighter than `*` and `/`, which bind tighter than
/// binary `+` and `-`; operators of one level associate to the left.
pub fn parse(tokens: &Vec<TokenLocation>, storage: &Storage) -> (result: AstResult)
    ensures
        result == parse_line(meaningful(location_views(tokens@)), storage.variables@),
{
    let items = meaningful_locations(tokens);
    let definition = items.len() >= 2 && match &items[0].token_type {
        Some(TokenType::Text(_)) => match &items[1].token_type {
            Some(TokenType::Operator(operator)) => *operator == '=',
            _ => false,
        },
        _ => false,
    };
    assert(definition == is_definition(item_views(items@)));
    if definition {
        let index = match &items[0].token_type {
            Some(TokenType::Text(name)) => find_variable_index(storage, name),
            _ => 0,
        };
        match expression(&items, 2) {
            Ok(parsed) => Ok(BramaAstType::Assignment { index, expression: Rc::new(parsed) }),
            Err(error) => Err(error),
        }
    } else {
        expression(&items, 0)
    }
}

/// A token stream and the variables of the session, ready to be parsed.
#[derive(Debug)]
pub struct SyntaxParser {
    pub tokens: Rc<Vec<TokenLocation>>,
    pub storage: Rc<Storage>,
}

impl SyntaxParser {
    pub fn new(tokens: Rc<Vec<TokenLocation>>, storage: Rc<Storage>) -> (parser: SyntaxParser)
        ensures
            parser.tokens == tokens,
            parser.storage == storage,
    {
        SyntaxParser { tokens, storage }
    }

    /// The syntax tree of the token stream, as [`parse`] builds it.
    pub fn parse(&self) -> (result: AstResult)
        ensures
            result == parse_line(
                meaningful(location_views(self.tokens@)),
                self.storage.variables@,
            ),
    {
        parse(&*self.tokens, &*self.storage)
    }
}

} // verus!
