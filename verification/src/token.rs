use crate::tokinizer::{location_slot, LocationView, TokenLocation, TokenLocationStatus};
use crate::types::{
    field_accepts_ast, field_accepts_node, field_name, BramaAstType, FieldType, Token, TokenType,
};
use std::rc::Rc;
use vstd::prelude::*;

verus! {

/// A location stands for a node of a syntax tree: a text for a symbol of the
/// same spelling, a number, percentage, time or amount of money for a node
/// of the same kind and value, a placeholder for a node of its kind. A
/// location that is removed or has no meaning stands for nothing.
pub open spec fn location_meets_node(location: LocationView, node: BramaAstType) -> bool {
    match location_slot(location) {
        Some(token) => match (token, node) {
            (TokenType::Text(l), BramaAstType::Symbol(r)) => l@ == r@,
            (TokenType::Number(l), BramaAstType::Number(r)) => l.same_value(r),
            (TokenType::Percent(l), BramaAstType::Percent(r)) => l.same_value(r),
            (TokenType::Time(l), BramaAstType::Time(r)) => l == r,
            (TokenType::Money(l, ls), BramaAstType::Money(r, rs)) => l.same_value(r) && ls@ == rs@,
            (TokenType::Field(l), _) => field_accepts_ast(*l, node),
            _ => false,
        },
        None => false,
    }
}

/// The name under which a location hands its match to a handler: that of
/// its placeholder, if it holds one with a name.
pub open spec fn location_field_name(location: LocationView) -> Option<Seq<char>> {
    match location.token_type {
        Some(TokenType::Field(field)) => field_name(*field),
        _ => None,
    }
}

/// Another handle to the value that `value` points to.
///
/// `Rc::clone` from the standard library: the new pointer shares the
/// allocation, so what it points to is the same value.
#[verifier::external_body]
pub(crate) fn share<T>(value: &Rc<T>) -> (shared: Rc<T>)
    ensures
        shared == *value,
{
    Rc::clone(value)
}

/// The name of a placeholder, where it has one.
pub fn field_name_text(field: &FieldType) -> (name: Option<String>)
    ensures
        match name {
            Some(text) => field_name(*field) == Some(text@),
            None => field_name(*field) is None,
        },
{
    match field {
        FieldType::Text(field_name) => Some(field_name.clone()),
        FieldType::Date(field_name) => Some(field_name.clone()),
        FieldType::Time(field_name) => Some(field_name.clone()),
        FieldType::Money(field_name) => Some(field_name.clone()),
        FieldType::Percent(field_name) => Some(field_name.clone()),
        FieldType::Number(field_name) => Some(field_name.clone()),
        FieldType::NumberOrMoney(field_name) => Some(field_name.clone()),
        FieldType::Group(_) => None,
    }
}

impl Token {
    /// Tells whether the location `left` stands for the syntax tree node
    /// `right`.
    pub fn variable_compare(left: &TokenLocation, right: Rc<BramaAstType>) -> (r: bool)
        ensures
            r == location_meets_node(left@, *right),
    {
        match left.status {
            TokenLocationStatus::Removed => false,
            TokenLocationStatus::Active => match &left.token_type {
                Some(token) => match (token, &*right) {
                    (TokenType::Text(l), BramaAstType::Symbol(r)) => *l == *r,
                    (TokenType::Number(l), BramaAstType::Number(r)) => l.equals(r),
                    (TokenType::Percent(l), BramaAstType::Percent(r)) => l.equals(r),
                    (TokenType::Time(l), BramaAstType::Time(r)) => *l == *r,
                    (TokenType::Money(l, ls), BramaAstType::Money(r, rs)) => l.equals(r) && *ls
                        == *rs,
                    (TokenType::Field(l), node) => field_accepts_node(&**l, node),
                    _ => false,
                },
                None => false,
            },
        }
    }

    /// The name of the placeholder that a location holds, where it holds a
    /// placeholder that has one.
    pub fn get_field_name(token: &TokenLocation) -> (name: Option<String>)
        ensures
            match name {
                Some(text) => location_field_name(token@) == Some(text@),
                None => location_field_name(token@) is None,
            },
    {
        match &token.token_type {
            Some(TokenType::Field(field)) => field_name_text(&**field),
            _ => None,
        }
    }
}

} // verus!
