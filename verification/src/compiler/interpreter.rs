use crate::binary64::Binary64;
use crate::compiler::item::{item_calculated, item_signed, leaf_item, RateTable};
use crate::compiler::number::{DataItem, OperationType, UnaryType};
use crate::formula::{answers_all, computes, Formula};
use crate::types::BramaAstType;
use vstd::prelude::*;

verus! {

/// Why a syntax tree has no value.
#[derive(Clone, Copy, Debug, PartialEq, Eq, Structural)]
pub enum EvaluationError {
    /// A node is no value: a name that no variable bears, a placeholder, a
    /// time, nothing at all, or a variable that holds no value.
    Unresolved,
    /// Neither operand can be calculated with the other.
    IncompatibleOperands,
    /// The operator is none of `+`, `-`, `*` and `/`.
    UnknownOperator,
}

pub type EvaluationResult = Result<DataItem, EvaluationError>;

pub open spec fn operation_of(operator: char) -> Option<OperationType> {
    if operator == '+' {
        Some(OperationType::Add)
    } else if operator == '-' {
        Some(OperationType::Sub)
    } else if operator == '*' {
        Some(OperationType::Mul)
    } else if operator == '/' {
        Some(OperationType::Div)
    } else {
        None
    }
}

pub open spec fn unary_of(operator: char) -> Option<UnaryType> {
    if operator == '+' {
        Some(UnaryType::Plus)
    } else if operator == '-' {
        Some(UnaryType::Minus)
    } else {
        None
    }
}

/// What two items come to under an operation: what the left one makes of
/// it, or else what the right one makes of it.
pub open spec fn combined(
    left: DataItem,
    right: DataItem,
    operation: OperationType,
    rates: Seq<(String, Binary64)>,
    values: spec_fn(Formula) -> Binary64,
) -> EvaluationResult {
    match item_calculated(left, true, right, operation, rates, values) {
        Some(item) => Ok(item),
        None => match item_calculated(right, false, left, operation, rates, values) {
            Some(item) => Ok(item),
            None => Err(EvaluationError::IncompatibleOperands),
        },
    }
}

/// The value of a syntax tree, where formulas have the values that
/// `values` gives them. The tree is evaluated from its leaves up; a
/// variable stands for the value it holds, which is not evaluated again;
/// an assignment has the value of its expression.
pub open spec fn evaluated(
    node: BramaAstType,
    rates: Seq<(String, Binary64)>,
    values: spec_fn(Formula) -> Binary64,
) -> EvaluationResult
    decreases node,
{
    match node {
        BramaAstType::Variable(variable) => match leaf_item(*variable.data) {
            Some(item) => Ok(item),
            None => Err(EvaluationError::Unresolved),
        },
        BramaAstType::Binary { left, operator, right } => match operation_of(operator) {
            None => Err(EvaluationError::UnknownOperator),
            Some(operation) => match evaluated(*left, rates, values) {
                Err(error) => Err(error),
                Ok(left_item) => match evaluated(*right, rates, values) {
                    Err(error) => Err(error),
                    Ok(right_item) => combined(left_item, right_item, operation, rates, values),
                },
            },
        },
        BramaAstType::PrefixUnary(operator, operand) => match unary_of(operator) {
            None => Err(EvaluationError::UnknownOperator),
            Some(unary) => match evaluated(*operand, rates, values) {
                Err(error) => Err(error),
                Ok(item) => Ok(item_signed(item, unary, values)),
            },
        },
        BramaAstType::Assignment { index, expression } => evaluated(*expression, rates, values),
        _ => match leaf_item(node) {
            Some(item) => Ok(item),
            None => Err(EvaluationError::Unresolved),
        },
    }
}

/// Decides [`operation_of`].
pub fn operation(operator: char) -> (operation: Option<OperationType>)
    ensures
        operation == operation_of(operator),
{
    if operator == '+' {
        Some(OperationType::Add)
    } else if operator == '-' {
        Some(OperationType::Sub)
    } else if operator == '*' {
        Some(OperationType::Mul)
    } else if operator == '/' {
        Some(OperationType::Div)
    } else {
        None
    }
}

/// Decides [`unary_of`].
pub fn unary_operation(operator: char) -> (unary: Option<UnaryType>)
    ensures
        unary == unary_of(operator),
{
    if operator == '+' {
        Some(UnaryType::Plus)
    } else if operator == '-' {
        Some(UnaryType::Minus)
    } else {
        None
    }
}

/// Combines two items under an operation: the left item is asked first,
/// as the left operand; if it has no answer, the right item is asked, as
/// the right operand.
pub fn combine<E: Fn(Formula) -> Binary64>(
    left: &DataItem,
    right: &DataItem,
    operation_type: OperationType,
    rates: &RateTable,
    eval: &E,
) -> (result: EvaluationResult)
    requires
        answers_all(eval),
    ensures
        forall|values: spec_fn(Formula) -> Binary64| #[trigger]
            computes(eval, values) ==> result == combined(
                *left,
                *right,
                operation_type,
                rates.rates@,
                values,
            ),
{
    match left.calculate(true, right, operation_type, rates, eval) {
        Some(item) => Ok(item),
        None => match right.calculate(false, left, operation_type, rates, eval) {
            Some(item) => Ok(item),
            None => Err(EvaluationError::IncompatibleOperands),
        },
    }
}

/// Evaluates a syntax tree.
///
/// Numbers, percentages and amounts of money are values. An operation
/// between two numbers is ordinary arithmetic; between a number and a
/// percentage the percentage counts as its share of the number; between
/// two amounts of money the right one is converted into the currency of
/// the left one where the currencies differ. A division whose quotient is
/// not a finite number yields zero.
pub fn execute<E: Fn(Formula) -> Binary64>(ast: &BramaAstType, rates: &RateTable, eval: &E) -> (result:
    EvaluationResult)
    requires
        answers_all(eval),
    ensures
        forall|values: spec_fn(Formula) -> Binary64| #[trigger]
            computes(eval, values) ==> result == evaluated(*ast, rates.rates@, values),
    decreases *ast,
{
    match ast {
        BramaAstType::Variable(variable) => match DataItem::from_leaf(&*variable.data) {
            Some(item) => Ok(item),
            None => Err(EvaluationError::Unresolved),
        },
        BramaAstType::Binary { left, operator, right } => {
            let operation_type = match operation(*operator) {
                Some(operation_type) => operation_type,
                None => {
                    return Err(EvaluationError::UnknownOperator);
                },
            };
            let left_item = match execute(&**left, rates, eval) {
                Ok(item) => item,
                Err(error) => {
                    return Err(error);
                },
            };
            let right_item = match execute(&**right, rates, eval) {
                Ok(item) => item,
                Err(error) => {
                    return Err(error);
                },
            };
            combine(&left_item, &right_item, operation_type, rates, eval)
        },
        BramaAstType::PrefixUnary(operator, operand) => {
            let unary = match unary_operation(*operator) {
                Some(unary) => unary,
                None => {
                    return Err(EvaluationError::UnknownOperator);
                },
            };
            match execute(&**operand, rates, eval) {
                Ok(item) => Ok(item.unary(unary, eval)),
                Err(error) => Err(error),
            }
        },
        BramaAstType::Assignment { index, expression } => execute(&**expression, rates, eval),
        _ => match DataItem::from_leaf(ast) {
            Some(item) => Ok(item),
            None => Err(EvaluationError::Unresolved),
        },
    }
}

} // verus!
