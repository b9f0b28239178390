use crate::binary64::Binary64;
use crate::formula::{answers_all, quotient_of, Formula, ZERO_BITS};
use vstd::prelude::*;

verus! {

/// What a division yields once a quotient that is no number, or not finite,
/// has been replaced by zero.
pub open spec fn guarded(quotient: Binary64) -> Binary64 {
    if quotient.is_nan() || quotient.is_infinite() {
        Binary64 { bits: ZERO_BITS }
    } else {
        quotient
    }
}

/// Replaces a quotient that is not a finite number by zero.
pub fn guard_quotient(quotient: Binary64) -> (value: Binary64)
    ensures
        value == guarded(quotient),
{
    if quotient.nan() || quotient.infinite() {
        Binary64 { bits: ZERO_BITS }
    } else {
        quotient
    }
}

/// Divides `left` by `right`. A division by zero, or any other whose
/// quotient is not a finite number, yields zero.
pub fn do_divition<E: Fn(Formula) -> Binary64>(left: Formula, right: Formula, eval: &E) -> (value:
    Binary64)
    requires
        answers_all(eval),
    ensures
        exists|quotient: Binary64|
            call_ensures(*eval, (quotient_of(left, right),), quotient) && value == guarded(
                quotient,
            ),
{
    let quotient = eval(Formula::quotient(left, right));
    guard_quotient(quotient)
}

} // verus!
