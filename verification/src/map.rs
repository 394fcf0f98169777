//! Functions of the value of a signal.

use core::ops::Not;
use vstd::prelude::*;

verus! {

/// The negation of a clone of the value.
pub fn not<T: Clone + Not>(value: &T) -> (res: T::Output)
    requires
        forall|copy: T| #[trigger] cloned(*value, copy) ==> call_requires(<T as Not>::not, (copy,)),
    ensures
        exists|copy: T|
            #![trigger cloned(*value, copy)]
            cloned(*value, copy) && call_ensures(<T as Not>::not, (copy,), res),
{
    let copy = value.clone();
    assert(cloned(*value, copy));
    copy.not()
}

/// Whether the value is `target`.
pub fn is_target<T: Eq>(value: &T, target: &T) -> (res: bool)
    ensures
        call_ensures(<T as PartialEq>::eq, (value, target), res),
{
    *value == *target
}

/// The negation is that of a clone of the value, and the value is the target exactly if the
/// comparison says so.
pub proof fn law_negation_and_target<T: Clone + Not + Eq>(
    value: T,
    negated: T::Output,
    target: T,
    same: bool,
)
    requires
        call_ensures(not::<T>, (&value,), negated),
        call_ensures(is_target::<T>, (&value, &target), same),
    ensures
        exists|copy: T|
            #![trigger cloned(value, copy)]
            cloned(value, copy) && call_ensures(<T as Not>::not, (copy,), negated),
        call_ensures(<T as PartialEq>::eq, (&value, &target), same),
{
}

} // verus!
