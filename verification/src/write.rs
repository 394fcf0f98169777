//! What a signal is to be set to.

use core::ops::{Deref, DerefMut, Not};
use vstd::prelude::*;

verus! {

/// What a signal is to be set to so that it holds `value`, which may differ from what it holds.
pub open spec fn new_value<T>(value: T, differs: bool) -> Option<T> {
    if differs {
        Some(value)
    } else {
        None
    }
}

/// Whether a signal that holds `old` changes when it is set to `value`.
pub fn changed<T: PartialEq>(old: &T, value: &T) -> (res: bool)
    ensures
        call_ensures(<T as PartialEq>::ne, (old, value), res),
{
    *old != *value
}

/// What a signal that holds `old` is to be set to so that it holds `value`: nothing, if it does not
/// differ.
pub fn set_if_changed<T: PartialEq>(old: &T, value: T) -> (res: Option<T>)
    ensures
        exists|differs: bool|
            #![trigger call_ensures(<T as PartialEq>::ne, (old, &value), differs)]
            call_ensures(<T as PartialEq>::ne, (old, &value), differs) && res == new_value(
                value,
                differs,
            ),
{
    let differs = changed(old, &value);
    assert(call_ensures(<T as PartialEq>::ne, (old, &value), differs));
    if differs {
        Some(value)
    } else {
        None
    }
}

/// What a signal is to be set to once `f` has edited `current`, a clone of its value: nothing, if
/// the edited value does not differ, by `differs`, from what the signal then holds.
pub fn update_if_changed<T, F: FnOnce(&mut T), D: FnOnce(&T) -> bool>(
    current: T,
    f: F,
    differs: D,
) -> (res: Option<T>)
    requires
        forall|edited: &mut T| *edited == current ==> #[trigger] f.requires((edited,)),
        forall|edited: &mut T|
            *edited == current && #[trigger] f.ensures((edited,), ()) ==> differs.requires(
                (final(edited),),
            ),
    ensures
        exists|edited: &mut T, said: bool|
            #![trigger f.ensures((edited,), ()), differs.ensures((final(edited),), said)]
            f.ensures((edited,), ()) && *edited == current && differs.ensures(
                (final(edited),),
                said,
            ) && res == new_value(*final(edited), said),
{
    let mut new = current;
    f(&mut new);
    if differs(&new) {
        Some(new)
    } else {
        None
    }
}

/// What a signal that holds `old` is to be set to so that it holds the negation.
pub fn flip<T: Clone + Not<Output = T>>(old: &T) -> (res: T)
    requires
        forall|copy: T| #[trigger] cloned(*old, copy) ==> call_requires(<T as Not>::not, (copy,)),
    ensures
        exists|copy: T|
            #![trigger cloned(*old, copy)]
            cloned(*old, copy) && call_ensures(<T as Not>::not, (copy,), res),
{
    let copy = old.clone();
    assert(cloned(*old, copy));
    copy.not()
}

/// A value that is edited in place before the signal that it comes from is set to it.
#[derive(Debug)]
pub struct Modify<T> {
    value: T,
}

impl<T> View for Modify<T> {
    type V = T;

    closed spec fn view(&self) -> T {
        self.value
    }
}

impl<T> Deref for Modify<T> {
    type Target = T;

    fn deref(&self) -> (res: &T)
        ensures
            *res == self@,
    {
        &self.value
    }
}

impl<T> DerefMut for Modify<T> {
    fn deref_mut(&mut self) -> (res: &mut T)
        ensures
            *res == old(self)@,
            final(self)@ == *final(res),
    {
        &mut self.value
    }
}

impl<T> Modify<T> {
    /// Starts from a clone of the value that the signal has now.
    pub fn modify(current: &T) -> (res: Self) where T: Clone
        ensures
            cloned(*current, res@),
    {
        Modify { value: current.clone() }
    }

    /// The edited value, which the signal is to be set to.
    pub fn finish(self) -> (res: T)
        ensures
            res == self@,
    {
        self.value
    }
}

/// For values that differ exactly if they are not equal, the signal holds `value` afterwards, and it
/// is set only if it did not hold it before.
pub proof fn law_signal_holds_the_value_and_is_set_only_for_it<T>(old: T, value: T, differs: bool)
    requires
        differs <==> old != value,
    ensures
        (match new_value(value, differs) {
            Some(new) => new,
            None => old,
        }) == value,
        new_value(value, differs) is Some <==> old != value,
{
}

/// A signal that holds `held` is set by [`set_if_changed`] to the value and nothing else, and only if
/// the comparison said that they differ. If it is not set, the comparison said that they do not.
pub proof fn law_set_if_changed_goes_by_the_comparison<T: PartialEq>(
    held: T,
    value: T,
    differs: bool,
    res: Option<T>,
)
    requires
        call_ensures(set_if_changed::<T>, (&held, value), res),
    ensures
        match res {
            Some(new) => new == value && call_ensures(<T as PartialEq>::ne, (&held, &value), true),
            None => call_ensures(<T as PartialEq>::ne, (&held, &value), false),
        },
        call_ensures(changed::<T>, (&held, &value), differs) ==> call_ensures(
            <T as PartialEq>::ne,
            (&held, &value),
            differs,
        ),
{
}

/// A signal whose value is edited by [`update_if_changed`] is set to the edited value and nothing
/// else, and only if `differs` said of it that it does. If it is not set, `differs` said that it does
/// not.
pub proof fn law_update_if_changed_goes_by_the_comparison<
    T,
    F: FnOnce(&mut T),
    D: FnOnce(&T) -> bool,
>(current: T, f: F, differs: D, res: Option<T>)
    requires
        call_ensures(update_if_changed::<T, F, D>, (current, f, differs), res),
    ensures
        exists|edited: &mut T|
            #![trigger f.ensures((edited,), ())]
            f.ensures((edited,), ()) && *edited == current && match res {
                Some(new) => new == *final(edited) && differs.ensures((final(edited),), true),
                None => differs.ensures((final(edited),), false),
            },
{
}

/// A flipped value is the negation of a clone of the value before.
pub proof fn law_flip_negates<T: Clone + Not<Output = T>>(held: T, res: T)
    requires
        call_ensures(flip::<T>, (&held,), res),
    ensures
        exists|copy: T|
            #![trigger cloned(held, copy)]
            cloned(held, copy) && call_ensures(<T as Not>::not, (copy,), res),
{
}

/// An edit starts from a clone of the value, and if nothing is edited that clone is what the signal
/// is set to.
pub proof fn law_idle_edit_gives_a_clone_back<T: Clone>(held: T, draft: Modify<T>, res: T)
    requires
        call_ensures(Modify::<T>::modify, (&held,), draft),
        call_ensures(Modify::<T>::finish, (draft,), res),
    ensures
        cloned(held, res),
{
}

/// What is written into the edited value is what the signal is set to, and what is read of it before
/// that is what it was.
pub proof fn law_edit_is_what_the_signal_is_set_to<T>(
    draft: &mut Modify<T>,
    content: &mut T,
    seen: &T,
    before: T,
    res: T,
)
    requires
        call_ensures(<Modify<T> as Deref>::deref, (&*old(draft),), seen),
        call_ensures(Modify::<T>::finish, (*old(draft),), before),
        call_ensures(<Modify<T> as DerefMut>::deref_mut, (draft,), content),
        call_ensures(Modify::<T>::finish, (*final(draft),), res),
    ensures
        *seen == before,
        *old(content) == before,
        *final(content) == res,
{
}

/// Every value can be set, edited and flipped, if the closures and the negation accept what they are
/// given.
pub proof fn law_writes_accept_every_value<
    T: Clone + PartialEq + Not<Output = T>,
    F: FnOnce(&mut T),
    D: FnOnce(&T) -> bool,
>(held: T, value: T, f: F, differs: D)
    requires
        forall|edited: &mut T| #[trigger] f.requires((edited,)),
        forall|edited: T| #[trigger] differs.requires((&edited,)),
        forall|copy: T| #[trigger] call_requires(<T as Not>::not, (copy,)),
    ensures
        call_requires(changed::<T>, (&held, &value)),
        call_requires(set_if_changed::<T>, (&held, value)),
        call_requires(update_if_changed::<T, F, D>, (held, f, differs)),
        call_requires(flip::<T>, (&held,)),
        call_requires(Modify::<T>::modify, (&held,)),
{
}

} // verus!
