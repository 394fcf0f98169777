//! The state of a value that is computed asynchronously.

use vstd::prelude::*;

verus! {

/// A value that is either still on its way or there.
#[derive(Copy, PartialEq, Eq, Debug)]
pub enum Load<T> {
    Loading,
    Ready(T),
}

impl<T: Clone> Clone for Load<T> {
    /// The same state, with the value cloned.
    fn clone(&self) -> (res: Self)
        ensures
            self.clones_to(res),
    {
        match self {
            Load::Ready(v) => Load::Ready(v.clone()),
            Load::Loading => Load::Loading,
        }
    }
}

impl<T> Load<T> {
    /// Whether the value is there.
    pub fn is_ready(&self) -> (res: bool)
        ensures
            res <==> self is Ready,
    {
        matches!(self, Load::Ready(_))
    }

    /// The value, if it is there.
    pub fn ready(self) -> (res: Option<T>)
        ensures
            res == self.spec_ready(),
    {
        match self {
            Load::Ready(v) => Some(v),
            Load::Loading => None,
        }
    }

    /// The value as an option.
    pub open spec fn spec_ready(self) -> Option<T> {
        match self {
            Load::Ready(v) => Some(v),
            Load::Loading => None,
        }
    }

    /// The same state, with the value borrowed.
    pub open spec fn borrowed(&self) -> Load<&T> {
        match *self {
            Load::Ready(v) => Load::Ready(&v),
            Load::Loading => Load::Loading,
        }
    }

    /// `other` is the same state, with a clone of the value.
    pub open spec fn clones_to(&self, other: Self) -> bool where T: Clone {
        match *self {
            Load::Ready(v) => other is Ready && cloned(v, other->Ready_0),
            Load::Loading => other is Loading,
        }
    }

    /// The same state, with the value borrowed.
    pub fn as_ref(&self) -> (res: Load<&T>)
        ensures
            res == self.borrowed(),
    {
        match self {
            Load::Ready(v) => Load::Ready(v),
            Load::Loading => Load::Loading,
        }
    }
}

impl<T> Load<&T> {
    /// The same state, with the borrowed value cloned.
    pub fn cloned(self) -> (res: Load<T>) where T: Clone
        ensures
            match self {
                Load::Ready(v) => res is Ready && cloned(*v, res->Ready_0),
                Load::Loading => res is Loading,
            },
    {
        match self {
            Load::Ready(v) => Load::Ready(v.clone()),
            Load::Loading => Load::Loading,
        }
    }
}

/// A state has a value exactly if it is ready.
pub proof fn law_value_is_there_when_ready<T>(load: Load<T>)
    ensures
        load is Ready <==> load.spec_ready() is Some,
        load is Ready ==> load == Load::Ready(load.spec_ready()->0),
{
}

/// Borrowing the value and cloning it again is cloning the state. With values that are equal to
/// their clones it gives the state back.
pub proof fn law_borrowed_and_cloned_is_the_same<T: Clone>(load: Load<T>, other: Load<T>)
    requires
        match load.borrowed() {
            Load::Ready(v) => other is Ready && cloned(*v, other->Ready_0),
            Load::Loading => other is Loading,
        },
    ensures
        load.clones_to(other),
        (forall|a: T, b: T| #[trigger] cloned(a, b) ==> a == b) ==> other == load,
{
}

/// A clone is ready exactly if the state is, and then holds a clone of the value.
pub proof fn law_clone_is_the_same_state<T: Clone>(load: Load<T>, copy: Load<T>)
    requires
        call_ensures(<Load<T> as Clone>::clone, (&load,), copy),
    ensures
        load is Loading <==> copy is Loading,
        load matches Load::Ready(value) ==> copy is Ready && cloned(value, copy->Ready_0),
{
}

/// A state that is ready says so and gives its value, one that is loading gives none.
pub proof fn law_ready_gives_the_value<T>(load: Load<T>, is_ready: bool, value: Option<T>)
    requires
        call_ensures(Load::<T>::is_ready, (&load,), is_ready),
        call_ensures(Load::<T>::ready, (load,), value),
    ensures
        load is Loading ==> !is_ready && value is None,
        load matches Load::Ready(held) ==> is_ready && value == Some(held),
{
}

/// To borrow the value and to clone what was borrowed is to clone the value, and keeps the state.
pub proof fn law_borrowed_state_is_the_same<T: Clone>(
    load: Load<T>,
    borrowed: Load<&T>,
    copy: Load<T>,
)
    requires
        call_ensures(Load::<T>::as_ref, (&load,), borrowed),
        call_ensures(Load::<&T>::cloned, (borrowed,), copy),
    ensures
        load is Loading ==> borrowed is Loading && copy is Loading,
        load matches Load::Ready(held) ==> {
            &&& borrowed is Ready
            &&& *borrowed->Ready_0 == held
            &&& copy is Ready
            &&& cloned(held, copy->Ready_0)
        },
{
}

} // verus!
