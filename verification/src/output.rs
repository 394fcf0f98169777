//! The signal that a combinator writes to.

use leptos::prelude::{ArcReadSignal, ArcRwSignal};
use vstd::prelude::*;

verus! {

/// The readable and writable signal of `leptos`. Nothing is claimed of a value of it.
#[verifier::external_type_specification]
#[verifier::external_body]
#[verifier::reject_recursive_types(T)]
pub struct ExArcRwSignal<T>(ArcRwSignal<T>);

/// The read-only handle on a signal of `leptos`. Nothing is claimed of a value of it.
#[verifier::external_type_specification]
#[verifier::external_body]
#[verifier::reject_recursive_types(T)]
pub struct ExArcReadSignal<T>(ArcReadSignal<T>);

/// A signal with one writer: the handle that can write leaves this value only where the signal has
/// no content, as a [`Trigger`]. Else only the read-only one does. The view is the sequence of the
/// values that the signal was given, from the initial one to the latest, which it holds unless a
/// panic has poisoned its lock.
#[verifier::reject_recursive_types(T)]
pub struct Output<T> {
    signal: ArcRwSignal<T>,
    reader: ArcReadSignal<T>,
    history: Ghost<Seq<T>>,
}

impl<T> View for Output<T> {
    type V = Seq<T>;

    closed spec fn view(&self) -> Seq<T> {
        self.history@
    }
}

impl<T: 'static> Output<T> {
    /// The read-only handle on the signal.
    pub closed spec fn reading(&self) -> ArcReadSignal<T> {
        self.reader
    }

    /// Makes the signal by `ArcRwSignal::new`, which stores its argument as the value of a new
    /// signal, and the handle by `ArcRwSignal::read_only`, which shares that value. Claimed: the
    /// signal was given `value` and nothing else.
    #[verifier::external_body]
    pub(crate) fn new(value: T) -> (res: Self)
        ensures
            res@ == seq![value],
    {
        let ghost history = seq![value];
        let signal = ArcRwSignal::new(value);
        let reader = signal.read_only();
        Output { signal, reader, history: Ghost(history) }
    }

    /// Calls `Set::set` of the signal, which stores `value` in place of the value before it and
    /// notifies the subscribers. Claimed: the signal was given `value` after what it was given
    /// before, and its read-only handle stays the same. What the subscribers do is left unsaid.
    #[verifier::external_body]
    pub(crate) fn publish(&mut self, value: T)
        ensures
            final(self)@ == old(self)@.push(value),
            final(self).reading() == old(self).reading(),
    {
        leptos::prelude::Set::set(&self.signal, value);
    }

    /// The read-only handle on the signal.
    pub fn reader(&self) -> (res: &ArcReadSignal<T>)
        ensures
            *res == self.reading(),
    {
        &self.reader
    }
}

impl Output<()> {
    /// The signal.
    pub closed spec fn handle(&self) -> ArcRwSignal<()> {
        self.signal
    }

    /// Makes a second handle on the signal by `Clone::clone` of `ArcRwSignal`, which shares the
    /// value and the subscribers. Claimed: both handles are on the same signal, and nothing was
    /// notified through the new one.
    #[verifier::external_body]
    pub(crate) fn trigger(&self) -> (res: Trigger)
        ensures
            res.handle() == self.handle(),
            res@ == 0,
    {
        Trigger { signal: self.signal.clone(), notified: Ghost(0) }
    }
}

/// A handle on a signal without content, through which its subscribers are notified. The view is
/// how often that was done through this handle.
pub struct Trigger {
    signal: ArcRwSignal<()>,
    notified: Ghost<nat>,
}

impl View for Trigger {
    type V = nat;

    closed spec fn view(&self) -> nat {
        self.notified@
    }
}

impl Trigger {
    /// The signal that this handle is on.
    pub closed spec fn handle(&self) -> ArcRwSignal<()> {
        self.signal
    }

    /// The signal that this handle is on, to subscribe to.
    pub fn signal(&self) -> (res: &ArcRwSignal<()>)
        ensures
            *res == self.handle(),
    {
        &self.signal
    }

    /// Calls `Notify::notify` of the signal, which marks every subscriber dirty and writes nothing.
    /// Claimed: the subscribers were notified once more, and the handle is on the same signal. What
    /// the subscribers do is left unsaid.
    #[verifier::external_body]
    pub(crate) fn notify(&mut self)
        ensures
            final(self)@ == old(self)@ + 1,
            final(self).handle() == old(self).handle(),
    {
        leptos::prelude::Notify::notify(&self.signal);
    }
}

} // verus!
