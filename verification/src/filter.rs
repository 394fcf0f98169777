//! Combinators that leave out some of the values of a signal.

use crate::output::Output;
use leptos::prelude::ArcReadSignal;
use vstd::prelude::*;

verus! {

/// A signal that starts with the value of another one and then takes over some of its values.
#[verifier::reject_recursive_types(T)]
pub struct Filter<T> {
    output: Output<T>,
}

impl<T> View for Filter<T> {
    type V = Seq<T>;

    /// The values that the signal was given, from the first one to the one that it holds.
    closed spec fn view(&self) -> Seq<T> {
        self.output@
    }
}

/// What a signal with the history `history` was given once `value` has arrived.
pub open spec fn filtered<T>(history: Seq<T>, value: T, keep: bool) -> Seq<T> {
    if keep {
        history.push(value)
    } else {
        history
    }
}

impl<T: Clone + 'static> Filter<T> {
    /// The read-only handle on the signal.
    pub closed spec fn reading(&self) -> ArcReadSignal<T> {
        self.output.reading()
    }

    /// Starts with a clone of the value that the source has now.
    pub fn new(current: &T) -> (res: Self)
        ensures
            res@.len() == 1,
            cloned(*current, res@[0]),
    {
        Filter { output: Output::new(current.clone()) }
    }

    /// The read-only handle on the signal.
    pub fn reader(&self) -> (res: &ArcReadSignal<T>)
        ensures
            *res == self.reading(),
    {
        self.output.reader()
    }

    /// Takes the next value of the source: it is *kept*, as a clone, if `f` says so.
    pub fn keep_if<F: FnOnce(&T) -> bool>(&mut self, value: &T, f: F)
        requires
            f.requires((value,)),
        ensures
            final(self).reading() == old(self).reading(),
            exists|keep: bool, copy: T|
                #![trigger f.ensures((value,), keep), cloned(*value, copy)]
                f.ensures((value,), keep) && cloned(*value, copy) && final(self)@
                    == filtered(old(self)@, copy, keep),
    {
        if f(value) {
            let copy = value.clone();
            let ghost kept = copy;
            self.output.publish(copy);
            assert(f.ensures((value,), true) && cloned(*value, kept));
        } else {
            assert(f.ensures((value,), false) && cloned(*value, *value));
        }
    }

    /// Takes the next value of the source: it is *skipped* if `f` says so, and else kept, as a
    /// clone.
    pub fn skip_if<F: FnOnce(&T) -> bool>(&mut self, value: &T, f: F)
        requires
            f.requires((value,)),
        ensures
            final(self).reading() == old(self).reading(),
            exists|skip: bool, copy: T|
                #![trigger f.ensures((value,), skip), cloned(*value, copy)]
                f.ensures((value,), skip) && cloned(*value, copy) && final(self)@
                    == filtered(old(self)@, copy, !skip),
    {
        if f(value) {
            assert(f.ensures((value,), true) && cloned(*value, *value));
        } else {
            let copy = value.clone();
            let ghost kept = copy;
            self.output.publish(copy);
            assert(f.ensures((value,), false) && cloned(*value, kept));
        }
    }
}

/// What a signal with the history `history` was given once `values` have arrived, of which those
/// with `keep` are kept.
pub open spec fn filtered_all<T>(history: Seq<T>, values: Seq<T>, keep: spec_fn(T) -> bool) -> Seq<
    T,
>
    decreases values.len(),
{
    if values.len() == 0 {
        history
    } else {
        filtered(
            filtered_all(history, values.drop_last(), keep),
            values.last(),
            keep(values.last()),
        )
    }
}

/// The signal starts with the initial value, and is then given those values of the source that
/// are kept, in order.
pub proof fn law_kept_values_follow_the_first<T>(
    initial: T,
    values: Seq<T>,
    keep: spec_fn(T) -> bool,
)
    ensures
        filtered_all(seq![initial], values, keep) == seq![initial] + values.filter(keep),
    decreases values.len(),
{
    reveal(Seq::filter);
    if values.len() > 0 {
        law_kept_values_follow_the_first(initial, values.drop_last(), keep);
    }
}

/// What a signal with the history `history` was given once `values` have arrived, of which those
/// with `skip` are skipped.
pub open spec fn unskipped_all<T>(
    history: Seq<T>,
    values: Seq<T>,
    skip: spec_fn(T) -> bool,
) -> Seq<T>
    decreases values.len(),
{
    if values.len() == 0 {
        history
    } else {
        filtered(
            unskipped_all(history, values.drop_last(), skip),
            values.last(),
            !skip(values.last()),
        )
    }
}

/// Skipping what a predicate says is keeping what it does not say.
pub proof fn law_skipping_is_keeping_the_others<T>(
    initial: T,
    values: Seq<T>,
    skip: spec_fn(T) -> bool,
)
    ensures
        unskipped_all(seq![initial], values, skip) == filtered_all(
            seq![initial],
            values,
            |v: T| !skip(v),
        ),
        unskipped_all(seq![initial], values, skip) == seq![initial] + values.filter(
            |v: T| !skip(v),
        ),
    decreases values.len(),
{
    law_kept_values_follow_the_first(initial, values, |v: T| !skip(v));
    if values.len() > 0 {
        law_skipping_is_keeping_the_others(initial, values.drop_last(), skip);
    }
}

/// A filtered signal starts with one value, a clone of the one that the source has.
pub proof fn law_filter_starts_with_the_source<T: Clone + 'static>(current: T, made: Filter<T>)
    requires
        call_ensures(Filter::<T>::new, (&current,), made),
    ensures
        made@.len() == 1,
        cloned(current, made@[0]),
{
}

/// A value for which the closure says yes is what the signal of [`Filter::keep_if`] is given, as a
/// clone and once. One for which it says no leaves the signal as it is.
pub proof fn law_keep_if_takes_over_what_the_closure_keeps<
    T: Clone + 'static,
    F: FnOnce(&T) -> bool,
>(filter: &mut Filter<T>, value: T, f: F)
    requires
        call_ensures(Filter::<T>::keep_if::<F>, (filter, &value, f), ()),
    ensures
        final(filter).reading() == old(filter).reading(),
        !f.ensures((&value,), false) ==> {
            &&& final(filter)@.len() == old(filter)@.len() + 1
            &&& final(filter)@.drop_last() == old(filter)@
            &&& cloned(value, final(filter)@.last())
        },
        !f.ensures((&value,), true) ==> final(filter)@ == old(filter)@,
{
    if final(filter)@ != old(filter)@ {
        assert(final(filter)@.drop_last() == old(filter)@);
    }
}

/// A value for which the closure says yes leaves the signal of [`Filter::skip_if`] as it is. One for
/// which it says no is what the signal is given, as a clone and once.
pub proof fn law_skip_if_takes_over_what_the_closure_does_not_skip<
    T: Clone + 'static,
    F: FnOnce(&T) -> bool,
>(filter: &mut Filter<T>, value: T, f: F)
    requires
        call_ensures(Filter::<T>::skip_if::<F>, (filter, &value, f), ()),
    ensures
        final(filter).reading() == old(filter).reading(),
        !f.ensures((&value,), true) ==> {
            &&& final(filter)@.len() == old(filter)@.len() + 1
            &&& final(filter)@.drop_last() == old(filter)@
            &&& cloned(value, final(filter)@.last())
        },
        !f.ensures((&value,), false) ==> final(filter)@ == old(filter)@,
{
    if final(filter)@ != old(filter)@ {
        assert(final(filter)@.drop_last() == old(filter)@);
    }
}

/// With a closure that can say either, the signal is given a clone of the value or nothing, in
/// agreement with what the closure can have said.
pub proof fn law_filter_follows_the_closure<T: Clone + 'static, F: FnOnce(&T) -> bool>(
    keeping: &mut Filter<T>,
    skipping: &mut Filter<T>,
    value: T,
    f: F,
)
    requires
        call_ensures(Filter::<T>::keep_if::<F>, (keeping, &value, f), ()),
        call_ensures(Filter::<T>::skip_if::<F>, (skipping, &value, f), ()),
    ensures
        if final(keeping)@.len() == old(keeping)@.len() {
            final(keeping)@ == old(keeping)@ && f.ensures((&value,), false)
        } else {
            f.ensures((&value,), true) && cloned(value, final(keeping)@.last())
        },
        if final(skipping)@.len() == old(skipping)@.len() {
            final(skipping)@ == old(skipping)@ && f.ensures((&value,), true)
        } else {
            f.ensures((&value,), false) && cloned(value, final(skipping)@.last())
        },
{
}

/// Every value is accepted if the closure accepts it.
pub proof fn law_filters_accept_every_value<T: Clone + 'static, F: FnOnce(&T) -> bool>(
    filter: &mut Filter<T>,
    value: T,
    f: F,
)
    requires
        f.requires((&value,)),
    ensures
        call_requires(Filter::<T>::new, (&value,)),
        call_requires(Filter::<T>::keep_if::<F>, (filter, &value, f)),
        call_requires(Filter::<T>::skip_if::<F>, (filter, &value, f)),
{
}

} // verus!
