//! Combinators that hand each value of a signal to a closure.

use vstd::prelude::*;

verus! {

/// Leaves out the value that a signal has at the start, and no other. Values arrive some time after
/// the signal was set to them: when it is set before the first of them has arrived, the value of the
/// start never does, and [`Self::changed`] has to say so.
#[derive(Debug)]
pub struct AfterFirst {
    first: bool,
}

impl AfterFirst {
    /// The value that the signal had at the start is still to arrive.
    pub closed spec fn is_fresh(&self) -> bool {
        self.first
    }

    pub fn new() -> (res: Self)
        ensures
            res.is_fresh(),
    {
        AfterFirst { first: true }
    }

    /// The signal was set: what arrives from now on is not the value of the start.
    pub fn changed(&mut self)
        ensures
            !final(self).is_fresh(),
    {
        self.first = false;
    }

    /// Takes the next value that arrives: the one of the start is passed over, every other one is
    /// handed to `f`.
    pub fn for_each_after_first<T: ?Sized, U, F: FnOnce(&T) -> U>(&mut self, value: &T, f: F) -> (res:
        Option<U>)
        requires
            !old(self).is_fresh() ==> f.requires((value,)),
        ensures
            !final(self).is_fresh(),
            old(self).is_fresh() ==> res is None,
            !old(self).is_fresh() ==> res is Some && f.ensures((value,), res->0),
    {
        if self.first {
            self.first = false;
            None
        } else {
            Some(f(value))
        }
    }
}

/// Remembers the latest value, to hand it out beside the next one. It starts with the value that a
/// signal has at the start, which is handed out as the one before the first change.
#[derive(Debug)]
pub struct ForEachWindow<T> {
    old: T,
    first: bool,
}

impl<T> ForEachWindow<T> {
    /// The latest value.
    pub closed spec fn latest(&self) -> T {
        self.old
    }

    /// The value that the signal had at the start is still to arrive.
    pub closed spec fn is_fresh(&self) -> bool {
        self.first
    }

    /// Starts from the value that the signal has now.
    pub fn new(current: &T) -> (res: Self) where T: Clone
        ensures
            res.is_fresh(),
            cloned(*current, res.latest()),
    {
        ForEachWindow { old: current.clone(), first: true }
    }

    /// The signal was set: what arrives from now on is not the value of the start.
    pub fn changed(&mut self)
        ensures
            !final(self).is_fresh(),
            final(self).latest() == old(self).latest(),
    {
        self.first = false;
    }

    /// Takes the next value that arrives: the one of the start is passed over, every other one is
    /// handed to `f` behind the value before it.
    pub fn for_each_window<U, F: FnOnce(&T, &T) -> U>(&mut self, new: &T, f: F) -> (res: Option<U>)
        where T: Clone
        requires
            !old(self).is_fresh() ==> f.requires((&old(self).latest(), new)),
        ensures
            !final(self).is_fresh(),
            old(self).is_fresh() ==> res is None && final(self).latest() == old(self).latest(),
            !old(self).is_fresh() ==> res is Some && f.ensures(
                (&old(self).latest(), new),
                res->0,
            ) && cloned(*new, final(self).latest()),
    {
        if self.first {
            self.first = false;
            None
        } else {
            let res = f(&self.old, new);
            self.old = new.clone();
            Some(res)
        }
    }
}

/// Maps each value together with the value before it.
#[derive(Debug)]
pub struct MapWindow<T> {
    old: Option<T>,
}

impl<T> MapWindow<T> {
    /// The latest value, once one has arrived.
    pub closed spec fn latest(&self) -> Option<T> {
        self.old
    }

    pub fn new() -> (res: Self)
        ensures
            res.latest() is None,
    {
        MapWindow { old: None }
    }

    /// Hands a clone of `value` to `f`, behind the value before it, and keeps the clone.
    pub fn map_window<U, F: FnOnce(Option<T>, &T) -> U>(&mut self, value: &T, f: F) -> (res: U)
        where T: Clone
        requires
            forall|new: T| #[trigger]
                cloned(*value, new) ==> f.requires((old(self).latest(), &new)),
        ensures
            final(self).latest() is Some,
            cloned(*value, final(self).latest()->0),
            f.ensures((old(self).latest(), &final(self).latest()->0), res),
    {
        let new = value.clone();
        assert(cloned(*value, new));
        let res = f(self.old.take(), &new);
        self.old = Some(new);
        res
    }
}

/// Maps each value together with the result before it.
#[derive(Debug)]
pub struct MapWithPrev<U> {
    old: Option<U>,
}

impl<U> MapWithPrev<U> {
    /// The latest result, once there is one.
    pub closed spec fn latest(&self) -> Option<U> {
        self.old
    }

    pub fn new() -> (res: Self)
        ensures
            res.latest() is None,
    {
        MapWithPrev { old: None }
    }

    /// Hands `value` to `f`, behind the result before it, and keeps a clone of the result.
    pub fn map_with_prev<T: ?Sized, F: FnOnce(Option<U>, &T) -> U>(&mut self, value: &T, f: F) -> (res: U)
        where U: Clone
        requires
            f.requires((old(self).latest(), value)),
        ensures
            f.ensures((old(self).latest(), value), res),
            final(self).latest() is Some,
            cloned(res, final(self).latest()->0),
    {
        let res = f(self.old.take(), value);
        self.old = Some(res.clone());
        res
    }
}

/// What happens to a signal that is observed.
pub enum SourceEvent<T> {
    /// The signal is set, which [`AfterFirst::changed`] or [`ForEachWindow::changed`] is told.
    Change(T),
    /// The value that the signal has arrives.
    Arrival,
}

/// The value of a signal that had the value `start` before `events`.
pub open spec fn source_value<T>(start: T, events: Seq<SourceEvent<T>>) -> T
    decreases events.len(),
{
    if events.len() == 0 {
        start
    } else {
        match events.last() {
            SourceEvent::Change(value) => value,
            SourceEvent::Arrival => source_value(start, events.drop_last()),
        }
    }
}

/// The value of the start is still to arrive after `events`: either event ends that.
pub open spec fn fresh_after<T>(events: Seq<SourceEvent<T>>) -> bool {
    events.len() == 0
}

/// Values arrive only of a signal that has been set since the arrival before, but for the first.
pub open spec fn arrivals_follow_changes<T>(events: Seq<SourceEvent<T>>) -> bool {
    forall|i: int|
        0 < i < events.len() && #[trigger] events[i] is Arrival ==> events[i - 1] is Change
}

/// The values that [`AfterFirst::for_each_after_first`] hands on.
pub open spec fn handed_on<T>(start: T, events: Seq<SourceEvent<T>>) -> Seq<T>
    decreases events.len(),
{
    if events.len() == 0 {
        Seq::empty()
    } else {
        let earlier = events.drop_last();
        if events.last() is Arrival && !fresh_after(earlier) {
            handed_on(start, earlier).push(source_value(start, earlier))
        } else {
            handed_on(start, earlier)
        }
    }
}

/// Whatever happened before, also if nothing did, a value that the signal is set to is handed on when
/// it arrives. The value of the start is not.
pub proof fn law_change_is_handed_on<T>(start: T, events: Seq<SourceEvent<T>>, value: T)
    ensures
        handed_on(start, events.push(SourceEvent::Change(value)).push(SourceEvent::Arrival))
            == handed_on(start, events).push(value),
        handed_on(start, seq![SourceEvent::<T>::Arrival]) == Seq::<T>::empty(),
{
    let set = events.push(SourceEvent::Change(value));
    let arrived = set.push(SourceEvent::Arrival);
    assert(arrived.drop_last() == set);
    assert(set.drop_last() == events);
    assert(handed_on(start, set) == handed_on(start, events));
    assert(source_value(start, set) == value);
    let alone = seq![SourceEvent::<T>::Arrival];
    assert(alone.drop_last() == Seq::<SourceEvent<T>>::empty());
    assert(handed_on(start, alone.drop_last()) == Seq::<T>::empty());
}

/// Only values that the signal was set to are handed on.
pub proof fn law_only_changes_are_handed_on<T>(start: T, events: Seq<SourceEvent<T>>, i: int)
    requires
        arrivals_follow_changes(events),
        0 <= i < handed_on(start, events).len(),
    ensures
        events.contains(SourceEvent::Change(handed_on(start, events)[i])),
    decreases events.len(),
{
    let earlier = events.drop_last();
    let before = handed_on(start, earlier);
    assert(arrivals_follow_changes(earlier)) by {
        assert forall|k: int|
            0 < k < earlier.len() && #[trigger] earlier[k] is Arrival implies earlier[k - 1]
            is Change by {
            assert(events[k] is Arrival);
        }
    }
    if i < before.len() {
        law_only_changes_are_handed_on(start, earlier, i);
        let k = choose|k: int|
            0 <= k < earlier.len() && earlier[k] == SourceEvent::Change(before[i]);
        assert(events[k] == SourceEvent::Change(handed_on(start, events)[i]));
    } else {
        let k = events.len() - 2;
        assert(events[k + 1] is Arrival);
        assert(earlier.last() == events[k]);
        assert(events[k] == SourceEvent::Change(handed_on(start, events)[i]));
    }
}

/// The latest value of a [`ForEachWindow`].
pub open spec fn window_latest<T>(start: T, events: Seq<SourceEvent<T>>) -> T
    decreases events.len(),
{
    if events.len() == 0 {
        start
    } else {
        let earlier = events.drop_last();
        if events.last() is Arrival && !fresh_after(earlier) {
            source_value(start, earlier)
        } else {
            window_latest(start, earlier)
        }
    }
}

/// The pairs that [`ForEachWindow::for_each_window`] hands out.
pub open spec fn windows<T>(start: T, events: Seq<SourceEvent<T>>) -> Seq<(T, T)>
    decreases events.len(),
{
    if events.len() == 0 {
        Seq::empty()
    } else {
        let earlier = events.drop_last();
        if events.last() is Arrival && !fresh_after(earlier) {
            windows(start, earlier).push(
                (window_latest(start, earlier), source_value(start, earlier)),
            )
        } else {
            windows(start, earlier)
        }
    }
}

/// Whatever happened before, also if nothing did, a value that the signal is set to is handed out
/// when it arrives, behind the latest one. The value of the start is not.
pub proof fn law_each_change_is_a_window<T>(start: T, events: Seq<SourceEvent<T>>, value: T)
    ensures
        windows(start, events.push(SourceEvent::Change(value)).push(SourceEvent::Arrival)) == windows(
            start,
            events,
        ).push((window_latest(start, events), value)),
        windows(start, seq![SourceEvent::<T>::Arrival]) == Seq::<(T, T)>::empty(),
{
    let set = events.push(SourceEvent::Change(value));
    let arrived = set.push(SourceEvent::Arrival);
    assert(arrived.drop_last() == set);
    assert(set.drop_last() == events);
    assert(windows(start, set) == windows(start, events));
    assert(window_latest(start, set) == window_latest(start, events));
    assert(source_value(start, set) == value);
    let alone = seq![SourceEvent::<T>::Arrival];
    assert(alone.drop_last() == Seq::<SourceEvent<T>>::empty());
    assert(windows(start, alone.drop_last()) == Seq::<(T, T)>::empty());
}

/// The pairs are a chain: the first begins with the value of the start, and each begins with the
/// value that the one before it ends with. The new values are those that are handed on.
pub proof fn law_windows_are_a_chain<T>(start: T, events: Seq<SourceEvent<T>>)
    ensures
        windows(start, events).len() == handed_on(start, events).len(),
        forall|i: int|
            0 <= i < windows(start, events).len() ==> #[trigger] windows(start, events)[i] == (
                if i == 0 {
                    start
                } else {
                    handed_on(start, events)[i - 1]
                },
                handed_on(start, events)[i],
            ),
        window_latest(start, events) == (if windows(start, events).len() == 0 {
            start
        } else {
            windows(start, events).last().1
        }),
    decreases events.len(),
{
    if events.len() > 0 {
        law_windows_are_a_chain(start, events.drop_last());
    }
}

/// What [`MapWindow::map_window`] hands to its closure when `values` arrive.
pub open spec fn window_arguments<T>(latest: Option<T>, values: Seq<T>) -> Seq<(Option<T>, T)>
    decreases values.len(),
{
    if values.len() == 0 {
        Seq::empty()
    } else {
        seq![(latest, values[0])] + window_arguments(Some(values[0]), values.drop_first())
    }
}

/// The closure sees each value behind the one before it, and the first behind none.
pub proof fn law_map_window_sees_the_value_before<T>(latest: Option<T>, values: Seq<T>)
    ensures
        window_arguments(latest, values).len() == values.len(),
        forall|i: int|
            0 <= i < values.len() ==> #[trigger] window_arguments(latest, values)[i] == (
                if i == 0 {
                    latest
                } else {
                    Some(values[i - 1])
                },
                values[i],
            ),
    decreases values.len(),
{
    if values.len() > 0 {
        let rest = values.drop_first();
        law_map_window_sees_the_value_before(Some(values[0]), rest);
        assert forall|i: int| 0 <= i < values.len() implies #[trigger] window_arguments(
            latest,
            values,
        )[i] == (
            if i == 0 {
                latest
            } else {
                Some(values[i - 1])
            },
            values[i],
        ) by {
            if i > 0 {
                assert(window_arguments(Some(values[0]), rest)[i - 1] == window_arguments(
                    latest,
                    values,
                )[i]);
            }
        }
    }
}

/// The results of [`MapWithPrev::map_with_prev`] when `values` arrive, for a closure that computes
/// `f` and results that are equal to their clones.
pub open spec fn results_with_prev<T, U>(
    f: spec_fn(Option<U>, T) -> U,
    latest: Option<U>,
    values: Seq<T>,
) -> Seq<U>
    decreases values.len(),
{
    if values.len() == 0 {
        Seq::empty()
    } else {
        let result = f(latest, values[0]);
        seq![result] + results_with_prev(f, Some(result), values.drop_first())
    }
}

/// Each result is computed from the result before it, and the first from none.
pub proof fn law_map_with_prev_sees_the_result_before<T, U>(
    f: spec_fn(Option<U>, T) -> U,
    latest: Option<U>,
    values: Seq<T>,
)
    ensures
        results_with_prev(f, latest, values).len() == values.len(),
        forall|i: int|
            0 <= i < values.len() ==> #[trigger] results_with_prev(f, latest, values)[i] == f(
                if i == 0 {
                    latest
                } else {
                    Some(results_with_prev(f, latest, values)[i - 1])
                },
                values[i],
            ),
    decreases values.len(),
{
    if values.len() > 0 {
        let result = f(latest, values[0]);
        let rest = values.drop_first();
        let tail = results_with_prev(f, Some(result), rest);
        let all = results_with_prev(f, latest, values);
        law_map_with_prev_sees_the_result_before(f, Some(result), rest);
        assert(all == seq![result] + tail);
        assert forall|i: int| 0 <= i < values.len() implies #[trigger] all[i] == f(
            if i == 0 {
                latest
            } else {
                Some(all[i - 1])
            },
            values[i],
        ) by {
            if i > 0 {
                assert(tail[i - 1] == all[i]);
                assert(i > 1 ==> tail[i - 2] == all[i - 1]);
            }
        }
    }
}

/// The first value that arrives is passed over, the second one is handed to the closure.
pub proof fn law_first_value_alone_is_passed_over<T: ?Sized, U, F: FnOnce(&T) -> U>(
    made: AfterFirst,
    first: &mut AfterFirst,
    value: &T,
    f: F,
    res: Option<U>,
    second: &mut AfterFirst,
    next: &T,
    g: F,
    then: Option<U>,
)
    requires
        call_ensures(AfterFirst::new, (), made),
        *old(first) == made,
        call_ensures(AfterFirst::for_each_after_first::<T, U, F>, (first, value, f), res),
        *old(second) == *final(first),
        call_ensures(AfterFirst::for_each_after_first::<T, U, F>, (second, next, g), then),
    ensures
        res is None,
        then is Some,
        g.ensures((next,), then->0),
{
}

/// Once a value has arrived, or the signal was set, every value is handed to the closure, and so is
/// every one after it.
pub proof fn law_later_values_are_handed_on<T: ?Sized, U, F: FnOnce(&T) -> U>(
    before: &mut AfterFirst,
    earlier: &T,
    e: F,
    past: Option<U>,
    first: &mut AfterFirst,
    value: &T,
    f: F,
    res: Option<U>,
    second: &mut AfterFirst,
    next: &T,
    g: F,
    then: Option<U>,
)
    requires
        call_ensures(AfterFirst::changed, (before,), ()) || call_ensures(
            AfterFirst::for_each_after_first::<T, U, F>,
            (before, earlier, e),
            past,
        ),
        *old(first) == *final(before),
        call_ensures(AfterFirst::for_each_after_first::<T, U, F>, (first, value, f), res),
        *old(second) == *final(first),
        call_ensures(AfterFirst::for_each_after_first::<T, U, F>, (second, next, g), then),
    ensures
        res is Some,
        f.ensures((value,), res->0),
        then is Some,
        g.ensures((next,), then->0),
{
}

/// A window opens with the value that the signal had at the start. If that value arrives first, it
/// is passed over, and the value that arrives next is handed out behind it.
pub proof fn law_first_window_begins_at_the_start<T: Clone, U, F: FnOnce(&T, &T) -> U>(
    start: T,
    made: ForEachWindow<T>,
    first: &mut ForEachWindow<T>,
    value: T,
    f: F,
    res: Option<U>,
    second: &mut ForEachWindow<T>,
    next: T,
    g: F,
    then: Option<U>,
)
    requires
        call_ensures(ForEachWindow::<T>::new, (&start,), made),
        *old(first) == made,
        call_ensures(ForEachWindow::<T>::for_each_window::<U, F>, (first, &value, f), res),
        *old(second) == *final(first),
        call_ensures(ForEachWindow::<T>::for_each_window::<U, F>, (second, &next, g), then),
    ensures
        res is None,
        then is Some,
        exists|past: T|
            #![trigger cloned(start, past)]
            cloned(start, past) && g.ensures((&past, &next), then->0),
{
    assert(cloned(start, made.latest()));
}

/// If the signal is set before the value of the start has arrived, the value that arrives is handed
/// out behind that of the start.
pub proof fn law_change_before_the_first_arrival_is_a_window<T: Clone, U, F: FnOnce(&T, &T) -> U>(
    start: T,
    made: ForEachWindow<T>,
    set: &mut ForEachWindow<T>,
    first: &mut ForEachWindow<T>,
    value: T,
    f: F,
    res: Option<U>,
)
    requires
        call_ensures(ForEachWindow::<T>::new, (&start,), made),
        *old(set) == made,
        call_ensures(ForEachWindow::<T>::changed, (set,), ()),
        *old(first) == *final(set),
        call_ensures(ForEachWindow::<T>::for_each_window::<U, F>, (first, &value, f), res),
    ensures
        res is Some,
        exists|past: T|
            #![trigger cloned(start, past)]
            cloned(start, past) && f.ensures((&past, &value), res->0),
{
    assert(cloned(start, made.latest()));
}

/// Once a value was handed out, each that arrives is handed out behind the one before it, also if the
/// signal was set more than once in between.
pub proof fn law_next_window_begins_where_the_last_ended<T: Clone, U, F: FnOnce(&T, &T) -> U>(
    first: &mut ForEachWindow<T>,
    value: T,
    f: F,
    res: Option<U>,
    set: &mut ForEachWindow<T>,
    second: &mut ForEachWindow<T>,
    next: T,
    g: F,
    then: Option<U>,
)
    requires
        call_ensures(ForEachWindow::<T>::for_each_window::<U, F>, (first, &value, f), res),
        res is Some,
        *old(set) == *final(first),
        call_ensures(ForEachWindow::<T>::changed, (set,), ()),
        *old(second) == *final(set) || *old(second) == *final(first),
        call_ensures(ForEachWindow::<T>::for_each_window::<U, F>, (second, &next, g), then),
    ensures
        then is Some,
        exists|past: T|
            #![trigger cloned(value, past)]
            cloned(value, past) && g.ensures((&past, &next), then->0),
{
    assert(cloned(value, final(first).latest()));
}

/// The first value is mapped behind none, and each later one behind the clone that was kept of the
/// value before it.
pub proof fn law_map_window_hands_on_the_value_before<
    T: Clone,
    U,
    F: FnOnce(Option<T>, &T) -> U,
>(
    made: MapWindow<T>,
    start: &mut MapWindow<T>,
    initial: T,
    e: F,
    begun: U,
    first: &mut MapWindow<T>,
    value: T,
    f: F,
    res: U,
    second: &mut MapWindow<T>,
    next: T,
    g: F,
    then: U,
)
    requires
        call_ensures(MapWindow::<T>::new, (), made),
        *old(start) == made,
        call_ensures(MapWindow::<T>::map_window::<U, F>, (start, &initial, e), begun),
        call_ensures(MapWindow::<T>::map_window::<U, F>, (first, &value, f), res),
        *old(second) == *final(first),
        call_ensures(MapWindow::<T>::map_window::<U, F>, (second, &next, g), then),
    ensures
        exists|copy: T|
            #![trigger cloned(initial, copy)]
            cloned(initial, copy) && e.ensures((None, &copy), begun),
        exists|past: T, copy: T|
            #![trigger cloned(value, past), cloned(next, copy)]
            cloned(value, past) && cloned(next, copy) && g.ensures((Some(past), &copy), then),
{
    assert(cloned(initial, final(start).latest()->0));
    assert(cloned(value, final(first).latest()->0));
    assert(cloned(next, final(second).latest()->0));
}

/// The first result is computed from none, and each later one from a clone of the result before it.
pub proof fn law_map_with_prev_hands_on_the_result_before<
    T: ?Sized,
    U: Clone,
    F: FnOnce(Option<U>, &T) -> U,
>(
    made: MapWithPrev<U>,
    start: &mut MapWithPrev<U>,
    initial: &T,
    e: F,
    begun: U,
    first: &mut MapWithPrev<U>,
    value: &T,
    f: F,
    res: U,
    second: &mut MapWithPrev<U>,
    next: &T,
    g: F,
    then: U,
)
    requires
        call_ensures(MapWithPrev::<U>::new, (), made),
        *old(start) == made,
        call_ensures(MapWithPrev::<U>::map_with_prev::<T, F>, (start, initial, e), begun),
        call_ensures(MapWithPrev::<U>::map_with_prev::<T, F>, (first, value, f), res),
        *old(second) == *final(first),
        call_ensures(MapWithPrev::<U>::map_with_prev::<T, F>, (second, next, g), then),
    ensures
        e.ensures((None, initial), begun),
        exists|past: U|
            #![trigger cloned(res, past)]
            cloned(res, past) && g.ensures((Some(past), next), then),
{
    assert(cloned(res, final(first).latest()->0));
}

/// Every value that arrives is accepted if the closure accepts what it is given.
pub proof fn law_observers_accept_every_value<
    T: Clone,
    U: Clone,
    F: FnOnce(&T) -> U,
    G: FnOnce(&T, &T) -> U,
    K: FnOnce(Option<T>, &T) -> U,
    P: FnOnce(Option<U>, &T) -> U,
>(
    after: &mut AfterFirst,
    window: &mut ForEachWindow<T>,
    map: &mut MapWindow<T>,
    prev: &mut MapWithPrev<U>,
    value: T,
    f: F,
    g: G,
    k: K,
    p: P,
)
    requires
        f.requires((&value,)),
        forall|past: T| #[trigger] g.requires((&past, &value)),
        forall|past: Option<T>, copy: T| #[trigger] k.requires((past, &copy)),
        forall|past: Option<U>| #[trigger] p.requires((past, &value)),
    ensures
        call_requires(AfterFirst::changed, (after,)),
        call_requires(AfterFirst::for_each_after_first::<T, U, F>, (after, &value, f)),
        call_requires(ForEachWindow::<T>::new, (&value,)),
        call_requires(ForEachWindow::<T>::changed, (window,)),
        call_requires(ForEachWindow::<T>::for_each_window::<U, G>, (window, &value, g)),
        call_requires(MapWindow::<T>::map_window::<U, K>, (map, &value, k)),
        call_requires(MapWithPrev::<U>::map_with_prev::<T, P>, (prev, &value, p)),
{
}

} // verus!
