//! Combinators that start a task for each value of a signal.

use crate::load::Load;
use crate::output::Output;
use crate::release::release;
use either::Either;
use leptos::prelude::ArcReadSignal;
use vstd::prelude::*;

verus! {

/// The sum type of the crate `either`, with its two variants as that crate declares them.
#[verifier::external_type_specification]
#[verifier::reject_recursive_types(L)]
#[verifier::reject_recursive_types(R)]
pub struct ExEither<L, R>(Either<L, R>);

/// The task of the latest value. `H` is the handle on a task: to drop it cancels the task.
#[derive(Debug)]
pub struct LatestTask<H> {
    task: Option<H>,
}

impl<H> View for LatestTask<H> {
    type V = Option<H>;

    /// The handle that is held.
    closed spec fn view(&self) -> Option<H> {
        self.task
    }
}

impl<H> LatestTask<H> {
    pub fn new() -> (res: Self)
        ensures
            res@ is None,
    {
        LatestTask { task: None }
    }

    /// A value has arrived: drops the task of the value before it.
    pub fn drop_task(&mut self)
        ensures
            final(self)@ is None,
            crate::release::none_is_left(old(self)@),
    {
        release(&mut self.task);
    }

    /// A value has arrived: drops the task of the value before it and then, with no task held, does
    /// what [`Self::start`] does. The closures need to accept the call only once that task was
    /// dropped.
    pub fn for_each_async<T: ?Sized, Fut, F: FnOnce(&T) -> Fut, S: FnOnce(Fut) -> H>(
        &mut self,
        value: &T,
        f: F,
        spawn: S,
    )
        requires
            crate::release::none_is_left(old(self)@) ==> f.requires((value,)),
            forall|future: Fut| #[trigger]
                f.ensures((value,), future) && crate::release::none_is_left(old(self)@)
                    ==> spawn.requires((future,)),
        ensures
            crate::release::none_is_left(old(self)@),
            final(self)@ is Some,
            exists|future: Fut|
                #![trigger f.ensures((value,), future)]
                f.ensures((value,), future) && spawn.ensures((future,), final(self)@->0),
    {
        self.drop_task();
        self.start(value, f, spawn);
    }

    /// Takes the value that has arrived, once no task is held: has `f` make a future of it and
    /// `spawn` a task of the future, which is held from now on.
    pub fn start<T: ?Sized, Fut, F: FnOnce(&T) -> Fut, S: FnOnce(Fut) -> H>(
        &mut self,
        value: &T,
        f: F,
        spawn: S,
    )
        requires
            old(self)@ is None,
            f.requires((value,)),
            forall|future: Fut| #[trigger]
                f.ensures((value,), future) ==> spawn.requires((future,)),
        ensures
            final(self)@ is Some,
            exists|future: Fut|
                #![trigger f.ensures((value,), future)]
                f.ensures((value,), future) && spawn.ensures((future,), final(self)@->0),
    {
        let future = f(value);
        let task = spawn(future);
        self.task = Some(task);
    }
}

/// What a [`LoadMap`] holds: the handle on the task of the latest value, whether the signal was set
/// to loading for a task that is still to be started, and what the signal was given, from the initial
/// state to the one that it holds.
pub struct LoadMapView<T, H> {
    pub task: Option<H>,
    pub announced: bool,
    pub history: Seq<Load<T>>,
}

/// A signal of the results of an asynchronous function of another signal.
#[verifier::reject_recursive_types(T)]
pub struct LoadMap<T, H> {
    output: Output<Load<T>>,
    task: Option<H>,
    announced: Ghost<bool>,
}

impl<T, H> View for LoadMap<T, H> {
    type V = LoadMapView<T, H>;

    closed spec fn view(&self) -> LoadMapView<T, H> {
        LoadMapView { task: self.task, announced: self.announced@, history: self.output@ }
    }
}

impl<T, H> LoadMapView<T, H> {
    /// Nothing has arrived yet.
    pub open spec fn initial() -> Self {
        LoadMapView { task: None, announced: false, history: seq![Load::Loading] }
    }

    /// The task of the value before was dropped.
    pub open spec fn dropped(self) -> Self {
        LoadMapView { task: None, announced: false, ..self }
    }

    /// The result for a value is on its way.
    pub open spec fn loading(self) -> Self {
        LoadMapView { announced: true, history: self.history.push(Load::Loading), ..self }
    }

    /// No task is held, and the signal was set to loading for the one that is to be started.
    pub open spec fn is_loading(self) -> bool {
        self.task is None && self.announced
    }

    /// The task `task` was started.
    pub open spec fn started(self, task: H) -> Self {
        LoadMapView { task: Some(task), announced: false, ..self }
    }

    /// The result for a value was there at once.
    pub open spec fn answered(self, result: T) -> Self {
        LoadMapView { history: self.history.push(Load::Ready(result)), ..self }
    }

    /// The task came to its end with `result`.
    pub open spec fn finished(self, result: T) -> Self {
        LoadMapView { history: self.history.push(Load::Ready(result)), ..self }
    }
}

impl<T: 'static, H> LoadMap<T, H> {
    /// The signal, as this map has it, was set to loading. Nothing but the call that sets it makes this
    /// known.
    pub closed spec fn has_announced(&self) -> bool {
        exists|output: &mut Output<Load<T>>|
            #![trigger call_ensures(Output::<Load<T>>::publish, (output, Load::Loading), ())]
            *output == self.output && call_ensures(
                Output::<Load<T>>::publish,
                (output, Load::Loading),
                (),
            )
    }

    /// The read-only handle on the signal.
    pub closed spec fn reading(&self) -> ArcReadSignal<Load<T>> {
        self.output.reading()
    }

    pub fn new() -> (res: Self)
        ensures
            res@ == LoadMapView::<T, H>::initial(),
    {
        LoadMap { output: Output::new(Load::Loading), task: None, announced: Ghost(false) }
    }

    /// The read-only handle on the signal.
    pub fn reader(&self) -> (res: &ArcReadSignal<Load<T>>)
        ensures
            *res == self.reading(),
    {
        self.output.reader()
    }

    /// A value has arrived: drops the task of the value before it.
    pub fn drop_task(&mut self)
        ensures
            final(self).reading() == old(self).reading(),
            final(self)@ == old(self)@.dropped(),
            final(self).has_announced() == old(self).has_announced(),
            crate::release::none_is_left(old(self)@.task),
    {
        release(&mut self.task);
        self.announced = Ghost(false);
    }

    /// Once no task is held: publishes that the result is on its way.
    pub fn load(&mut self)
        requires
            old(self)@.task is None,
        ensures
            final(self).reading() == old(self).reading(),
            final(self)@ == old(self)@.loading(),
            old(self).has_announced(),
    {
        self.output.publish(Load::Loading);
        self.announced = Ghost(true);
    }

    /// Whether a task is held.
    pub fn has_task(&self) -> (res: bool)
        ensures
            res == self@.task is Some,
    {
        self.task.is_some()
    }

    /// A value has arrived: drops the task of the value before it, then publishes that the result is
    /// on its way, and then does what [`Self::ask_async`] does. The closures need to accept the call
    /// only once that task was dropped and the signal set to loading.
    pub fn map_async<V: ?Sized, Fut, F: FnOnce(&V) -> Fut, S: FnOnce(Fut) -> H>(
        &mut self,
        value: &V,
        f: F,
        spawn: S,
    )
        requires
            crate::release::none_is_left(old(self)@.task) && old(self).has_announced()
                ==> f.requires((value,)),
            forall|future: Fut| #[trigger]
                f.ensures((value,), future) && crate::release::none_is_left(old(self)@.task)
                    && old(self).has_announced() ==> spawn.requires((future,)),
        ensures
            crate::release::none_is_left(old(self)@.task),
            old(self).has_announced(),
            final(self).reading() == old(self).reading(),
            exists|future: Fut, task: H|
                #![trigger f.ensures((value,), future), spawn.ensures((future,), task)]
                f.ensures((value,), future) && spawn.ensures((future,), task)
                    && final(self)@ == old(self)@.dropped().loading().started(task),
    {
        self.drop_task();
        self.load();
        self.ask_async(value, f, spawn);
    }

    /// A value has arrived: drops the task of the value before it and then asks `f`, as
    /// [`Self::ask_maybe_async`] does. If `f` gave a future, does what [`Self::start`] does.
    /// The closures need to accept the call only once that task was dropped, and `spawn` only once the
    /// signal was set to loading.
    pub fn map_maybe_async<
        V: ?Sized,
        Fut,
        F: FnOnce(&V) -> Either<T, Fut>,
        S: FnOnce(Fut) -> H,
    >(&mut self, value: &V, f: F, spawn: S)
        requires
            crate::release::none_is_left(old(self)@.task) ==> f.requires((value,)),
            forall|future: Fut| #[trigger]
                f.ensures((value,), Either::<T, Fut>::Right(future))
                    && crate::release::none_is_left(old(self)@.task) && old(self).has_announced()
                    ==> spawn.requires((future,)),
        ensures
            crate::release::none_is_left(old(self)@.task),
            final(self).reading() == old(self).reading(),
            exists|answer: Either<T, Fut>|
                #![trigger f.ensures((value,), answer)]
                f.ensures((value,), answer) && match answer {
                    Either::Left(result) => final(self)@ == old(self)@.dropped().answered(result),
                    Either::Right(future) => exists|task: H|
                        #![trigger spawn.ensures((future,), task)]
                        spawn.ensures((future,), task) && final(self)@ == old(
                            self,
                        )@.dropped().loading().started(task),
                },
    {
        self.drop_task();
        match self.ask_maybe_async(value, f) {
            Some(future) => {
                assert(f.ensures((value,), Either::<T, Fut>::Right(future)));
                self.start(future, spawn);
            },
            None => {},
        }
    }

    /// Takes the value that has arrived, once no task is held and the signal is loading: has `f`
    /// make a future of it and `spawn` a task of the future.
    pub fn ask_async<V: ?Sized, Fut, F: FnOnce(&V) -> Fut, S: FnOnce(Fut) -> H>(
        &mut self,
        value: &V,
        f: F,
        spawn: S,
    )
        requires
            old(self)@.is_loading(),
            f.requires((value,)),
            forall|future: Fut| #[trigger]
                f.ensures((value,), future) ==> spawn.requires((future,)),
        ensures
            final(self).reading() == old(self).reading(),
            exists|future: Fut, task: H|
                #![trigger f.ensures((value,), future), spawn.ensures((future,), task)]
                f.ensures((value,), future) && spawn.ensures((future,), task)
                    && final(self)@ == old(self)@.started(task),
    {
        let future = f(value);
        let ghost made = future;
        assert(f.ensures((value,), made));
        self.start(future, spawn);
    }

    /// Takes the value that has arrived, once no task is held: asks `f`. A result is published as it
    /// is. A future has the signal loading, and is returned for [`Self::start`].
    pub fn ask_maybe_async<V: ?Sized, Fut, F: FnOnce(&V) -> Either<T, Fut>>(
        &mut self,
        value: &V,
        f: F,
    ) -> (res: Option<Fut>)
        requires
            old(self)@.task is None,
            f.requires((value,)),
        ensures
            final(self).reading() == old(self).reading(),
            exists|answer: Either<T, Fut>|
                #![trigger f.ensures((value,), answer)]
                f.ensures((value,), answer) && match answer {
                    Either::Left(result) => res is None && final(self)@ == old(self)@.answered(
                        result,
                    ),
                    Either::Right(future) => res == Some(future) && final(self)@ == old(
                        self,
                    )@.loading() && old(self).has_announced(),
                },
    {
        let answer = f(value);
        let ghost said = answer;
        assert(f.ensures((value,), said));
        match answer {
            Either::Left(result) => {
                self.output.publish(Load::Ready(result));
                None
            },
            Either::Right(future) => {
                self.load();
                Some(future)
            },
        }
    }

    /// Once no task is held and the signal is loading: has `spawn` make a task of the future, which
    /// is held from now on.
    pub fn start<Fut, S: FnOnce(Fut) -> H>(&mut self, future: Fut, spawn: S)
        requires
            old(self)@.is_loading(),
            spawn.requires((future,)),
        ensures
            final(self).reading() == old(self).reading(),
            exists|task: H|
                #![trigger spawn.ensures((future,), task)]
                spawn.ensures((future,), task) && final(self)@ == old(self)@.started(task),
    {
        let task = spawn(future);
        assert(spawn.ensures((future,), task));
        self.task = Some(task);
        self.announced = Ghost(false);
    }

    /// The task has come to its end: publishes its result.
    pub fn finish(&mut self, result: T)
        requires
            old(self)@.task is Some,
        ensures
            final(self).reading() == old(self).reading(),
            final(self)@ == old(self)@.finished(result),
    {
        self.output.publish(Load::Ready(result));
    }
}

/// What can happen to a [`LoadMap`].
pub enum LoadEvent<T, H> {
    /// A value arrived and the task was started for it.
    Started(H),
    /// A value arrived and its result was there at once.
    Answered(T),
    /// The task that was running came to its end.
    Finished(T),
}

/// What a [`LoadMap`] holds after `events`, one after the other.
pub open spec fn load_map_after<T, H>(events: Seq<LoadEvent<T, H>>) -> LoadMapView<T, H>
    decreases events.len(),
{
    if events.len() == 0 {
        LoadMapView::initial()
    } else {
        let before = load_map_after(events.drop_last());
        match events.last() {
            LoadEvent::Started(task) => before.dropped().loading().started(task),
            LoadEvent::Answered(result) => before.dropped().answered(result),
            LoadEvent::Finished(result) => before.finished(result),
        }
    }
}

/// Only the task of the latest value comes to its end, and it does so once: one that was dropped
/// is cancelled.
pub open spec fn dropped_tasks_are_cancelled<T, H>(events: Seq<LoadEvent<T, H>>) -> bool {
    forall|i: int|
        0 <= i < events.len() && #[trigger] events[i] is Finished ==> i > 0 && events[i - 1]
            is Started
}

/// The signal is loading as long as nothing has arrived, or the task of the latest value runs.
/// Else it holds the result for the latest value.
pub proof fn law_signal_shows_the_latest_value<T, H>(events: Seq<LoadEvent<T, H>>)
    requires
        dropped_tasks_are_cancelled(events),
    ensures
        load_map_after(events).history.len() == events.len() + 1,
        load_map_after(events).history.last() == (if events.len() == 0 {
            Load::Loading
        } else {
            match events.last() {
                LoadEvent::Started(_) => Load::Loading,
                LoadEvent::Answered(result) => Load::Ready(result),
                LoadEvent::Finished(result) => Load::Ready(result),
            }
        }),
        events.len() > 0 && events.last() is Finished ==> events.len() > 1 && (events[events.len()
            - 2] matches LoadEvent::Started(task) && load_map_after(events).task == Some(task)),
    decreases events.len(),
{
    if events.len() > 0 {
        assert(dropped_tasks_are_cancelled(events.drop_last())) by {
            assert forall|i: int|
                0 <= i < events.drop_last().len()
                    && #[trigger] events.drop_last()[i] is Finished implies i > 0
                && events.drop_last()[i - 1] is Started by {
                assert(events[i] is Finished);
            }
        }
        law_signal_shows_the_latest_value(events.drop_last());
        if events.last() is Finished {
            assert(events[events.len() - 1] is Finished);
            assert(events.drop_last().last() == events[events.len() - 2]);
        }
    }
}

/// When every result is there at once, the signal is given the results and nothing in between.
pub proof fn law_results_at_once_never_load<T, H>(results: Seq<T>)
    ensures
        ({
            let events = results.map_values(|result: T| LoadEvent::<T, H>::Answered(result));
            load_map_after(events).history == seq![Load::Loading] + results.map_values(
                |result: T| Load::Ready(result),
            )
        }),
    decreases results.len(),
{
    let events = results.map_values(|result: T| LoadEvent::<T, H>::Answered(result));
    let expected = seq![Load::Loading] + results.map_values(|result: T| Load::Ready(result));
    if results.len() > 0 {
        let earlier = results.drop_last();
        law_results_at_once_never_load::<T, H>(earlier);
        assert(events.drop_last() == earlier.map_values(
            |result: T| LoadEvent::<T, H>::Answered(result),
        ));
        assert(expected.drop_last() == seq![Load::Loading] + earlier.map_values(
            |result: T| Load::Ready(result),
        ));
        assert(expected == expected.drop_last().push(Load::Ready(results.last())));
    } else {
        assert(expected == seq![Load::<T>::Loading]);
    }
}

/// To drop the task is to drop the handle that was held, and to hold none.
pub proof fn law_latest_task_is_dropped<H>(tasks: &mut LatestTask<H>)
    requires
        call_ensures(LatestTask::<H>::drop_task, (tasks,), ()),
    ensures
        final(tasks)@ is None,
        old(tasks)@ matches Some(task) ==> call_ensures(
            Result::<(), H>::ok,
            (Err::<(), H>(task),),
            None::<()>,
        ),
{
}

/// Of two values that arrive one after the other, the task of the first one is dropped when the
/// second one arrives, and the task that is held then is one of the future that `f` made of the
/// second.
pub proof fn law_latest_task_takes_the_place_of_the_one_before<
    T: ?Sized,
    Fut,
    F: FnOnce(&T) -> Fut,
    S: FnOnce(Fut) -> H,
    H,
>(
    made: LatestTask<H>,
    first: &mut LatestTask<H>,
    value: &T,
    f: F,
    spawn: S,
    second: &mut LatestTask<H>,
    next: &T,
    g: F,
    respawn: S,
)
    requires
        call_ensures(LatestTask::<H>::new, (), made),
        call_ensures(LatestTask::<H>::for_each_async::<T, Fut, F, S>, (first, value, f, spawn), ()),
        *old(second) == *final(first),
        call_ensures(
            LatestTask::<H>::for_each_async::<T, Fut, F, S>,
            (second, next, g, respawn),
            (),
        ),
    ensures
        made@ is None,
        old(first)@ matches Some(task) ==> call_ensures(
            Result::<(), H>::ok,
            (Err::<(), H>(task),),
            None::<()>,
        ),
        final(first)@ is Some,
        call_ensures(Result::<(), H>::ok, (Err::<(), H>(final(first)@->0),), None::<()>),
        final(second)@ is Some,
        exists|future: Fut|
            #![trigger g.ensures((next,), future)]
            g.ensures((next,), future) && respawn.ensures((future,), final(second)@->0),
{
}

/// The signal starts loading, with no task.
pub proof fn law_load_map_starts_loading<T: 'static, H>(map: LoadMap<T, H>)
    requires
        call_ensures(LoadMap::<T, H>::new, (), map),
    ensures
        map@.history == seq![Load::<T>::Loading],
        map@.task is None,
{
}

/// To drop the task is to drop the handle that was held, and to hold none. The signal stays as it is.
pub proof fn law_load_map_task_is_dropped<T: 'static, H>(map: &mut LoadMap<T, H>)
    requires
        call_ensures(LoadMap::<T, H>::drop_task, (map,), ()),
    ensures
        final(map).reading() == old(map).reading(),
        final(map)@.history == old(map)@.history,
        final(map)@.task is None,
        old(map)@.task matches Some(task) ==> call_ensures(
            Result::<(), H>::ok,
            (Err::<(), H>(task),),
            None::<()>,
        ),
{
}

/// A signal that was set to loading was so by a call that sets it.
pub(crate) proof fn law_announced_signal_was_set<T: 'static, H>(map: LoadMap<T, H>)
    requires
        map.has_announced(),
    ensures
        exists|output: &mut Output<Load<T>>|
            #![trigger call_ensures(Output::<Load<T>>::publish, (output, Load::Loading), ())]
            output.reading() == map.reading() && output@ == map@.history && call_ensures(
                Output::<Load<T>>::publish,
                (output, Load::Loading),
                (),
            ),
{
}

/// A value that arrives at [`LoadMap::map_async`] ends the task of the value before it, whose handle
/// is dropped, has the signal loading, and has a task held of the future that `f` made of the value.
pub proof fn law_map_async_ends_the_task_before_and_loads<
    T: 'static,
    H,
    V: ?Sized,
    Fut,
    F: FnOnce(&V) -> Fut,
    S: FnOnce(Fut) -> H,
>(map: &mut LoadMap<T, H>, value: &V, f: F, spawn: S)
    requires
        call_ensures(LoadMap::<T, H>::map_async::<V, Fut, F, S>, (map, value, f, spawn), ()),
    ensures
        final(map).reading() == old(map).reading(),
        final(map)@.history == old(map)@.history.push(Load::Loading),
        old(map).has_announced(),
        old(map)@.task matches Some(task) ==> call_ensures(
            Result::<(), H>::ok,
            (Err::<(), H>(task),),
            None::<()>,
        ),
        final(map)@.task is Some,
        exists|future: Fut|
            #![trigger f.ensures((value,), future)]
            f.ensures((value,), future) && spawn.ensures((future,), final(map)@.task->0),
{
}

/// A value that arrives at [`LoadMap::map_maybe_async`] ends the task of the value before it, whose
/// handle is dropped, whatever `f` answers. A result is published as it is, with nothing in between,
/// and leaves no task. A future has the signal loading, and a task of it held.
pub proof fn law_map_maybe_async_ends_the_task_before<
    T: 'static,
    H,
    V: ?Sized,
    Fut,
    F: FnOnce(&V) -> Either<T, Fut>,
    S: FnOnce(Fut) -> H,
>(map: &mut LoadMap<T, H>, value: &V, f: F, spawn: S)
    requires
        call_ensures(LoadMap::<T, H>::map_maybe_async::<V, Fut, F, S>, (map, value, f, spawn), ()),
    ensures
        final(map).reading() == old(map).reading(),
        old(map)@.task matches Some(task) ==> call_ensures(
            Result::<(), H>::ok,
            (Err::<(), H>(task),),
            None::<()>,
        ),
        exists|answer: Either<T, Fut>|
            #![trigger f.ensures((value,), answer)]
            f.ensures((value,), answer) && match answer {
                Either::Left(result) => {
                    &&& final(map)@.history == old(map)@.history.push(Load::Ready(result))
                    &&& final(map)@.task is None
                },
                Either::Right(future) => {
                    &&& final(map)@.history == old(map)@.history.push(Load::Loading)
                    &&& final(map)@.task is Some
                    &&& spawn.ensures((future,), final(map)@.task->0)
                },
            },
{
}

/// The result of a task is published, once, and is what the signal then holds.
pub proof fn law_finish_publishes_the_result<T: 'static, H>(map: &mut LoadMap<T, H>, result: T)
    requires
        call_ensures(LoadMap::<T, H>::finish, (map, result), ()),
    ensures
        final(map).reading() == old(map).reading(),
        final(map)@.history == old(map)@.history.push(Load::Ready(result)),
        final(map)@.task == old(map)@.task,
{
}

/// Whatever `f` answers to the values that arrive at [`LoadMap::map_maybe_async`], at most one of the
/// tasks that were started is not dropped, the one that is held. Here `maps[i]` is the map before the
/// value `i` arrives, and the last of `maps` is the map after all of them.
pub proof fn law_only_the_latest_task_lives<
    T: 'static,
    H,
    V,
    Fut,
    F: FnOnce(&V) -> Either<T, Fut>,
    S: FnOnce(Fut) -> H,
>(maps: Seq<LoadMap<T, H>>, values: Seq<V>, f: Seq<F>, spawn: Seq<S>, i: int)
    requires
        maps.len() == values.len() + 1,
        f.len() == values.len(),
        spawn.len() == values.len(),
        forall|k: int|
            0 <= k < values.len() ==> exists|map: &mut LoadMap<T, H>|
                #![trigger call_ensures(
                    LoadMap::<T, H>::map_maybe_async::<V, Fut, F, S>,
                    (map, &values[k], f[k], spawn[k]),
                    (),
                )]
                *map == #[trigger] maps[k] && *final(map) == maps[k + 1] && call_ensures(
                    LoadMap::<T, H>::map_maybe_async::<V, Fut, F, S>,
                    (map, &values[k], f[k], spawn[k]),
                    (),
                ),
        0 <= i < values.len(),
        maps[i]@.task is Some,
    ensures
        call_ensures(Result::<(), H>::ok, (Err::<(), H>(maps[i]@.task->0),), None::<()>),
{
    assert(maps[i] == maps[i]);
}

/// Every value that arrives is accepted, in any state, if the closures accept what they are given.
pub proof fn law_tasks_accept_every_value<
    T: 'static,
    H,
    V: ?Sized,
    Fut,
    F: FnOnce(&V) -> Fut,
    G: FnOnce(&V) -> Either<T, Fut>,
    S: FnOnce(Fut) -> H,
>(tasks: &mut LatestTask<H>, map: &mut LoadMap<T, H>, value: &V, f: F, g: G, spawn: S)
    requires
        f.requires((value,)),
        g.requires((value,)),
        forall|future: Fut| #[trigger] spawn.requires((future,)),
    ensures
        call_requires(LatestTask::<H>::drop_task, (tasks,)),
        call_requires(LatestTask::<H>::for_each_async::<V, Fut, F, S>, (tasks, value, f, spawn)),
        call_requires(LoadMap::<T, H>::drop_task, (map,)),
        call_requires(LoadMap::<T, H>::map_async::<V, Fut, F, S>, (map, value, f, spawn)),
        call_requires(LoadMap::<T, H>::map_maybe_async::<V, Fut, G, S>, (map, value, g, spawn)),
{
}

/// The result of a task is accepted as long as a task is held.
pub proof fn law_result_of_a_held_task_is_accepted<T: 'static, H>(
    map: &mut LoadMap<T, H>,
    result: T,
    held: bool,
)
    requires
        old(map)@.task is Some,
        call_ensures(LoadMap::<T, H>::has_task, (&*old(map),), held),
    ensures
        held,
        call_requires(LoadMap::<T, H>::finish, (map, result)),
{
}

} // verus!
