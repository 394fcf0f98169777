//! Combinators that bound how often a signal is updated.

use crate::clock::Clock;
use crate::output::Output;
use crate::release::release;
use leptos::prelude::ArcReadSignal;
use vstd::prelude::*;

verus! {

/// What a [`RateLimitTrailing`] holds: the handle on the task that was started last, whether that
/// task has come to its end, and what the signal was given, from the initial value to the one that
/// it holds.
pub struct TrailingView<T, H> {
    pub task: Option<H>,
    pub done: bool,
    pub history: Seq<T>,
}

impl<T, H> TrailingView<T, H> {
    /// The task that is still to publish, if there is one.
    pub open spec fn scheduled(self) -> Option<H> {
        if self.done {
            None
        } else {
            self.task
        }
    }

    /// The source has changed, and `task` is to publish.
    pub open spec fn awaiting(self, task: H) -> Self {
        TrailingView { task: Some(task), done: false, history: self.history }
    }

    /// The source has changed; `task` is what starting a task gives, if one is started.
    pub open spec fn changed(self, task: H) -> Self {
        match self.scheduled() {
            Some(scheduled) => self.awaiting(scheduled),
            None => self.awaiting(task),
        }
    }

    /// The task has published `value`.
    pub open spec fn elapsed(self, value: T) -> Self {
        TrailingView { task: self.task, done: true, history: self.history.push(value) }
    }
}

/// A signal bound to another one, but updated at most once in a span of time: every update is
/// delayed by the span, and those that come in while one is scheduled are merged with it. `H` is
/// the handle on a task that sleeps for the span and then calls [`Self::elapse`].
#[verifier::reject_recursive_types(T)]
pub struct RateLimitTrailing<T, H> {
    output: Output<T>,
    task: Option<H>,
    done: bool,
}

impl<T, H> View for RateLimitTrailing<T, H> {
    type V = TrailingView<T, H>;

    closed spec fn view(&self) -> TrailingView<T, H> {
        TrailingView { task: self.task, done: self.done, history: self.output@ }
    }
}

impl<T: Clone + 'static, H> RateLimitTrailing<T, H> {
    /// The read-only handle on the signal.
    pub closed spec fn reading(&self) -> ArcReadSignal<T> {
        self.output.reading()
    }

    /// Starts with a clone of the value that the source has now, and nothing scheduled.
    pub fn new(current: &T) -> (res: Self)
        ensures
            res@.task is None,
            !res@.done,
            res@.history.len() == 1,
            cloned(*current, res@.history[0]),
    {
        RateLimitTrailing { output: Output::new(current.clone()), task: None, done: false }
    }

    /// The read-only handle on the signal.
    pub fn reader(&self) -> (res: &ArcReadSignal<T>)
        ensures
            *res == self.reading(),
    {
        self.output.reader()
    }

    /// The source has changed: a task that is still to publish stays, else one that has come to
    /// its end is dropped and `spawn` starts a new one.
    pub fn rate_limit_trailing<S: FnOnce() -> H>(&mut self, spawn: S)
        requires
            old(self)@.scheduled() is None && (old(self)@.done ==> crate::release::none_is_left(
                old(self)@.task,
            )) ==> spawn.requires(()),
        ensures
            old(self)@.done ==> crate::release::none_is_left(old(self)@.task),
            final(self).reading() == old(self).reading(),
            old(self)@.scheduled() matches Some(task) ==> final(self)@ == old(self)@.awaiting(task),
            old(self)@.scheduled() is None ==> exists|task: H|
                #![trigger spawn.ensures((), task)]
                spawn.ensures((), task) && final(self)@ == old(self)@.awaiting(task),
    {
        if self.done {
            self.done = false;
            release(&mut self.task);
        }
        let task = match self.task.take() {
            Some(task) => task,
            None => spawn(),
        };
        assert(old(self)@.scheduled() is None ==> spawn.ensures((), task));
        self.task = Some(task);
    }

    /// The task has slept: publishes the value that the source has now.
    pub fn elapse(&mut self, current: T)
        ensures
            final(self).reading() == old(self).reading(),
            final(self)@ == old(self)@.elapsed(current),
    {
        self.done = true;
        self.output.publish(current);
    }
}

/// What a [`RateLimitLeading`] holds: the span between updates and the time of the latest one, in
/// nanoseconds, the handle on the task that was started last, whether that task has come to its
/// end, and what the signal was given, from the initial value to the one that it holds.
pub struct LeadingView<T, H> {
    pub duration: nat,
    pub last_update: nat,
    pub task: Option<H>,
    pub done: bool,
    pub history: Seq<T>,
}

impl<T, H> LeadingView<T, H> {
    /// The task that is still to publish, if there is one.
    pub open spec fn scheduled(self) -> Option<H> {
        if self.done {
            None
        } else {
            self.task
        }
    }

    /// More than the span has passed since the latest update.
    pub open spec fn is_due(self, now: nat) -> bool {
        now > self.last_update + self.duration
    }

    /// The source has changed, and `task` is to publish.
    pub open spec fn awaiting(self, task: H) -> Self {
        LeadingView { task: Some(task), done: false, ..self }
    }

    /// The source has changed to `value`, which was published at once.
    pub open spec fn led(self, stamp: nat, value: T) -> Self {
        LeadingView {
            last_update: stamp,
            task: None,
            done: false,
            history: self.history.push(value),
            ..self
        }
    }

    /// The source has changed to `value`, with the clock read at `now` and `stamp`; `task` is what
    /// starting a task gives, if one is started.
    pub open spec fn changed(self, now: nat, stamp: nat, value: T, task: H) -> Self {
        match self.scheduled() {
            Some(scheduled) => self.awaiting(scheduled),
            None => if self.is_due(now) {
                self.led(stamp, value)
            } else {
                self.awaiting(task)
            },
        }
    }

    /// The task has published `value`.
    pub open spec fn elapsed(self, stamp: nat, value: T) -> Self {
        LeadingView { last_update: stamp, done: true, history: self.history.push(value), ..self }
    }

    /// `after` is what is held after the source has changed to `value`, with the clock read before
    /// the decision and, for the time of an update, once more after it.
    pub open spec fn changes_to<S: FnOnce() -> H>(
        self,
        now: nat,
        stamp: nat,
        value: T,
        spawn: S,
        after: Self,
    ) -> bool where T: Clone {
        match self.scheduled() {
            Some(task) => after == self.awaiting(task),
            None => if self.is_due(now) {
                exists|copy: T| #[trigger]
                    cloned(value, copy) && after == self.led(stamp, copy)
            } else {
                exists|task: H| #[trigger]
                    spawn.ensures((), task) && after == self.awaiting(task)
            },
        }
    }
}

/// The decisions of a [`RateLimitLeading`], with the readings of its clock as arguments.
#[verifier::reject_recursive_types(T)]
pub struct LeadingLimit<T, H> {
    output: Output<T>,
    duration: u128,
    last_update: u128,
    task: Option<H>,
    done: bool,
}

impl<T, H> View for LeadingLimit<T, H> {
    type V = LeadingView<T, H>;

    closed spec fn view(&self) -> LeadingView<T, H> {
        LeadingView {
            duration: self.duration as nat,
            last_update: self.last_update as nat,
            task: self.task,
            done: self.done,
            history: self.output@,
        }
    }
}

impl<T: Clone + 'static, H> LeadingLimit<T, H> {
    /// The read-only handle on the signal.
    pub closed spec fn reading(&self) -> ArcReadSignal<T> {
        self.output.reading()
    }

    /// Starts at the time `now` with a clone of the value that the source has, and nothing
    /// scheduled.
    pub fn new_at(duration: u128, now: u128, current: &T) -> (res: Self)
        ensures
            res@.duration == duration,
            res@.last_update == now,
            res@.task is None,
            !res@.done,
            res@.history.len() == 1,
            cloned(*current, res@.history[0]),
    {
        LeadingLimit {
            output: Output::new(current.clone()),
            duration,
            last_update: now,
            task: None,
            done: false,
        }
    }

    /// The read-only handle on the signal.
    pub fn reader(&self) -> (res: &ArcReadSignal<T>)
        ensures
            *res == self.reading(),
    {
        self.output.reader()
    }

    /// The source has changed to `value`. A task that is still to publish stays. Else one that has
    /// come to its end is dropped, and either a clone of the value is published, if the update is
    /// due at the time `now`, or `spawn` starts a new task. `stamp` is the time of the update.
    pub fn rate_limit_leading_at<S: FnOnce() -> H>(
        &mut self,
        now: u128,
        stamp: u128,
        value: &T,
        spawn: S,
    )
        requires
            old(self)@.scheduled() is None && !old(self)@.is_due(now as nat) && (old(self)@.done
                ==> crate::release::none_is_left(old(self)@.task)) ==> spawn.requires(()),
        ensures
            old(self)@.done ==> crate::release::none_is_left(old(self)@.task),
            final(self).reading() == old(self).reading(),
            old(self)@.changes_to(now as nat, stamp as nat, *value, spawn, final(self)@),
    {
        if self.done {
            self.done = false;
            release(&mut self.task);
        }
        let update_immediately = now > self.last_update && now - self.last_update > self.duration;
        match self.task.take() {
            Some(task) => {
                self.task = Some(task);
            },
            None => if update_immediately {
                self.last_update = stamp;
                let copy = value.clone();
                assert(cloned(*value, copy));
                self.output.publish(copy);
            } else {
                let task = spawn();
                assert(spawn.ensures((), task));
                self.task = Some(task);
            },
        }
    }

    /// The task has slept: publishes, at the time `stamp`, the value that the source has now.
    pub fn elapse_at(&mut self, stamp: u128, current: T)
        ensures
            final(self).reading() == old(self).reading(),
            final(self)@ == old(self)@.elapsed(stamp as nat, current),
    {
        self.last_update = stamp;
        self.output.publish(current);
        self.done = true;
    }
}

/// A signal bound to another one, but updated at most once in a span of time: an update is taken
/// over at once if more than the span has passed since the one before it, else it is delayed by the
/// span, and those that come in while one is scheduled are merged with it. `H` is the handle on a
/// task that sleeps for the span and then calls [`Self::elapse`]. All times are read from one clock,
/// which is made with the signal and never leaves it.
#[verifier::reject_recursive_types(T)]
pub struct RateLimitLeading<T, H> {
    limit: LeadingLimit<T, H>,
    clock: Clock,
}

impl<T, H> View for RateLimitLeading<T, H> {
    type V = LeadingView<T, H>;

    closed spec fn view(&self) -> LeadingView<T, H> {
        self.limit@
    }
}

impl<T: Clone + 'static, H> RateLimitLeading<T, H> {
    /// The read-only handle on the signal.
    pub closed spec fn reading(&self) -> ArcReadSignal<T> {
        self.limit.reading()
    }

    /// The latest reading of the clock.
    pub open spec fn clock(&self) -> nat {
        self.own_clock()@
    }

    /// The clock.
    pub closed spec fn own_clock(&self) -> Clock {
        self.clock
    }

    /// The latest update is no later than the clock has shown.
    pub open spec fn well_formed(&self) -> bool {
        self@.last_update <= self.clock()
    }

    /// Starts now, as [`LeadingLimit::new_at`] does at the time that a new clock shows.
    pub fn new(duration: u128, current: &T) -> (res: Self)
        ensures
            res.well_formed(),
            res@.duration == duration,
            res@.last_update == res.clock(),
            res@.task is None,
            !res@.done,
            res@.history.len() == 1,
            cloned(*current, res@.history[0]),
    {
        let mut clock = Clock::new();
        let now: u128 = clock.read();
        let limit = LeadingLimit::new_at(duration, now, current);
        RateLimitLeading { limit, clock }
    }

    /// The read-only handle on the signal.
    pub fn reader(&self) -> (res: &ArcReadSignal<T>)
        ensures
            *res == self.reading(),
    {
        self.limit.reader()
    }

    /// The source has changed to `value`: does what [`LeadingLimit::rate_limit_leading_at`] does
    /// with the clock read twice.
    pub fn rate_limit_leading<S: FnOnce() -> H>(&mut self, value: &T, spawn: S)
        requires
            old(self)@.scheduled() is None && (old(self)@.done ==> crate::release::none_is_left(
                old(self)@.task,
            )) ==> spawn.requires(()),
        ensures
            old(self)@.done ==> crate::release::none_is_left(old(self)@.task),
            old(self).well_formed() ==> final(self).well_formed(),
            final(self).reading() == old(self).reading(),
            exists|now: u128, between: Clock, stamp: u128|
                #![trigger old(self).own_clock().showed(now), between.showed(stamp)]
                {
                    &&& old(self).own_clock().showed(now)
                    &&& between@ == now
                    &&& between.showed(stamp)
                    &&& old(self).clock() <= now <= stamp
                    &&& final(self).clock() == stamp
                    &&& old(self)@.changes_to(now as nat, stamp as nat, *value, spawn, final(self)@)
                },
    {
        let now: u128 = self.clock.read();
        let ghost between = self.clock;
        assert(old(self).own_clock().showed(now) && between@ == now);
        let stamp: u128 = self.clock.read();
        assert(between.showed(stamp));
        self.limit.rate_limit_leading_at(now, stamp, value, spawn);
    }

    /// The task has slept: does what [`LeadingLimit::elapse_at`] does at the time that the clock
    /// shows.
    pub fn elapse(&mut self, current: T)
        ensures
            final(self).well_formed(),
            final(self).reading() == old(self).reading(),
            old(self).clock() <= final(self).clock(),
            old(self).own_clock().showed(final(self).clock() as u128),
            final(self)@ == old(self)@.elapsed(final(self).clock(), current),
    {
        let stamp: u128 = self.clock.read();
        self.limit.elapse_at(stamp, current);
    }
}

/// What can happen to a [`RateLimitTrailing`].
pub enum TrailingEvent<T, H> {
    /// The source changed at `at`; `task` is what `spawn` returns if it is called.
    Change { at: int, task: H },
    /// The task came to the end of its sleep at `at` and published `value`.
    Elapse { at: int, value: T },
}

impl<T, H> TrailingEvent<T, H> {
    /// When it happened.
    pub open spec fn at(self) -> int {
        match self {
            TrailingEvent::Change { at, .. } => at,
            TrailingEvent::Elapse { at, .. } => at,
        }
    }
}

/// What a [`RateLimitTrailing`] holds after `events`, one after the other, and the time at which
/// its task was started.
pub open spec fn trailing_after<T, H>(
    start: TrailingView<T, H>,
    events: Seq<TrailingEvent<T, H>>,
) -> (TrailingView<T, H>, int)
    decreases events.len(),
{
    if events.len() == 0 {
        (start, 0)
    } else {
        let (before, since) = trailing_after(start, events.drop_last());
        match events.last() {
            TrailingEvent::Change { at, task } => (
                before.changed(task),
                if before.scheduled() is Some {
                    since
                } else {
                    at
                },
            ),
            TrailingEvent::Elapse { value, .. } => (before.elapsed(value), since),
        }
    }
}

/// Time does not run backwards.
pub open spec fn trailing_times_in_order<T, H>(events: Seq<TrailingEvent<T, H>>) -> bool {
    forall|i: int, j: int|
        0 <= i <= j < events.len() ==> (#[trigger] events[i]).at() <= (#[trigger] events[j]).at()
}

/// Time does not run backwards, and a task comes to its end once, when it has slept for `duration`.
pub open spec fn trailing_tasks_sleep<T, H>(
    start: TrailingView<T, H>,
    events: Seq<TrailingEvent<T, H>>,
    duration: int,
) -> bool {
    &&& trailing_times_in_order(events)
    &&& forall|i: int|
        0 <= i < events.len() && #[trigger] events[i] is Elapse ==> {
            let (before, since) = trailing_after(start, events.take(i));
            before.scheduled() is Some && events[i].at() >= since + duration
        }
}

proof fn lemma_trailing_step<T, H>(
    start: TrailingView<T, H>,
    events: Seq<TrailingEvent<T, H>>,
    n: int,
)
    requires
        0 <= n < events.len(),
    ensures
        ({
            let (before, since) = trailing_after(start, events.take(n));
            trailing_after(start, events.take(n + 1)) == match events[n] {
                TrailingEvent::Change { at, task } => (
                    before.changed(task),
                    if before.scheduled() is Some {
                        since
                    } else {
                        at
                    },
                ),
                TrailingEvent::Elapse { value, .. } => (before.elapsed(value), since),
            }
        }),
{
    assert(events.take(n + 1).drop_last() == events.take(n));
}

/// A task that is scheduled after an update was started after that update.
proof fn lemma_trailing_scheduled_since<T, H>(
    start: TrailingView<T, H>,
    events: Seq<TrailingEvent<T, H>>,
    duration: int,
    i: int,
    n: int,
)
    requires
        trailing_tasks_sleep(start, events, duration),
        0 <= i < n <= events.len(),
        events[i] is Elapse,
    ensures
        ({
            let (after, since) = trailing_after(start, events.take(n));
            after.scheduled() is Some ==> since >= events[i].at()
        }),
    decreases n,
{
    lemma_trailing_step(start, events, n - 1);
    if n - 1 > i {
        lemma_trailing_scheduled_since(start, events, duration, i, n - 1);
        assert(events[i].at() <= events[n - 1].at());
    }
}

/// Two updates of the signal are at least `duration` apart.
pub proof fn law_trailing_updates_are_apart<T, H>(
    start: TrailingView<T, H>,
    events: Seq<TrailingEvent<T, H>>,
    duration: int,
    i: int,
    j: int,
)
    requires
        trailing_tasks_sleep(start, events, duration),
        0 <= i < j < events.len(),
        events[i] is Elapse,
        events[j] is Elapse,
    ensures
        events[j].at() >= events[i].at() + duration,
{
    lemma_trailing_scheduled_since(start, events, duration, i, j);
}

/// No change of the source is lost: until the signal is updated, a task is scheduled that will do
/// it. Changes that come in while a task is scheduled leave that task in place.
pub proof fn law_trailing_change_is_followed_by_an_update<T, H>(
    start: TrailingView<T, H>,
    events: Seq<TrailingEvent<T, H>>,
    i: int,
)
    requires
        0 <= i < events.len(),
        events[i] is Change,
        forall|k: int| i < k < events.len() ==> #[trigger] events[k] is Change,
    ensures
        trailing_after(start, events).0.scheduled() is Some,
        trailing_after(start, events).0.scheduled() == trailing_after(
            start,
            events.take(i + 1),
        ).0.scheduled(),
        trailing_after(start, events).0.history == trailing_after(
            start,
            events.take(i + 1),
        ).0.history,
    decreases events.len() - i,
{
    if i + 1 < events.len() {
        lemma_trailing_step(start, events, i);
        lemma_trailing_step(start, events, i + 1);
        law_trailing_change_is_followed_by_an_update(start, events, i + 1);
    } else {
        assert(events.take(i + 1) == events);
    }
}

/// Whenever nothing is scheduled, the signal holds the value of the source. Here `source[i]` is the
/// value of the source after `i` events: only a change gives it another one, and what a task publishes
/// is the value that the source then has.
pub proof fn law_trailing_signal_catches_up<T, H>(
    start: TrailingView<T, H>,
    events: Seq<TrailingEvent<T, H>>,
    source: Seq<T>,
)
    requires
        start.history.len() > 0,
        source.len() == events.len() + 1,
        start.scheduled() is Some || start.history.last() == source[0],
        forall|i: int|
            0 <= i < events.len() ==> (#[trigger] events[i] matches TrailingEvent::Elapse {
                value,
                ..
            } ==> value == source[i] && source[i + 1] == source[i]),
    ensures
        trailing_after(start, events).0.history.len() > 0,
        trailing_after(start, events).0.scheduled() is Some || trailing_after(
            start,
            events,
        ).0.history.last() == source.last(),
    decreases events.len(),
{
    if events.len() > 0 {
        let earlier = events.drop_last();
        assert forall|i: int| 0 <= i < earlier.len() implies (
        #[trigger] earlier[i] matches TrailingEvent::Elapse { value, .. } ==> value
            == source.drop_last()[i] && source.drop_last()[i + 1] == source.drop_last()[i]) by {
            assert(events[i] == earlier[i]);
        }
        law_trailing_signal_catches_up(start, earlier, source.drop_last());
        assert(events[events.len() - 1] == events.last());
    }
}

/// A task that is scheduled was started no later than the latest event.
proof fn lemma_trailing_started_by<T, H>(
    start: TrailingView<T, H>,
    events: Seq<TrailingEvent<T, H>>,
    n: int,
)
    requires
        start.scheduled() is None,
        trailing_times_in_order(events),
        0 <= n <= events.len(),
    ensures
        ({
            let (after, since) = trailing_after(start, events.take(n));
            after.scheduled() is Some ==> n > 0 && since <= events[n - 1].at()
        }),
    decreases n,
{
    if n > 0 {
        lemma_trailing_started_by(start, events, n - 1);
        lemma_trailing_step(start, events, n - 1);
        if n > 1 {
            assert(events[n - 2].at() <= events[n - 1].at());
        }
    } else {
        assert(events.take(0).len() == 0);
    }
}

/// From a change of the source on, and until the signal is updated, the task that is scheduled is
/// one that was started no later than the change: it has slept for the span when the span has passed
/// since the change.
pub proof fn law_trailing_task_was_started_by_the_change<T, H>(
    start: TrailingView<T, H>,
    events: Seq<TrailingEvent<T, H>>,
    i: int,
    n: int,
)
    requires
        start.scheduled() is None,
        trailing_times_in_order(events),
        0 <= i < n <= events.len(),
        forall|k: int| i <= k < n ==> #[trigger] events[k] is Change,
    ensures
        trailing_after(start, events.take(n)).0.scheduled() is Some,
        trailing_after(start, events.take(n)).1 <= events[i].at(),
    decreases n,
{
    assert(events[n - 1] is Change);
    lemma_trailing_step(start, events, n - 1);
    if n - 1 > i {
        law_trailing_task_was_started_by_the_change(start, events, i, n - 1);
    } else {
        lemma_trailing_started_by(start, events, n);
    }
}

/// The signal catches up with a change within the span, if tasks wake in time: the update that
/// follows the change comes no later than the span after it. If the task wakes up to `delay` too late,
/// so does the update.
pub proof fn law_trailing_signal_catches_up_within_the_span<T, H>(
    start: TrailingView<T, H>,
    events: Seq<TrailingEvent<T, H>>,
    duration: int,
    delay: int,
    i: int,
    j: int,
)
    requires
        start.scheduled() is None,
        trailing_times_in_order(events),
        0 <= i < j < events.len(),
        forall|k: int| i <= k < j ==> #[trigger] events[k] is Change,
        events[j] is Elapse,
        events[j].at() <= trailing_after(start, events.take(j)).1 + duration + delay,
    ensures
        events[j].at() <= events[i].at() + duration + delay,
{
    law_trailing_task_was_started_by_the_change(start, events, i, j);
}

/// What can happen to a [`RateLimitLeading`].
pub enum LeadingEvent<T, H> {
    /// The source changed to `value`; `now` and `stamp` are the readings of the clock, and `task`
    /// is what `spawn` returns if it is called.
    Change { now: nat, stamp: nat, value: T, task: H },
    /// The task came to the end of its sleep at `stamp` and published `value`.
    Elapse { stamp: nat, value: T },
}

impl<T, H> LeadingEvent<T, H> {
    /// The first reading of the clock.
    pub open spec fn begin(self) -> nat {
        match self {
            LeadingEvent::Change { now, .. } => now,
            LeadingEvent::Elapse { stamp, .. } => stamp,
        }
    }

    /// The last reading of the clock.
    pub open spec fn end(self) -> nat {
        match self {
            LeadingEvent::Change { stamp, .. } => stamp,
            LeadingEvent::Elapse { stamp, .. } => stamp,
        }
    }

    /// The signal is updated when this happens to what `before` is.
    pub open spec fn updates(self, before: LeadingView<T, H>) -> bool {
        match self {
            LeadingEvent::Change { now, .. } => before.scheduled() is None && before.is_due(now),
            LeadingEvent::Elapse { .. } => true,
        }
    }
}

/// What a [`RateLimitLeading`] holds after `events`, one after the other, and the time at which its
/// task was started.
pub open spec fn leading_after<T, H>(
    start: LeadingView<T, H>,
    events: Seq<LeadingEvent<T, H>>,
) -> (LeadingView<T, H>, nat)
    decreases events.len(),
{
    if events.len() == 0 {
        (start, 0)
    } else {
        let (before, since) = leading_after(start, events.drop_last());
        match events.last() {
            LeadingEvent::Change { now, stamp, value, task } => (
                before.changed(now, stamp, value, task),
                if before.scheduled() is None && !before.is_due(now) {
                    now
                } else {
                    since
                },
            ),
            LeadingEvent::Elapse { stamp, value } => (before.elapsed(stamp, value), since),
        }
    }
}

/// The clock does not run backwards.
pub open spec fn leading_readings_in_order<T, H>(
    start: LeadingView<T, H>,
    events: Seq<LeadingEvent<T, H>>,
) -> bool {
    &&& forall|i: int|
        0 <= i < events.len() ==> start.last_update <= (#[trigger] events[i]).begin()
            <= events[i].end()
    &&& forall|i: int, j: int|
        0 <= i < j < events.len() ==> (#[trigger] events[i]).end() <= (
        #[trigger] events[j]).begin()
}

/// The clock does not run backwards, and a task comes to its end once, when it has slept for the
/// span.
pub open spec fn leading_tasks_sleep<T, H>(
    start: LeadingView<T, H>,
    events: Seq<LeadingEvent<T, H>>,
) -> bool {
    &&& leading_readings_in_order(start, events)
    &&& forall|i: int|
        0 <= i < events.len() && #[trigger] events[i] is Elapse ==> {
            let (before, since) = leading_after(start, events.take(i));
            before.scheduled() is Some && events[i].begin() >= since + start.duration
        }
}

proof fn lemma_leading_step<T, H>(
    start: LeadingView<T, H>,
    events: Seq<LeadingEvent<T, H>>,
    n: int,
)
    requires
        0 <= n < events.len(),
    ensures
        ({
            let (before, since) = leading_after(start, events.take(n));
            leading_after(start, events.take(n + 1)) == match events[n] {
                LeadingEvent::Change { now, stamp, value, task } => (
                    before.changed(now, stamp, value, task),
                    if before.scheduled() is None && !before.is_due(now) {
                        now
                    } else {
                        since
                    },
                ),
                LeadingEvent::Elapse { stamp, value } => (before.elapsed(stamp, value), since),
            }
        }),
{
    assert(events.take(n + 1).drop_last() == events.take(n));
}

/// The latest update is no later than the events so far, and a task that is scheduled was started
/// no earlier than it.
proof fn lemma_leading_invariant<T, H>(
    start: LeadingView<T, H>,
    events: Seq<LeadingEvent<T, H>>,
    n: int,
)
    requires
        start.scheduled() is None,
        leading_tasks_sleep(start, events),
        0 <= n <= events.len(),
    ensures
        ({
            let (after, since) = leading_after(start, events.take(n));
            &&& after.duration == start.duration
            &&& after.last_update >= start.last_update
            &&& n > 0 ==> after.last_update <= events[n - 1].end()
            &&& n == 0 ==> after.last_update == start.last_update
            &&& after.scheduled() is Some ==> since >= after.last_update
        }),
    decreases n,
{
    if n > 0 {
        lemma_leading_invariant(start, events, n - 1);
        lemma_leading_step(start, events, n - 1);
        assert(events[n - 1].begin() <= events[n - 1].end());
        if n > 1 {
            assert(events[n - 2].end() <= events[n - 1].begin());
        }
    } else {
        assert(events.take(0).len() == 0);
    }
}

/// An update happens at least the span after the one before it, or after the start.
pub proof fn law_leading_update_waits_for_the_span<T, H>(
    start: LeadingView<T, H>,
    events: Seq<LeadingEvent<T, H>>,
    i: int,
)
    requires
        start.scheduled() is None,
        leading_tasks_sleep(start, events),
        0 <= i < events.len(),
        events[i].updates(leading_after(start, events.take(i)).0),
    ensures
        ({
            let before = leading_after(start, events.take(i)).0;
            let after = leading_after(start, events.take(i + 1)).0;
            &&& after.last_update == events[i].end()
            &&& after.last_update >= before.last_update + start.duration
            &&& after.history.len() == before.history.len() + 1
        }),
{
    lemma_leading_invariant(start, events, i);
    lemma_leading_step(start, events, i);
    assert(events[i].begin() <= events[i].end());
}

/// The time of the latest update is at least that of any update before it.
proof fn lemma_leading_last_update_since<T, H>(
    start: LeadingView<T, H>,
    events: Seq<LeadingEvent<T, H>>,
    i: int,
    n: int,
)
    requires
        start.scheduled() is None,
        leading_tasks_sleep(start, events),
        0 <= i < n <= events.len(),
        events[i].updates(leading_after(start, events.take(i)).0),
    ensures
        leading_after(start, events.take(n)).0.last_update >= events[i].end(),
    decreases n,
{
    lemma_leading_step(start, events, n - 1);
    if n - 1 > i {
        lemma_leading_last_update_since(start, events, i, n - 1);
        assert(events[i].end() <= events[n - 1].begin());
        assert(events[n - 1].begin() <= events[n - 1].end());
    }
}

/// Two updates of the signal are at least the span apart.
pub proof fn law_leading_updates_are_apart<T, H>(
    start: LeadingView<T, H>,
    events: Seq<LeadingEvent<T, H>>,
    i: int,
    j: int,
)
    requires
        start.scheduled() is None,
        leading_tasks_sleep(start, events),
        0 <= i < j < events.len(),
        events[i].updates(leading_after(start, events.take(i)).0),
        events[j].updates(leading_after(start, events.take(j)).0),
    ensures
        events[j].end() >= events[i].end() + start.duration,
{
    lemma_leading_last_update_since(start, events, i, j);
    law_leading_update_waits_for_the_span(start, events, j);
}

/// With values that are equal to their clones, what [`LeadingLimit::rate_limit_leading_at`] does
/// is what [`leading_after`] goes by, for a task that `spawn` returns if it is called.
pub proof fn law_leading_change_is_a_step<T: Clone, H, S: FnOnce() -> H>(
    before: LeadingView<T, H>,
    now: nat,
    stamp: nat,
    value: T,
    spawn: S,
    after: LeadingView<T, H>,
)
    requires
        before.changes_to(now, stamp, value, spawn, after),
        forall|a: T, b: T| #[trigger] cloned(a, b) ==> a == b,
    ensures
        exists|task: H|
            after == #[trigger] before.changed(now, stamp, value, task) && (before.scheduled()
                is None && !before.is_due(now) ==> spawn.ensures((), task)),
{
    if before.scheduled() is None && !before.is_due(now) {
        let task = choose|task: H| #[trigger]
            spawn.ensures((), task) && after == before.awaiting(task);
        assert(after == before.changed(now, stamp, value, task));
    } else {
        let task: H = arbitrary();
        assert(after == before.changed(now, stamp, value, task));
    }
}

/// No change of the source is lost: the signal takes it over at once, or a task is scheduled that
/// will update the signal.
pub proof fn law_leading_change_is_taken_over_or_scheduled<T, H>(
    start: LeadingView<T, H>,
    events: Seq<LeadingEvent<T, H>>,
    i: int,
)
    requires
        0 <= i < events.len(),
        events[i] is Change,
    ensures
        ({
            let before = leading_after(start, events.take(i)).0;
            let after = leading_after(start, events.take(i + 1)).0;
            if events[i].updates(before) {
                &&& after.history == before.history.push(events[i]->Change_value)
                &&& after.scheduled() is None
            } else {
                &&& after.history == before.history
                &&& after.scheduled() is Some
                &&& before.scheduled() is Some ==> after.scheduled() == before.scheduled()
            }
        }),
{
    lemma_leading_step(start, events, i);
}

/// The value that the source has after `events`, if it had `start` before them.
pub open spec fn leading_source<T, H>(start: T, events: Seq<LeadingEvent<T, H>>) -> T
    decreases events.len(),
{
    if events.len() == 0 {
        start
    } else {
        match events.last() {
            LeadingEvent::Change { value, .. } => value,
            LeadingEvent::Elapse { .. } => leading_source(start, events.drop_last()),
        }
    }
}

/// Whenever nothing is scheduled, the signal holds the value of the source, if what a task publishes
/// is the value that the source then has.
pub proof fn law_leading_signal_catches_up<T, H>(
    start: LeadingView<T, H>,
    events: Seq<LeadingEvent<T, H>>,
    source: T,
)
    requires
        start.history.len() > 0,
        start.scheduled() is Some || start.history.last() == source,
        forall|i: int|
            0 <= i < events.len() ==> (#[trigger] events[i] matches LeadingEvent::Elapse {
                value,
                ..
            } ==> value == leading_source(source, events.take(i))),
    ensures
        leading_after(start, events).0.history.len() > 0,
        leading_after(start, events).0.scheduled() is Some || leading_after(
            start,
            events,
        ).0.history.last() == leading_source(source, events),
    decreases events.len(),
{
    if events.len() > 0 {
        let earlier = events.drop_last();
        assert forall|i: int| 0 <= i < earlier.len() implies (
        #[trigger] earlier[i] matches LeadingEvent::Elapse { value, .. } ==> value
            == leading_source(source, earlier.take(i))) by {
            assert(events[i] == earlier[i]);
            assert(earlier.take(i) == events.take(i));
        }
        law_leading_signal_catches_up(start, earlier, source);
        assert(events[events.len() - 1] == events.last());
        assert(events.take(events.len() - 1) == earlier);
    }
}

/// A task that is scheduled was started no later than the latest event.
proof fn lemma_leading_started_by<T, H>(
    start: LeadingView<T, H>,
    events: Seq<LeadingEvent<T, H>>,
    n: int,
)
    requires
        start.scheduled() is None,
        leading_readings_in_order(start, events),
        0 <= n <= events.len(),
    ensures
        ({
            let (after, since) = leading_after(start, events.take(n));
            after.scheduled() is Some ==> n > 0 && since <= events[n - 1].begin()
        }),
    decreases n,
{
    if n > 0 {
        lemma_leading_started_by(start, events, n - 1);
        lemma_leading_step(start, events, n - 1);
        if n > 1 {
            assert(events[n - 2].begin() <= events[n - 2].end());
            assert(events[n - 2].end() <= events[n - 1].begin());
        }
    } else {
        assert(events.take(0).len() == 0);
    }
}

/// From a change of the source that is not taken over at once, and until the signal is updated, the
/// task that is scheduled is one that was started no later than the change: it has slept for the span
/// when the span has passed since the change.
pub proof fn law_leading_task_was_started_by_the_change<T, H>(
    start: LeadingView<T, H>,
    events: Seq<LeadingEvent<T, H>>,
    i: int,
    n: int,
)
    requires
        start.scheduled() is None,
        leading_readings_in_order(start, events),
        0 <= i < n <= events.len(),
        !events[i].updates(leading_after(start, events.take(i)).0),
        forall|k: int| i <= k < n ==> #[trigger] events[k] is Change,
    ensures
        leading_after(start, events.take(n)).0.scheduled() is Some,
        leading_after(start, events.take(n)).0.history == leading_after(
            start,
            events.take(i),
        ).0.history,
        leading_after(start, events.take(n)).1 <= events[i].begin(),
    decreases n,
{
    assert(events[n - 1] is Change);
    lemma_leading_step(start, events, n - 1);
    if n - 1 > i {
        law_leading_task_was_started_by_the_change(start, events, i, n - 1);
    } else {
        lemma_leading_started_by(start, events, n);
    }
}

/// The signal catches up with a change within the span, if tasks wake in time: it takes the change
/// over at once, or the update that follows comes no later than the span after the change. If the
/// task wakes up to `delay` too late, so does the update.
pub proof fn law_leading_signal_catches_up_within_the_span<T, H>(
    start: LeadingView<T, H>,
    events: Seq<LeadingEvent<T, H>>,
    delay: nat,
    i: int,
    j: int,
)
    requires
        start.scheduled() is None,
        leading_readings_in_order(start, events),
        0 <= i < j < events.len(),
        forall|k: int| i <= k < j ==> #[trigger] events[k] is Change,
        events[j] is Elapse,
        events[j].begin() <= leading_after(start, events.take(j)).1 + start.duration + delay,
    ensures
        events[i].updates(leading_after(start, events.take(i)).0) || events[j].end()
            <= events[i].begin() + start.duration + delay,
{
    if !events[i].updates(leading_after(start, events.take(i)).0) {
        law_leading_task_was_started_by_the_change(start, events, i, j);
    }
}

/// A signal starts with one value, a clone of the one that the source has, and with nothing
/// scheduled.
pub proof fn law_trailing_starts_with_the_source<T: Clone + 'static, H>(
    current: T,
    limit: RateLimitTrailing<T, H>,
)
    requires
        call_ensures(RateLimitTrailing::<T, H>::new, (&current,), limit),
    ensures
        limit@.history.len() == 1,
        cloned(current, limit@.history[0]),
        limit@.task is None,
        !limit@.done,
{
}

/// A change never updates the signal at once. If the task that was started last has not come to its
/// end, it stays the one that is held. Else the one that has is dropped, and a task that `spawn`
/// gave is held.
pub proof fn law_trailing_change_only_schedules<T: Clone + 'static, H, S: FnOnce() -> H>(
    limit: &mut RateLimitTrailing<T, H>,
    spawn: S,
)
    requires
        call_ensures(RateLimitTrailing::<T, H>::rate_limit_trailing::<S>, (limit, spawn), ()),
    ensures
        final(limit).reading() == old(limit).reading(),
        final(limit)@.history == old(limit)@.history,
        final(limit)@.task is Some,
        !final(limit)@.done,
        old(limit)@.task is Some && !old(limit)@.done ==> final(limit)@.task == old(limit)@.task,
        old(limit)@.task is None || old(limit)@.done ==> spawn.ensures(
            (),
            final(limit)@.task->0,
        ),
        old(limit)@.done && old(limit)@.task is Some ==> call_ensures(
            Result::<(), H>::ok,
            (Err::<(), H>(old(limit)@.task->0),),
            None::<()>,
        ),
{
}

/// The end of a task updates the signal, once, to the value that the source then has. The next
/// change finds nothing scheduled.
pub proof fn law_trailing_elapse_updates_once<T: Clone + 'static, H>(
    limit: &mut RateLimitTrailing<T, H>,
    current: T,
)
    requires
        call_ensures(RateLimitTrailing::<T, H>::elapse, (limit, current), ()),
    ensures
        final(limit).reading() == old(limit).reading(),
        final(limit)@.history == old(limit)@.history.push(current),
        final(limit)@.task == old(limit)@.task,
        final(limit)@.done,
{
}

/// Two changes that come in before the task has slept are merged: one task is started for both, and
/// the signal is given one value, the one that the source has in the end.
pub proof fn law_trailing_merges_changes<T: Clone + 'static, H, S: FnOnce() -> H, R: FnOnce() -> H>(
    first: &mut RateLimitTrailing<T, H>,
    spawn: S,
    second: &mut RateLimitTrailing<T, H>,
    respawn: R,
    end: &mut RateLimitTrailing<T, H>,
    current: T,
)
    requires
        call_ensures(RateLimitTrailing::<T, H>::rate_limit_trailing::<S>, (first, spawn), ()),
        *old(second) == *final(first),
        call_ensures(RateLimitTrailing::<T, H>::rate_limit_trailing::<R>, (second, respawn), ()),
        *old(end) == *final(second),
        call_ensures(RateLimitTrailing::<T, H>::elapse, (end, current), ()),
    ensures
        final(second)@.task == final(first)@.task,
        final(end)@.history == old(first)@.history.push(current),
{
}

/// A signal starts at the time `now` with one value, a clone of the one that the source has, and with
/// nothing scheduled.
pub proof fn law_leading_starts_with_the_source<T: Clone + 'static, H>(
    duration: u128,
    now: u128,
    current: T,
    limit: LeadingLimit<T, H>,
)
    requires
        call_ensures(LeadingLimit::<T, H>::new_at, (duration, now, &current), limit),
    ensures
        limit@.duration == duration,
        limit@.last_update == now,
        limit@.history.len() == 1,
        cloned(current, limit@.history[0]),
        limit@.task is None,
        !limit@.done,
{
}

/// A change that finds nothing scheduled, more than the span after the latest update, is taken over
/// at once: the signal is given a clone of the value, and no task is held.
pub proof fn law_leading_late_change_is_taken_over_at_once<
    T: Clone + 'static,
    H,
    S: FnOnce() -> H,
>(limit: &mut LeadingLimit<T, H>, now: u128, stamp: u128, value: T, spawn: S)
    requires
        call_ensures(
            LeadingLimit::<T, H>::rate_limit_leading_at::<S>,
            (limit, now, stamp, &value, spawn),
            (),
        ),
        old(limit)@.task is None || old(limit)@.done,
        now > old(limit)@.last_update + old(limit)@.duration,
    ensures
        final(limit).reading() == old(limit).reading(),
        final(limit)@.history.len() == old(limit)@.history.len() + 1,
        final(limit)@.history.drop_last() == old(limit)@.history,
        cloned(value, final(limit)@.history.last()),
        final(limit)@.last_update == stamp,
        final(limit)@.duration == old(limit)@.duration,
        final(limit)@.task is None,
        !final(limit)@.done,
{
    assert(final(limit)@.history.drop_last() == old(limit)@.history);
}

/// A change that finds nothing scheduled, no more than the span after the latest update, leaves the
/// signal as it is and has a task that `spawn` gave held.
pub proof fn law_leading_early_change_is_scheduled<T: Clone + 'static, H, S: FnOnce() -> H>(
    limit: &mut LeadingLimit<T, H>,
    now: u128,
    stamp: u128,
    value: T,
    spawn: S,
)
    requires
        call_ensures(
            LeadingLimit::<T, H>::rate_limit_leading_at::<S>,
            (limit, now, stamp, &value, spawn),
            (),
        ),
        old(limit)@.task is None || old(limit)@.done,
        now <= old(limit)@.last_update + old(limit)@.duration,
    ensures
        final(limit).reading() == old(limit).reading(),
        final(limit)@.history == old(limit)@.history,
        final(limit)@.last_update == old(limit)@.last_update,
        final(limit)@.duration == old(limit)@.duration,
        final(limit)@.task is Some,
        spawn.ensures((), final(limit)@.task->0),
        !final(limit)@.done,
{
}

/// A change that finds a task which has not come to its end changes nothing. One that finds a task
/// which has drops it.
pub proof fn law_leading_change_keeps_a_task_that_is_scheduled<
    T: Clone + 'static,
    H,
    S: FnOnce() -> H,
>(limit: &mut LeadingLimit<T, H>, now: u128, stamp: u128, value: T, spawn: S)
    requires
        call_ensures(
            LeadingLimit::<T, H>::rate_limit_leading_at::<S>,
            (limit, now, stamp, &value, spawn),
            (),
        ),
        old(limit)@.task is Some,
    ensures
        !old(limit)@.done ==> final(limit)@ == old(limit)@,
        old(limit)@.done ==> call_ensures(
            Result::<(), H>::ok,
            (Err::<(), H>(old(limit)@.task->0),),
            None::<()>,
        ),
{
}

/// The end of a task updates the signal, once, to the value that the source then has, and is an
/// update at the time `stamp`. The next change finds nothing scheduled.
pub proof fn law_leading_elapse_updates_once<T: Clone + 'static, H>(
    limit: &mut LeadingLimit<T, H>,
    stamp: u128,
    current: T,
)
    requires
        call_ensures(LeadingLimit::<T, H>::elapse_at, (limit, stamp, current), ()),
    ensures
        final(limit).reading() == old(limit).reading(),
        final(limit)@.history == old(limit)@.history.push(current),
        final(limit)@.last_update == stamp,
        final(limit)@.duration == old(limit)@.duration,
        final(limit)@.task == old(limit)@.task,
        final(limit)@.done,
{
}

/// Of two changes that come one after the other, where the first is taken over at once at the time
/// `stamp`, the second is taken over at once too exactly if it comes more than the span after that.
pub proof fn law_leading_second_change_waits_for_the_span<
    T: Clone + 'static,
    H,
    S: FnOnce() -> H,
    R: FnOnce() -> H,
>(
    first: &mut LeadingLimit<T, H>,
    now: u128,
    stamp: u128,
    value: T,
    spawn: S,
    second: &mut LeadingLimit<T, H>,
    then: u128,
    restamp: u128,
    next: T,
    respawn: R,
)
    requires
        call_ensures(
            LeadingLimit::<T, H>::rate_limit_leading_at::<S>,
            (first, now, stamp, &value, spawn),
            (),
        ),
        final(first)@.history.len() > old(first)@.history.len(),
        *old(second) == *final(first),
        call_ensures(
            LeadingLimit::<T, H>::rate_limit_leading_at::<R>,
            (second, then, restamp, &next, respawn),
            (),
        ),
    ensures
        final(second)@.history.len() > old(second)@.history.len() <==> then > stamp + old(
            first,
        )@.duration,
        final(second)@.task is Some <==> then <= stamp + old(first)@.duration,
{
}

/// With its own clock, a signal takes a change over at once if the clock had already shown more than
/// the span after the latest update, and schedules it if the clock shows no more than that even
/// afterwards. In between, it goes by a reading that was made for this change. A task that has not
/// come to its end stays, and the change with it.
pub proof fn law_leading_goes_by_its_clock<T: Clone + 'static, H, S: FnOnce() -> H>(
    limit: &mut RateLimitLeading<T, H>,
    value: T,
    spawn: S,
)
    requires
        call_ensures(
            RateLimitLeading::<T, H>::rate_limit_leading::<S>,
            (limit, &value, spawn),
            (),
        ),
    ensures
        final(limit).reading() == old(limit).reading(),
        old(limit).clock() <= final(limit).clock(),
        final(limit)@.duration == old(limit)@.duration,
        old(limit)@.task is Some && !old(limit)@.done ==> final(limit)@ == old(limit)@,
        old(limit)@.task is Some && old(limit)@.done ==> call_ensures(
            Result::<(), H>::ok,
            (Err::<(), H>(old(limit)@.task->0),),
            None::<()>,
        ),
        (old(limit)@.task is None || old(limit)@.done) && old(limit).clock() > old(
            limit,
        )@.last_update + old(limit)@.duration ==> {
            &&& final(limit)@.history.len() == old(limit)@.history.len() + 1
            &&& final(limit)@.history.drop_last() == old(limit)@.history
            &&& cloned(value, final(limit)@.history.last())
            &&& final(limit)@.last_update == final(limit).clock()
            &&& final(limit)@.task is None
            &&& !final(limit)@.done
        },
        (old(limit)@.task is None || old(limit)@.done) && final(limit).clock() <= old(
            limit,
        )@.last_update + old(limit)@.duration ==> {
            &&& final(limit)@.history == old(limit)@.history
            &&& final(limit)@.last_update == old(limit)@.last_update
            &&& final(limit)@.task is Some
            &&& spawn.ensures((), final(limit)@.task->0)
            &&& !final(limit)@.done
        },
        old(limit)@.task is None || old(limit)@.done ==> exists|now: u128|
            #![trigger old(limit).own_clock().showed(now)]
            {
                &&& old(limit).own_clock().showed(now)
                &&& final(limit)@.history.len() > old(limit)@.history.len() <==> now
                    > old(limit)@.last_update + old(limit)@.duration
                &&& final(limit)@.task is Some <==> now
                    <= old(limit)@.last_update + old(limit)@.duration
            },
{
    let (now, between, stamp) = choose|now: u128, between: Clock, stamp: u128|
        #![trigger old(limit).own_clock().showed(now), between.showed(stamp)]
        {
            &&& old(limit).own_clock().showed(now)
            &&& between@ == now
            &&& between.showed(stamp)
            &&& old(limit).clock() <= now <= stamp
            &&& final(limit).clock() == stamp
            &&& old(limit)@.changes_to(now as nat, stamp as nat, value, spawn, final(limit)@)
        };
    if (old(limit)@.task is None || old(limit)@.done) && now > old(limit)@.last_update + old(
        limit,
    )@.duration {
        assert(final(limit)@.history.drop_last() == old(limit)@.history);
    }
}

/// With its own clock, a signal starts, and is updated at the end of a task, at the time that the
/// clock shows.
pub proof fn law_leading_updates_at_the_time_of_its_clock<T: Clone + 'static, H>(
    duration: u128,
    start: T,
    made: RateLimitLeading<T, H>,
    limit: &mut RateLimitLeading<T, H>,
    current: T,
)
    requires
        call_ensures(RateLimitLeading::<T, H>::new, (duration, &start), made),
        call_ensures(RateLimitLeading::<T, H>::elapse, (limit, current), ()),
    ensures
        made@.duration == duration,
        made@.last_update == made.clock(),
        made@.history.len() == 1,
        cloned(start, made@.history[0]),
        made@.task is None,
        !made@.done,
        final(limit).reading() == old(limit).reading(),
        old(limit).clock() <= final(limit).clock(),
        old(limit).own_clock().showed(final(limit).clock() as u128),
        final(limit)@.history == old(limit)@.history.push(current),
        final(limit)@.last_update == final(limit).clock(),
        final(limit)@.duration == old(limit)@.duration,
        final(limit)@.task == old(limit)@.task,
        final(limit)@.done,
{
}

/// Every change and every end of a task is accepted, at any time and in any state, if a task can be
/// started.
pub proof fn law_rate_limits_accept_every_event<T: Clone + 'static, H, S: FnOnce() -> H>(
    trailing: &mut RateLimitTrailing<T, H>,
    limit: &mut LeadingLimit<T, H>,
    leading: &mut RateLimitLeading<T, H>,
    duration: u128,
    now: u128,
    stamp: u128,
    value: T,
    spawn: S,
)
    requires
        spawn.requires(()),
    ensures
        call_requires(RateLimitTrailing::<T, H>::new, (&value,)),
        call_requires(RateLimitTrailing::<T, H>::rate_limit_trailing::<S>, (trailing, spawn)),
        call_requires(RateLimitTrailing::<T, H>::elapse, (trailing, value)),
        call_requires(LeadingLimit::<T, H>::new_at, (duration, now, &value)),
        call_requires(
            LeadingLimit::<T, H>::rate_limit_leading_at::<S>,
            (limit, now, stamp, &value, spawn),
        ),
        call_requires(LeadingLimit::<T, H>::elapse_at, (limit, stamp, value)),
        call_requires(RateLimitLeading::<T, H>::new, (duration, &value)),
        call_requires(
            RateLimitLeading::<T, H>::rate_limit_leading::<S>,
            (leading, &value, spawn),
        ),
        call_requires(RateLimitLeading::<T, H>::elapse, (leading, value)),
{
}

} // verus!
