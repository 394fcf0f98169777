use either::Either;
use leptos::prelude::{GetUntracked, ImmediateEffect, Track};
use signal_ext::bag::SignalBag;
use signal_ext::defer::{
    defer, defer_leak, defer_with, outcome, run, Outcome, ReactiveSystemError, Scope,
};
use signal_ext::double_bind::{DoubleBind, Status};
use signal_ext::rate_limit::{LeadingLimit, RateLimitLeading, RateLimitTrailing};
use signal_ext::tasks::{LatestTask, LoadMap};
use signal_ext::{Load, Memory};
use std::cell::{Cell, RefCell};
use std::rc::Rc;
use std::sync::atomic::{AtomicUsize, Ordering};
use std::sync::Arc;
use std::time::Duration;
use web_time::Instant;

/// A task that says when it is dropped.
struct Handle {
    name: &'static str,
    dropped: Rc<RefCell<Vec<&'static str>>>,
}

impl Drop for Handle {
    fn drop(&mut self) {
        self.dropped.borrow_mut().push(self.name);
    }
}

#[test]
fn latest_task_drops_the_one_before_first() {
    let dropped = Rc::new(RefCell::new(Vec::new()));
    let mut tasks = LatestTask::new();
    for name in ["a", "b", "c"] {
        let handle = |name: &'static str| Handle { name, dropped: dropped.clone() };
        let make = |name: &&'static str| {
            dropped.borrow_mut().push("made");
            *name
        };
        tasks.for_each_async(&name, make, handle);
    }
    assert_eq!(*dropped.borrow(), vec!["made", "a", "made", "b", "made"]);
    drop(tasks);
    assert_eq!(dropped.borrow().last(), Some(&"c"));
}

#[test]
fn map_async_loads_then_is_ready() {
    let mut map: LoadMap<i32, u8> = LoadMap::new();
    let reader = map.reader().clone();
    assert_eq!(reader.get_untracked(), Load::Loading);
    map.map_async(&3, |v: &i32| v * 2, |_: i32| 1u8);
    assert_eq!(reader.get_untracked(), Load::Loading);
    map.finish(6);
    assert_eq!(reader.get_untracked(), Load::Ready(6));
    map.map_async(&4, |v: &i32| v * 2, |_: i32| 2u8);
    assert_eq!(reader.get_untracked(), Load::Loading);
    map.finish(8);
    assert_eq!(reader.get_untracked(), Load::Ready(8));
}

#[test]
fn map_async_cancels_the_task_before() {
    let dropped = Rc::new(RefCell::new(Vec::new()));
    let mut map: LoadMap<i32, Handle> = LoadMap::new();
    map.map_async(&1, |v: &i32| *v, |_: i32| Handle { name: "a", dropped: dropped.clone() });
    assert!(dropped.borrow().is_empty());
    map.map_async(&2, |v: &i32| *v, |_: i32| Handle { name: "b", dropped: dropped.clone() });
    assert_eq!(*dropped.borrow(), vec!["a"]);
}

#[test]
fn map_maybe_async_answers_at_once() {
    let dropped = Rc::new(RefCell::new(Vec::new()));
    let mut map: LoadMap<i32, Handle> = LoadMap::new();
    let reader = map.reader().clone();
    let answer = |v: &i32| if *v < 10 { Either::Left(v + 1) } else { Either::Right(*v) };
    let spawn = |_: i32| Handle { name: "late", dropped: dropped.clone() };
    map.map_maybe_async(&1, answer, spawn);
    assert_eq!(reader.get_untracked(), Load::Ready(2));
    assert!(!map.has_task());
    map.map_maybe_async(&10, answer, spawn);
    assert_eq!(reader.get_untracked(), Load::Loading);
    assert!(map.has_task());
    assert!(dropped.borrow().is_empty());
    map.map_maybe_async(&2, answer, spawn);
    assert_eq!(*dropped.borrow(), vec!["late"]);
    assert_eq!(reader.get_untracked(), Load::Ready(3));
    assert!(!map.has_task());
}

#[test]
fn steps_of_an_arrival_one_by_one() {
    let mut map: LoadMap<i32, u8> = LoadMap::new();
    let reader = map.reader().clone();
    let answer = |v: &i32| if *v < 10 { Either::Left(v + 1) } else { Either::Right(*v) };
    assert_eq!(map.ask_maybe_async(&1, answer), None);
    assert_eq!(reader.get_untracked(), Load::Ready(2));
    let future = map.ask_maybe_async(&10, answer);
    assert_eq!(future, Some(10));
    assert_eq!(reader.get_untracked(), Load::Loading);
    map.start(future.unwrap(), |future: i32| future as u8);
    map.finish(11);
    assert_eq!(reader.get_untracked(), Load::Ready(11));
    map.drop_task();
    assert!(!map.has_task());
    map.load();
    assert_eq!(reader.get_untracked(), Load::Loading);
    map.ask_async(&3, |v: &i32| v * 2, |future: i32| future as u8);
    assert!(map.has_task());
}

/// The steps of the map are seen to come in their order: the task before is dropped, then the signal
/// is loading, then the closure is asked.
#[test]
fn arrival_drops_then_loads_then_asks() {
    let dropped = Rc::new(RefCell::new(Vec::new()));
    let mut map: LoadMap<i32, Handle> = LoadMap::new();
    let reader = map.reader().clone();
    map.map_async(&1, |v: &i32| *v, |_: i32| Handle { name: "a", dropped: dropped.clone() });
    map.finish(1);
    let ask = |v: &i32| {
        assert_eq!(reader.get_untracked(), Load::Loading);
        assert_eq!(*dropped.borrow(), vec!["a"]);
        *v
    };
    map.map_async(&2, ask, |_: i32| Handle { name: "b", dropped: dropped.clone() });
    assert_eq!(*dropped.borrow(), vec!["a"]);
}

#[test]
fn trailing_delays_and_merges() {
    let spawned = Cell::new(0);
    let spawn = || {
        spawned.set(spawned.get() + 1);
        spawned.get()
    };
    let mut limit: RateLimitTrailing<i32, i32> = RateLimitTrailing::new(&1);
    let reader = limit.reader().clone();
    limit.rate_limit_trailing(spawn);
    limit.rate_limit_trailing(spawn);
    assert_eq!(spawned.get(), 1);
    assert_eq!(reader.get_untracked(), 1);
    limit.elapse(5);
    assert_eq!(reader.get_untracked(), 5);
    limit.rate_limit_trailing(spawn);
    assert_eq!(spawned.get(), 2);
    assert_eq!(reader.get_untracked(), 5);
    limit.elapse(6);
    assert_eq!(reader.get_untracked(), 6);
}

#[test]
fn leading_takes_over_at_once_when_due() {
    let spawned = Cell::new(0);
    let spawn = || spawned.set(spawned.get() + 1);
    let mut limit: LeadingLimit<i32, ()> = LeadingLimit::new_at(100, 50, &1);
    let reader = limit.reader().clone();
    limit.rate_limit_leading_at(151, 152, &2, spawn);
    assert_eq!(reader.get_untracked(), 2);
    assert_eq!(spawned.get(), 0);
    limit.rate_limit_leading_at(252, 253, &3, spawn);
    assert_eq!(reader.get_untracked(), 2);
    assert_eq!(spawned.get(), 1);
    limit.rate_limit_leading_at(900, 901, &4, spawn);
    assert_eq!(reader.get_untracked(), 2);
    assert_eq!(spawned.get(), 1);
    limit.elapse_at(902, 4);
    assert_eq!(reader.get_untracked(), 4);
    limit.rate_limit_leading_at(1002, 1002, &5, spawn);
    assert_eq!(reader.get_untracked(), 4);
    assert_eq!(spawned.get(), 2);
    limit.elapse_at(1102, 5);
    limit.rate_limit_leading_at(1203, 1203, &6, spawn);
    assert_eq!(reader.get_untracked(), 6);
    assert_eq!(spawned.get(), 2);
}

#[test]
fn leading_is_not_due_when_the_clock_shows_less() {
    let mut limit: LeadingLimit<i32, u8> = LeadingLimit::new_at(0, 50, &1);
    let reader = limit.reader().clone();
    limit.rate_limit_leading_at(40, 40, &2, || 7);
    assert_eq!(reader.get_untracked(), 1);
}

#[test]
fn leading_reads_the_clock() {
    let span = Duration::from_millis(20);
    let mut limit: RateLimitLeading<i32, u8> =
        RateLimitLeading::new(span.as_nanos(), &1);
    let reader = limit.reader().clone();
    let start = Instant::now();
    while start.elapsed() < Duration::from_millis(40) {}
    limit.rate_limit_leading(&2, || 7);
    assert_eq!(reader.get_untracked(), 2);
    let mut hours: RateLimitLeading<i32, u8> =
        RateLimitLeading::new(Duration::from_secs(36_000).as_nanos(), &1);
    let reader = hours.reader().clone();
    hours.rate_limit_leading(&2, || 7);
    assert_eq!(reader.get_untracked(), 1);
    hours.elapse(3);
    assert_eq!(reader.get_untracked(), 3);
}

#[test]
fn bound_signals_do_not_echo() {
    let mut memory = Memory::new();
    let parent = DoubleBind::new(&mut memory);
    let child = parent.clone();
    assert!(parent.begin_parent(&mut memory));
    assert_eq!(parent.status(&memory), Status::ReactingParent);
    assert!(!child.begin_child(&mut memory));
    assert!(!child.begin_child(&mut memory));
    parent.end_parent(&mut memory);
    assert_eq!(child.status(&memory), Status::Idle);
    assert!(child.begin_child(&mut memory));
    assert_eq!(child.status(&memory), Status::ReactingChild);
    assert!(!parent.begin_parent(&mut memory));
    child.end_child(&mut memory);
    assert_eq!(parent.status(&memory), Status::Idle);
}

#[test]
fn child_starts_with_the_mapped_value() {
    let mut memory = Memory::new();
    let (bind, child) = DoubleBind::start(&mut memory, &7, |v: &i32| v.to_string());
    assert_eq!(child, "7");
    assert_eq!(bind.status(&memory), Status::Idle);
}

#[test]
fn change_is_passed_on_through_the_map() {
    let mut memory = Memory::new();
    let bind = DoubleBind::new(&mut memory);
    let mut set = String::new();
    bind.pass_on(&12, |v: &i32| v.to_string(), |text: String| set = text);
    assert_eq!(set, "12");
}

#[test]
fn bag_collects_in_the_order_of_pushes() {
    let mut bag: SignalBag<Box<dyn Fn() -> i32>> = SignalBag::new();
    assert_eq!(bag.len(), 0);
    assert!(bag.inputs().is_empty());
    let value = Rc::new(Cell::new(1));
    let first = bag.push(Box::new({
        let value = value.clone();
        move || value.get()
    }));
    first.send();
    bag.push(Box::new(|| 10)).send();
    assert_eq!(bag.len(), 2);
    assert_eq!(bag.inputs(), vec![1, 10]);
    value.set(2);
    assert_eq!(bag.map(|inputs: Vec<i32>| inputs.iter().sum::<i32>()), 12);
}

#[test]
fn pushes_and_changes_notify_the_subscribers_of_the_bag() {
    let mut bag: SignalBag<Box<dyn Fn() -> i32>> = SignalBag::new();
    let seen = Arc::new(AtomicUsize::new(0));
    let effect = ImmediateEffect::new({
        let seen = seen.clone();
        let signal = bag.trigger().signal().clone();
        move || {
            signal.track();
            seen.fetch_add(1, Ordering::SeqCst);
        }
    });
    assert_eq!(seen.load(Ordering::SeqCst), 1);
    let mut member = bag.member();
    let notification = bag.push(Box::new(|| 1));
    assert_eq!(seen.load(Ordering::SeqCst), 1);
    notification.send();
    assert_eq!(seen.load(Ordering::SeqCst), 2);
    member.changed();
    assert_eq!(seen.load(Ordering::SeqCst), 3);
    member.changed();
    assert_eq!(seen.load(Ordering::SeqCst), 4);
    bag.push(Box::new(|| 2)).send();
    assert_eq!(seen.load(Ordering::SeqCst), 5);
    assert_eq!(bag.inputs(), vec![1, 2]);
    drop(effect);
}

#[test]
fn deferred_function_runs() {
    let mut memory = Memory::new();
    let ran = Cell::new(0);
    let (deferred, hook) = defer(&mut memory, Scope::Owned(1), || ran.set(ran.get() + 1));
    assert!(hook.is_some());
    assert!(matches!(deferred.scope(), Scope::Owned(1)));
    assert!(run(deferred.take(&memory)));
    assert_eq!(ran.get(), 1);
}

#[test]
fn deferred_function_is_skipped_when_its_owner_was_cleaned() {
    let mut memory = Memory::new();
    let ran = Cell::new(0);
    let count = || ran.set(ran.get() + 1);
    let (first, first_hook) = defer_with(&mut memory, Scope::Owned(1), count);
    let (second, _second_hook) = defer_with(&mut memory, Scope::Owned(2), count);
    first_hook.unwrap().run(&mut memory);
    assert!(!run(first.take(&memory)));
    assert!(run(second.take(&memory)));
    assert_eq!(ran.get(), 1);
}

#[test]
fn leaked_function_has_no_hook() {
    let mut memory = Memory::new();
    let ran = Cell::new(0);
    let (owned, hook) = defer_with(&mut memory, Scope::Owned(1), || ran.set(1));
    let leaked = defer_leak::<i32, _>(&mut memory, || ran.set(2));
    assert!(matches!(leaked.scope(), Scope::Leak));
    hook.unwrap().run(&mut memory);
    assert!(!run(owned.take(&memory)));
    assert!(run(leaked.take(&memory)));
    assert_eq!(ran.get(), 2);
    let (_, none) = defer_with(&mut memory, Scope::<i32>::Leak, || ());
    assert!(none.is_none());
}

#[test]
fn outcomes_of_deferred_functions() {
    assert!(matches!(outcome(Ok(true)), Outcome::Ran));
    assert!(matches!(outcome(Ok(false)), Outcome::OwnerCleaned));
    let disposed = Err(ReactiveSystemError::OwnerDisposed);
    assert!(matches!(outcome(disposed), Outcome::OwnerDisposed));
}
