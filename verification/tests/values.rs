use leptos::prelude::{ArcReadSignal, GetUntracked, ImmediateEffect, Track};
use signal_ext::filter::Filter;
use signal_ext::map::{is_target, not};
use signal_ext::observe::{AfterFirst, ForEachWindow, MapWindow, MapWithPrev};
use signal_ext::write::{changed, flip, set_if_changed, update_if_changed, Modify};
use std::sync::atomic::{AtomicUsize, Ordering};
use std::sync::Arc;

/// Counts how often the signal runs its subscribers, the first run left out.
fn count_notifications(signal: &ArcReadSignal<i32>) -> (Arc<AtomicUsize>, ImmediateEffect) {
    let count = Arc::new(AtomicUsize::new(0));
    let effect = ImmediateEffect::new({
        let count = count.clone();
        let signal = signal.clone();
        move || {
            signal.track();
            count.fetch_add(1, Ordering::SeqCst);
        }
    });
    count.store(0, Ordering::SeqCst);
    (count, effect)
}

#[test]
fn after_first_passes_over_the_first_value() {
    let mut seen = Vec::new();
    let mut after_first = AfterFirst::new();
    for value in [1, 2, 3] {
        after_first.for_each_after_first(&value, |v: &i32| seen.push(*v));
    }
    assert_eq!(seen, vec![2, 3]);
}

#[test]
fn after_first_returns_what_the_closure_returns() {
    let mut after_first = AfterFirst::new();
    assert_eq!(after_first.for_each_after_first(&1, |v: &i32| v + 1), None);
    assert_eq!(after_first.for_each_after_first(&1, |v: &i32| v + 1), Some(2));
}

#[test]
fn window_hands_out_old_and_new() {
    let mut seen = Vec::new();
    let mut window = ForEachWindow::new(&1);
    for value in [1, 4, 9] {
        window.for_each_window(&value, |old: &i32, new: &i32| seen.push((*old, *new)));
    }
    assert_eq!(seen, vec![(1, 4), (4, 9)]);
}

#[test]
fn window_starts_from_the_value_at_creation() {
    let mut window = ForEachWindow::new(&1);
    window.changed();
    assert_eq!(window.for_each_window(&2, |old: &i32, new: &i32| (*old, *new)), Some((1, 2)));
    window.changed();
    assert_eq!(window.for_each_window(&3, |old: &i32, new: &i32| (*old, *new)), Some((2, 3)));
}

#[test]
fn change_before_the_first_arrival_is_handed_on() {
    let mut seen = Vec::new();
    let mut after_first = AfterFirst::new();
    after_first.changed();
    after_first.for_each_after_first(&2, |v: &i32| seen.push(*v));
    assert_eq!(seen, vec![2]);
}

#[test]
fn map_window_sees_the_value_before() {
    let mut map = MapWindow::new();
    let pair = |old: Option<String>, new: &String| (old, new.clone());
    let a = String::from("a");
    let b = String::from("b");
    assert_eq!(map.map_window(&a, pair), (None, a.clone()));
    assert_eq!(map.map_window(&b, pair), (Some(a), b.clone()));
    assert_eq!(map.map_window(&b, pair), (Some(b.clone()), b));
}

#[test]
fn map_with_prev_sees_the_result_before() {
    let mut map = MapWithPrev::new();
    let sum = |old: Option<i32>, new: &i32| old.unwrap_or(0) + new;
    assert_eq!(map.map_with_prev(&1, sum), 1);
    assert_eq!(map.map_with_prev(&2, sum), 3);
    assert_eq!(map.map_with_prev(&3, sum), 6);
}

#[test]
fn keep_if_takes_over_matching_values() {
    let mut filter = Filter::new(&1);
    let reader = filter.reader().clone();
    assert_eq!(reader.get_untracked(), 1);
    filter.keep_if(&1, |v: &i32| v % 2 == 0);
    assert_eq!(reader.get_untracked(), 1);
    filter.keep_if(&4, |v: &i32| v % 2 == 0);
    assert_eq!(reader.get_untracked(), 4);
    filter.keep_if(&7, |v: &i32| v % 2 == 0);
    assert_eq!(reader.get_untracked(), 4);
}

#[test]
fn skip_if_leaves_out_matching_values() {
    let mut filter = Filter::new(&1);
    let reader = filter.reader().clone();
    filter.skip_if(&4, |v: &i32| v % 2 == 0);
    assert_eq!(reader.get_untracked(), 1);
    filter.skip_if(&7, |v: &i32| v % 2 == 0);
    assert_eq!(reader.get_untracked(), 7);
}

#[test]
fn kept_values_notify_and_skipped_ones_do_not() {
    let mut filter = Filter::new(&1);
    let (count, _effect) = count_notifications(filter.reader());
    filter.keep_if(&2, |_: &i32| false);
    assert_eq!(count.load(Ordering::SeqCst), 0);
    filter.keep_if(&2, |_: &i32| true);
    assert_eq!(count.load(Ordering::SeqCst), 1);
    filter.keep_if(&2, |_: &i32| true);
    assert_eq!(count.load(Ordering::SeqCst), 2);
}

#[test]
fn set_if_changed_leaves_equal_values_alone() {
    assert_eq!(set_if_changed(&1, 2), Some(2));
    assert_eq!(set_if_changed(&1, 1), None);
    assert!(set_if_changed(&f64::NAN, f64::NAN).is_some());
}

#[test]
fn update_if_changed_leaves_idle_edits_alone() {
    let old = String::from("ab");
    let differs = |new: &String| changed(&old, new);
    let edited = update_if_changed(old.clone(), |s: &mut String| s.push('c'), differs);
    assert_eq!(edited, Some(String::from("abc")));
    let undo = |s: &mut String| {
        s.push('c');
        s.pop();
    };
    assert_eq!(update_if_changed(old.clone(), undo, differs), None);
    assert_eq!(old, "ab");
}

#[test]
fn flip_negates() {
    assert!(!flip(&true));
    assert!(flip(&flip(&true)));
    assert_eq!(flip(&0x0fu8), 0xf0);
}

#[test]
fn modify_hands_back_the_edited_value() {
    let current = vec![1, 2];
    let mut draft = Modify::modify(&current);
    assert_eq!(draft.len(), 2);
    draft.push(3);
    assert_eq!(*draft, vec![1, 2, 3]);
    assert_eq!(draft.finish(), vec![1, 2, 3]);
    assert_eq!(current, vec![1, 2]);
}

#[test]
fn negation_and_target() {
    assert!(!not(&true));
    assert_eq!(not(&0u8), 255);
    assert!(is_target(&3, &3));
    assert!(!is_target(&3, &4));
}
