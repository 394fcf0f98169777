//! Functions that run later, unless the owner that they belong to is gone by then.

use crate::util::{Memory, SharedBox};
use vstd::prelude::*;

verus! {

/// What a deferred function belongs to.
#[derive(Debug)]
pub enum Scope<O> {
    /// Nothing: the function runs in any case.
    Leak,
    /// An owner, which may be cleaned or disposed before the function runs.
    Owned(O),
}

/// Why a function could not be run under an owner.
#[derive(Clone, Copy, Debug)]
pub enum ReactiveSystemError {
    OwnerDisposed,
    RuntimeDisposed,
    Borrow,
}

/// What became of a deferred function.
#[derive(Clone, Copy, Debug)]
pub enum Outcome {
    /// It ran.
    Ran,
    /// It was skipped because its owner was cleaned.
    OwnerCleaned,
    /// It was skipped because its owner was disposed.
    OwnerDisposed,
}

/// A function that waits to be run, under its scope.
pub struct Deferred<O, F> {
    scope: Scope<O>,
    f: F,
    cleanup_marker: SharedBox<bool>,
}

/// What is to be run when the owner of a deferred function is cleaned.
pub struct CleanupHook {
    cleanup_marker: SharedBox<bool>,
}

impl CleanupHook {
    /// The cell of the marker that the hook sets.
    pub closed spec fn marker(&self) -> int {
        self.cleanup_marker.cell()
    }

    /// The name of the memory that the marker was made in.
    pub closed spec fn home(&self) -> int {
        self.cleanup_marker.home()
    }

    /// The owner is cleaned: marks that the deferred function is not to run.
    pub fn run(self, memory: &mut Memory<bool>)
        requires
            self.home() == old(memory).name(),
            0 <= self.marker() < old(memory)@.len(),
        ensures
            final(memory).name() == old(memory).name(),
            final(memory)@ == old(memory)@.update(self.marker(), true),
    {
        self.cleanup_marker.set(memory, true);
    }
}

impl<O, F> Deferred<O, F> {
    /// The cell of the marker that says whether the owner was cleaned.
    pub closed spec fn marker(&self) -> int {
        self.cleanup_marker.cell()
    }

    /// The name of the memory that the marker was made in.
    pub closed spec fn home(&self) -> int {
        self.cleanup_marker.home()
    }

    /// The scope that the function is to run under.
    pub closed spec fn spec_scope(&self) -> Scope<O> {
        self.scope
    }

    /// The function.
    pub closed spec fn function(&self) -> F {
        self.f
    }

    /// The scope that the function is to run under.
    pub fn scope(&self) -> (res: &Scope<O>)
        ensures
            *res == self.spec_scope(),
    {
        &self.scope
    }

    /// It is time to run: the function, unless its owner was cleaned.
    pub fn take(self, memory: &Memory<bool>) -> (res: Option<F>)
        requires
            self.home() == memory.name(),
            0 <= self.marker() < memory@.len(),
        ensures
            res == (if memory@[self.marker()] {
                None
            } else {
                Some(self.function())
            }),
    {
        if self.cleanup_marker.get(memory) {
            None
        } else {
            Some(self.f)
        }
    }
}

/// Defers `f` under `current`, the scope of the caller, as [`defer_with`] does.
pub fn defer<O, F: FnOnce()>(memory: &mut Memory<bool>, current: Scope<O>, f: F) -> (res: (
    Deferred<O, F>,
    Option<CleanupHook>,
))
    ensures
        final(memory).name() == old(memory).name(),
        res.0.home() == old(memory).name(),
        deferred(old(memory)@, current, f, final(memory)@, res.0, res.1),
{
    defer_with(memory, current, f)
}

/// Defers `f` under `scope`. The second part of the result, which there is unless the scope is
/// [`Scope::Leak`], has to be run when the owner is cleaned.
pub fn defer_with<O, F: FnOnce()>(memory: &mut Memory<bool>, scope: Scope<O>, f: F) -> (res: (
    Deferred<O, F>,
    Option<CleanupHook>,
))
    ensures
        final(memory).name() == old(memory).name(),
        res.0.home() == old(memory).name(),
        deferred(old(memory)@, scope, f, final(memory)@, res.0, res.1),
{
    let cleanup_marker = SharedBox::new(memory, false);
    let hook = match &scope {
        Scope::Leak => None,
        Scope::Owned(_) => Some(CleanupHook { cleanup_marker: cleanup_marker.clone() }),
    };
    (Deferred { scope, f, cleanup_marker }, hook)
}

/// Defers `f` so that it runs even if the scope of the caller is cleaned up.
pub fn defer_leak<O, F: FnOnce()>(memory: &mut Memory<bool>, f: F) -> (res: Deferred<O, F>)
    ensures
        final(memory).name() == old(memory).name(),
        res.home() == old(memory).name(),
        deferred(old(memory)@, Scope::Leak, f, final(memory)@, res, None),
{
    let (res, _hook) = defer_with(memory, Scope::Leak, f);
    res
}

/// Runs what [`Deferred::take`] returned: whether there was a function to run.
pub fn run<F: FnOnce()>(taken: Option<F>) -> (ran: bool)
    requires
        taken is Some ==> taken->0.requires(()),
    ensures
        ran <==> taken is Some,
        ran ==> taken->0.ensures((), ()),
{
    match taken {
        Some(f) => {
            f();
            true
        },
        None => false,
    }
}

/// What became of a deferred function that was to be run under its scope: `entered` is the error
/// with which that failed, or else whether the function was run there. The two errors that say that
/// the reactive system itself is broken have no outcome.
pub fn outcome(entered: Result<bool, ReactiveSystemError>) -> (res: Outcome)
    requires
        !(entered matches Err(ReactiveSystemError::RuntimeDisposed)),
        !(entered matches Err(ReactiveSystemError::Borrow)),
    ensures
        res is Ran <==> entered == Ok::<bool, ReactiveSystemError>(true),
        res is OwnerCleaned <==> entered == Ok::<bool, ReactiveSystemError>(false),
        res is OwnerDisposed <==> entered is Err,
{
    match entered {
        Ok(ran) => if ran {
            Outcome::Ran
        } else {
            Outcome::OwnerCleaned
        },
        Err(_) => Outcome::OwnerDisposed,
    }
}

/// A function was deferred: its marker is a new one, which is not set, and there is a hook that
/// sets it exactly if the scope has an owner.
pub open spec fn deferred<O, F>(
    before: Seq<bool>,
    scope: Scope<O>,
    f: F,
    after: Seq<bool>,
    deferred: Deferred<O, F>,
    hook: Option<CleanupHook>,
) -> bool {
    &&& after == before.push(false)
    &&& deferred.spec_scope() == scope
    &&& deferred.function() == f
    &&& deferred.marker() == before.len()
    &&& hook is Some <==> scope is Owned
    &&& hook is Some ==> hook->0.marker() == deferred.marker() && hook->0.home()
        == deferred.home()
}

/// One deferral: what it was given, what it gave back, and the markers before and after it.
pub struct Deferral<O, F> {
    pub before: Seq<bool>,
    pub scope: Scope<O>,
    pub f: F,
    pub after: Seq<bool>,
    pub deferred: Deferred<O, F>,
    pub hook: Option<CleanupHook>,
}

impl<O, F> Deferral<O, F> {
    /// It came about as [`defer_with`] has it.
    pub open spec fn is_made(self) -> bool {
        deferred(self.before, self.scope, self.f, self.after, self.deferred, self.hook)
    }
}

/// What happens after a function was deferred.
pub enum DeferEvent<O, F> {
    /// Another one is deferred.
    Deferred(Deferral<O, F>),
    /// An owner is cleaned, and a hook is run.
    Cleaned(CleanupHook),
}

/// The markers after `events`.
pub open spec fn markers_after<O, F>(memory: Seq<bool>, events: Seq<DeferEvent<O, F>>) -> Seq<bool>
    decreases events.len(),
{
    if events.len() == 0 {
        memory
    } else {
        let before = markers_after(memory, events.drop_last());
        match events.last() {
            DeferEvent::Deferred(_) => before.push(false),
            DeferEvent::Cleaned(hook) => before.update(hook.marker(), true),
        }
    }
}

/// A hook with this marker is run.
pub open spec fn is_cleaned<O, F>(events: Seq<DeferEvent<O, F>>, marker: int) -> bool {
    exists|i: int|
        0 <= i < events.len() && (#[trigger] events[i] matches DeferEvent::Cleaned(hook)
            && hook.marker() == marker)
}

/// Each hook is run on markers that hold its own, as [`CleanupHook::run`] requires.
pub open spec fn hooks_find_their_markers<O, F>(
    memory: Seq<bool>,
    events: Seq<DeferEvent<O, F>>,
) -> bool {
    forall|i: int|
        0 <= i < events.len() ==> (#[trigger] events[i] matches DeferEvent::Cleaned(hook) ==> 0
            <= hook.marker() < markers_after(memory, events.take(i)).len())
}

/// Each function is deferred with the markers that there are, and each hook that is run came from
/// one of the deferrals `earlier` or from one of those among the events before.
pub open spec fn hooks_come_from_deferrals<O, F>(
    memory: Seq<bool>,
    earlier: Seq<Deferral<O, F>>,
    events: Seq<DeferEvent<O, F>>,
) -> bool {
    forall|i: int|
        0 <= i < events.len() ==> match #[trigger] events[i] {
            DeferEvent::Deferred(deferral) => deferral.is_made() && deferral.before
                == markers_after(memory, events.take(i)),
            DeferEvent::Cleaned(hook) => {
                ||| exists|k: int|
                    0 <= k < earlier.len() && (#[trigger] earlier[k]).hook == Some(hook)
                ||| exists|k: int|
                    0 <= k < i && (#[trigger] events[k] matches DeferEvent::Deferred(deferral)
                        && deferral.hook == Some(hook))
            },
        }
}

proof fn lemma_markers_step<O, F>(memory: Seq<bool>, events: Seq<DeferEvent<O, F>>, n: int)
    requires
        0 <= n < events.len(),
    ensures
        markers_after(memory, events.take(n + 1)) == match events[n] {
            DeferEvent::Deferred(_) => markers_after(memory, events.take(n)).push(false),
            DeferEvent::Cleaned(hook) => markers_after(memory, events.take(n)).update(
                hook.marker(),
                true,
            ),
        },
{
    assert(events.take(n + 1).drop_last() == events.take(n));
}

/// Markers are never taken away.
proof fn lemma_markers_grow<O, F>(memory: Seq<bool>, events: Seq<DeferEvent<O, F>>, n: int)
    requires
        hooks_find_their_markers(memory, events),
        0 <= n <= events.len(),
    ensures
        markers_after(memory, events.take(n)).len() >= memory.len(),
    decreases n,
{
    if n > 0 {
        lemma_markers_grow(memory, events, n - 1);
        lemma_markers_step(memory, events, n - 1);
        assert(events[n - 1] matches DeferEvent::Cleaned(hook) ==> 0 <= hook.marker()
            < markers_after(memory, events.take(n - 1)).len());
    } else {
        assert(events.take(0) == Seq::<DeferEvent<O, F>>::empty());
    }
}

/// A marker is set by the hooks that have it, and by nothing else.
proof fn lemma_marker_is_set_by_its_hook<O, F>(
    memory: Seq<bool>,
    events: Seq<DeferEvent<O, F>>,
    marker: int,
    n: int,
)
    requires
        hooks_find_their_markers(memory, events),
        0 <= marker < memory.len(),
        !memory[marker],
        0 <= n <= events.len(),
    ensures
        markers_after(memory, events.take(n))[marker] <==> is_cleaned(events.take(n), marker),
    decreases n,
{
    lemma_markers_grow(memory, events, n);
    if n > 0 {
        let earlier = events.take(n - 1);
        let all = events.take(n);
        lemma_markers_grow(memory, events, n - 1);
        lemma_markers_step(memory, events, n - 1);
        lemma_marker_is_set_by_its_hook(memory, events, marker, n - 1);
        assert(all[n - 1] == events[n - 1]);
        assert(events[n - 1] matches DeferEvent::Cleaned(hook) ==> 0 <= hook.marker()
            < markers_after(memory, earlier).len());
        if is_cleaned(earlier, marker) {
            let i = choose|i: int|
                0 <= i < earlier.len() && (#[trigger] earlier[i] matches DeferEvent::Cleaned(hook)
                    && hook.marker() == marker);
            assert(all[i] == earlier[i]);
        }
        if is_cleaned(all, marker) {
            let i = choose|i: int|
                0 <= i < all.len() && (#[trigger] all[i] matches DeferEvent::Cleaned(hook)
                    && hook.marker() == marker);
            if i < n - 1 {
                assert(earlier[i] == all[i]);
            }
        }
    } else {
        assert(events.take(0) == Seq::<DeferEvent<O, F>>::empty());
    }
}

/// A deferred function runs if and only if no hook with its marker was run before. Whatever else is
/// deferred and cleaned in between does not matter.
pub proof fn law_runs_unless_its_owner_was_cleaned<O, F, P, G>(
    deferral: Deferral<O, F>,
    events: Seq<DeferEvent<P, G>>,
)
    requires
        deferral.is_made(),
        hooks_find_their_markers(deferral.after, events),
    ensures
        markers_after(deferral.after, events)[deferral.deferred.marker()] <==> is_cleaned(
            events,
            deferral.deferred.marker(),
        ),
        deferral.hook is Some ==> deferral.hook->0.marker() == deferral.deferred.marker(),
{
    assert(events.take(events.len() as int) == events);
    lemma_marker_is_set_by_its_hook(
        deferral.after,
        events,
        deferral.deferred.marker(),
        events.len() as int,
    );
}

/// A hook of another deferral, made earlier or later, has another marker.
pub proof fn law_hook_sets_no_other_marker<O, F, P, G>(
    deferral: Deferral<O, F>,
    other: Deferral<P, G>,
)
    requires
        deferral.is_made(),
        other.is_made(),
        other.after.len() <= deferral.before.len() || deferral.after.len() <= other.before.len(),
    ensures
        other.hook is Some ==> other.hook->0.marker() != deferral.deferred.marker(),
{
}

/// Whatever is deferred before and after a leaked function, and whichever owners are cleaned, the
/// leaked function runs.
pub proof fn law_leaked_function_runs_in_any_case<O, F, P, G>(
    leaked: Deferral<O, F>,
    earlier: Seq<Deferral<P, G>>,
    events: Seq<DeferEvent<P, G>>,
)
    requires
        leaked.is_made(),
        leaked.scope is Leak,
        forall|i: int|
            0 <= i < earlier.len() ==> (#[trigger] earlier[i]).is_made() && earlier[i].after.len()
                <= leaked.before.len(),
        hooks_find_their_markers(leaked.after, events),
        hooks_come_from_deferrals(leaked.after, earlier, events),
    ensures
        leaked.hook is None,
        !markers_after(leaked.after, events)[leaked.deferred.marker()],
{
    let marker = leaked.deferred.marker();
    law_runs_unless_its_owner_was_cleaned(leaked, events);
    if is_cleaned(events, marker) {
        let i = choose|i: int|
            0 <= i < events.len() && (#[trigger] events[i] matches DeferEvent::Cleaned(hook)
                && hook.marker() == marker);
        let hook = events[i]->Cleaned_0;
        if exists|k: int| 0 <= k < earlier.len() && (#[trigger] earlier[k]).hook == Some(hook) {
            let k = choose|k: int|
                0 <= k < earlier.len() && (#[trigger] earlier[k]).hook == Some(hook);
            law_hook_sets_no_other_marker(leaked, earlier[k]);
        } else {
            let k = choose|k: int|
                0 <= k < i && (#[trigger] events[k] matches DeferEvent::Deferred(deferral)
                    && deferral.hook == Some(hook));
            let deferral = events[k]->Deferred_0;
            lemma_markers_grow(leaked.after, events, k);
            law_hook_sets_no_other_marker(leaked, deferral);
        }
    }
}

/// Every deferral under an owner has a hook, and once that hook is run the function is not to run,
/// whatever else is deferred and cleaned.
pub proof fn law_cleaned_owner_keeps_its_function_from_running<O, F, P, G>(
    deferral: Deferral<O, F>,
    events: Seq<DeferEvent<P, G>>,
    i: int,
)
    requires
        deferral.is_made(),
        deferral.scope is Owned,
        hooks_find_their_markers(deferral.after, events),
        0 <= i < events.len(),
        events[i] == DeferEvent::<P, G>::Cleaned(deferral.hook->0),
    ensures
        deferral.hook is Some,
        markers_after(deferral.after, events)[deferral.deferred.marker()],
{
    law_runs_unless_its_owner_was_cleaned(deferral, events);
    assert(is_cleaned(events, deferral.deferred.marker()));
}

/// A function that [`defer_with`] defers has a hook exactly if its scope has an owner, and waits with
/// the scope and the function that were given. What was deferred before is left as it is.
pub proof fn law_owned_function_has_a_hook<O, F: FnOnce()>(
    memory: &mut Memory<bool>,
    scope: Scope<O>,
    f: F,
    res: (Deferred<O, F>, Option<CleanupHook>),
)
    requires
        call_ensures(defer_with::<O, F>, (memory, scope, f), res) || call_ensures(
            defer::<O, F>,
            (memory, scope, f),
            res,
        ),
    ensures
        scope matches Scope::Owned(_) ==> res.1 is Some,
        scope is Leak ==> res.1 is None,
        res.0.spec_scope() == scope,
        res.0.function() == f,
        final(memory).name() == old(memory).name(),
        final(memory)@.len() == old(memory)@.len() + 1,
        final(memory)@.drop_last() == old(memory)@,
{
    assert(final(memory)@.drop_last() == old(memory)@);
}

/// A function whose hook was run is not given out to be run, however the markers of others changed
/// before and after. Here `cleaned` are the markers when the hook is run, and `then` those when it is
/// time. The marker of the function is the one that was made for it.
pub proof fn law_function_of_a_cleaned_owner_is_not_taken<O, F: FnOnce()>(
    memory: &mut Memory<bool>,
    scope: Scope<O>,
    f: F,
    res: (Deferred<O, F>, Option<CleanupHook>),
    cleaned: &mut Memory<bool>,
    then: Memory<bool>,
    taken: Option<F>,
)
    requires
        call_ensures(defer_with::<O, F>, (memory, scope, f), res) || call_ensures(
            defer::<O, F>,
            (memory, scope, f),
            res,
        ),
        scope is Owned,
        final(memory)@.len() <= old(cleaned)@.len(),
        call_ensures(CleanupHook::run, (res.1->0, cleaned), ()),
        old(cleaned)@.len() <= then@.len(),
        then@[old(memory)@.len() as int] == final(cleaned)@[old(memory)@.len() as int],
        call_ensures(Deferred::<O, F>::take, (res.0, &then), taken),
    ensures
        res.1 is Some,
        taken is None,
{
}

/// A function is given out to be run if its hook was not, however many functions were deferred, and
/// whichever other hooks were run, in between. So it is always if it was leaked, for then there is no
/// hook. Here `then` are the markers when it is time.
pub proof fn law_function_of_a_living_owner_is_taken<O, F: FnOnce()>(
    memory: &mut Memory<bool>,
    scope: Scope<O>,
    f: F,
    res: (Deferred<O, F>, Option<CleanupHook>),
    then: Memory<bool>,
    taken: Option<F>,
)
    requires
        call_ensures(defer_with::<O, F>, (memory, scope, f), res) || call_ensures(
            defer::<O, F>,
            (memory, scope, f),
            res,
        ) || call_ensures(defer_leak::<O, F>, (memory, f), res.0),
        final(memory)@.len() <= then@.len(),
        then@[final(memory)@.len() - 1] == final(memory)@.last(),
        call_ensures(Deferred::<O, F>::take, (res.0, &then), taken),
    ensures
        taken == Some(f),
{
}

/// A leaked function waits without an owner, beside what was deferred before.
pub proof fn law_leaked_function_has_no_owner<O, F: FnOnce()>(
    memory: &mut Memory<bool>,
    f: F,
    res: Deferred<O, F>,
)
    requires
        call_ensures(defer_leak::<O, F>, (memory, f), res),
    ensures
        res.spec_scope() is Leak,
        res.function() == f,
        final(memory)@.len() == old(memory)@.len() + 1,
        final(memory)@.drop_last() == old(memory)@,
{
    assert(final(memory)@.drop_last() == old(memory)@);
}

/// A hook that is run changes no marker but its own: a function that another deferral made, before
/// or after, is taken as it would have been.
pub proof fn law_hook_spares_the_others<O, F: FnOnce(), P, G: FnOnce()>(
    memory: &mut Memory<bool>,
    scope: Scope<O>,
    f: F,
    res: (Deferred<O, F>, Option<CleanupHook>),
    later: &mut Memory<bool>,
    other: Scope<P>,
    g: G,
    made: (Deferred<P, G>, Option<CleanupHook>),
    cleaned: &mut Memory<bool>,
    taken: Option<F>,
    other_taken: Option<G>,
)
    requires
        call_ensures(defer_with::<O, F>, (memory, scope, f), res),
        *old(later) == *final(memory),
        call_ensures(defer_with::<P, G>, (later, other, g), made),
        scope is Owned,
        *old(cleaned) == *final(later),
        call_ensures(CleanupHook::run, (res.1->0, cleaned), ()),
        call_ensures(Deferred::<O, F>::take, (res.0, &*final(cleaned)), taken),
        call_ensures(Deferred::<P, G>::take, (made.0, &*final(cleaned)), other_taken),
    ensures
        taken is None,
        other_taken == Some(g),
        final(cleaned)@.len() == old(cleaned)@.len(),
        forall|i: int|
            0 <= i < old(cleaned)@.len() && i != old(memory)@.len() ==> final(cleaned)@[i]
                == #[trigger] old(cleaned)@[i],
{
}

/// What was taken is run, and what was not is not.
pub proof fn law_taken_function_is_run<F: FnOnce()>(taken: Option<F>, ran: bool)
    requires
        call_ensures(run::<F>, (taken,), ran),
    ensures
        taken matches Some(f) ==> ran && f.ensures((), ()),
        taken is None ==> !ran,
{
}

/// What became of a function tells whether it ran, and if not, why.
pub proof fn law_outcome_tells_what_happened(
    entered: Result<bool, ReactiveSystemError>,
    res: Outcome,
)
    requires
        call_ensures(outcome, (entered,), res),
    ensures
        entered matches Ok(ran) ==> (if ran {
            res is Ran
        } else {
            res is OwnerCleaned
        }),
        entered is Err ==> res is OwnerDisposed,
{
}

/// Every function can be deferred, under every scope, and its hook and it can be run later.
pub proof fn law_every_function_can_be_deferred<O, F: FnOnce()>(
    memory: &mut Memory<bool>,
    scope: Scope<O>,
    f: F,
    res: (Deferred<O, F>, Option<CleanupHook>),
    later: &mut Memory<bool>,
)
    requires
        call_ensures(defer_with::<O, F>, (memory, scope, f), res),
        old(later).name() == final(memory).name(),
        old(later)@.len() >= final(memory)@.len(),
        f.requires(()),
    ensures
        call_requires(defer::<O, F>, (memory, scope, f)),
        call_requires(defer_with::<O, F>, (memory, scope, f)),
        call_requires(defer_leak::<O, F>, (memory, f)),
        call_requires(Deferred::<O, F>::take, (res.0, &*old(later))),
        scope is Owned ==> call_requires(CleanupHook::run, (res.1->0, later)),
        call_requires(run::<F>, (Some(f),)),
        call_requires(run::<F>, (None::<F>,)),
{
}

} // verus!
