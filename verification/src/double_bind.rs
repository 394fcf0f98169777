//! Two signals that follow each other.

use crate::util::{Memory, SharedBox};
use vstd::prelude::*;

verus! {

/// Which of the two signals is being followed.
#[derive(Clone, Copy, Eq, Debug)]
pub enum Status {
    /// Neither.
    Idle,
    /// The child is being set because the parent has changed.
    ReactingParent,
    /// The parent is being set because the child has changed.
    ReactingChild,
}

impl PartialEq for Status {
    fn eq(&self, other: &Self) -> (res: bool) {
        match (self, other) {
            (Status::Idle, Status::Idle) => true,
            (Status::ReactingParent, Status::ReactingParent) => true,
            (Status::ReactingChild, Status::ReactingChild) => true,
            _ => false,
        }
    }
}

impl vstd::std_specs::cmp::PartialEqSpecImpl for Status {
    open spec fn obeys_eq_spec() -> bool {
        true
    }

    open spec fn eq_spec(&self, other: &Self) -> bool {
        *self == *other
    }
}

/// The lock that keeps a change from running back to where it came from. The handler of either
/// signal has a clone of it. A handler begins a reaction and, if it is told to react, passes the
/// change on to the other signal, which runs the other handler in between, and ends the reaction.
pub struct DoubleBind {
    lock: SharedBox<Status>,
}

impl Clone for DoubleBind {
    /// A second handle on the same lock.
    fn clone(&self) -> (res: Self)
        ensures
            res == *self,
    {
        DoubleBind { lock: self.lock.clone() }
    }
}

impl DoubleBind {
    /// The cell of the lock.
    pub closed spec fn cell(&self) -> int {
        self.lock.cell()
    }

    /// The name of the memory that the lock was made in.
    pub closed spec fn home(&self) -> int {
        self.lock.home()
    }

    /// The lock is one of those of `memory`.
    pub open spec fn is_in(&self, memory: Memory<Status>) -> bool {
        &&& self.home() == memory.name()
        &&& 0 <= self.cell() < memory@.len()
    }

    /// The state of the lock in `memory`.
    pub open spec fn spec_status(&self, memory: Seq<Status>) -> Status {
        memory[self.cell()]
    }

    /// Makes a lock that is idle.
    pub fn new(memory: &mut Memory<Status>) -> (res: Self)
        ensures
            res.cell() == old(memory)@.len(),
            res.home() == old(memory).name(),
            final(memory).name() == old(memory).name(),
            final(memory)@ == old(memory)@.push(Status::Idle),
    {
        DoubleBind { lock: SharedBox::new(memory, Status::Idle) }
    }

    /// Makes an idle lock for two signals of which the parent holds `value`, and what the child is
    /// to start with.
    pub fn start<A: ?Sized, B, F: FnOnce(&A) -> B>(
        memory: &mut Memory<Status>,
        value: &A,
        from: F,
    ) -> (res: (Self, B))
        requires
            from.requires((value,)),
        ensures
            res.0.cell() == old(memory)@.len(),
            res.0.home() == old(memory).name(),
            final(memory).name() == old(memory).name(),
            final(memory)@ == old(memory)@.push(Status::Idle),
            from.ensures((value,), res.1),
    {
        let child = from(value);
        (Self::new(memory), child)
    }

    /// The state of the lock.
    pub fn status(&self, memory: &Memory<Status>) -> (res: Status)
        requires
            self.is_in(*memory),
        ensures
            res == self.spec_status(memory@),
    {
        self.lock.get(memory)
    }

    /// The parent has changed: whether the child is to be set. It is not while the parent was set
    /// because of the child. The parent cannot change while the child is set because of it.
    pub fn begin_parent(&self, memory: &mut Memory<Status>) -> (react: bool)
        requires
            self.is_in(*old(memory)),
            self.spec_status(old(memory)@) != Status::ReactingParent,
        ensures
            react == parent_reacts(self.spec_status(old(memory)@)),
            final(memory).name() == old(memory).name(),
            final(memory)@ == old(memory)@.update(
                self.cell(),
                parent_begun(self.spec_status(old(memory)@)),
            ),
    {
        let react = match self.lock.get(memory) {
            Status::Idle => {
                self.lock.from_to(memory, &Status::Idle, Status::ReactingParent);
                true
            },
            _ => false,
        };
        assert(memory@ == old(memory)@.update(
            self.cell(),
            parent_begun(self.spec_status(old(memory)@)),
        ));
        react
    }

    /// Passes a change on: sets the other signal, by `set`, to what `map` makes of the value.
    pub fn pass_on<A: ?Sized, B, F: FnOnce(&A) -> B, S: FnOnce(B)>(&self, value: &A, map: F, set: S)
        requires
            map.requires((value,)),
            forall|mapped: B| #[trigger]
                map.ensures((value,), mapped) ==> set.requires((mapped,)),
        ensures
            exists|mapped: B|
                #![trigger map.ensures((value,), mapped)]
                map.ensures((value,), mapped) && set.ensures((mapped,), ()),
    {
        let mapped = map(value);
        let ghost passed = mapped;
        assert(map.ensures((value,), passed));
        set(mapped);
    }

    /// The child has been set because of the parent.
    pub fn end_parent(&self, memory: &mut Memory<Status>)
        requires
            self.is_in(*old(memory)),
            self.spec_status(old(memory)@) == Status::ReactingParent,
        ensures
            final(memory).name() == old(memory).name(),
            final(memory)@ == old(memory)@.update(self.cell(), Status::Idle),
    {
        self.lock.from_to(memory, &Status::ReactingParent, Status::Idle);
    }

    /// The child has changed: whether the parent is to be set. It is not while the child was set
    /// because of the parent. The child cannot change while the parent is set because of it.
    pub fn begin_child(&self, memory: &mut Memory<Status>) -> (react: bool)
        requires
            self.is_in(*old(memory)),
            self.spec_status(old(memory)@) != Status::ReactingChild,
        ensures
            react == child_reacts(self.spec_status(old(memory)@)),
            final(memory).name() == old(memory).name(),
            final(memory)@ == old(memory)@.update(
                self.cell(),
                child_begun(self.spec_status(old(memory)@)),
            ),
    {
        let react = match self.lock.get(memory) {
            Status::Idle => {
                self.lock.from_to(memory, &Status::Idle, Status::ReactingChild);
                true
            },
            _ => false,
        };
        assert(memory@ == old(memory)@.update(
            self.cell(),
            child_begun(self.spec_status(old(memory)@)),
        ));
        react
    }

    /// The parent has been set because of the child.
    pub fn end_child(&self, memory: &mut Memory<Status>)
        requires
            self.is_in(*old(memory)),
            self.spec_status(old(memory)@) == Status::ReactingChild,
        ensures
            final(memory).name() == old(memory).name(),
            final(memory)@ == old(memory)@.update(self.cell(), Status::Idle),
    {
        self.lock.from_to(memory, &Status::ReactingChild, Status::Idle);
    }
}

/// A change of the parent is passed on to the child.
pub open spec fn parent_reacts(status: Status) -> bool {
    status == Status::Idle
}

/// The lock once a change of the parent has been looked at.
pub open spec fn parent_begun(status: Status) -> Status {
    if parent_reacts(status) {
        Status::ReactingParent
    } else {
        status
    }
}

/// A change of the child is passed on to the parent.
pub open spec fn child_reacts(status: Status) -> bool {
    status == Status::Idle
}

/// The lock once a change of the child has been looked at.
pub open spec fn child_begun(status: Status) -> Status {
    if child_reacts(status) {
        Status::ReactingChild
    } else {
        status
    }
}

/// Two bound signals and the lock between them.
pub struct Bound<T, U> {
    pub parent: T,
    pub child: U,
    pub status: Status,
}

/// What two bound signals hold after the parent is set to `value`. Setting a signal runs its handler
/// before it returns, and the handler, if it reacts, sets the other signal: so the handlers call each
/// other, up to `depth` times.
pub open spec fn set_parent<T, U>(
    bound: Bound<T, U>,
    value: T,
    from: spec_fn(T) -> U,
    to: spec_fn(U) -> T,
    depth: nat,
) -> Bound<T, U>
    decreases depth,
{
    let set = Bound { parent: value, ..bound };
    let begun = Bound { status: parent_begun(set.status), ..set };
    if depth > 0 && parent_reacts(set.status) {
        Bound {
            status: Status::Idle,
            ..set_child(begun, from(value), from, to, (depth - 1) as nat)
        }
    } else {
        begun
    }
}

/// What two bound signals hold after the child is set to `value`, in the same way.
pub open spec fn set_child<T, U>(
    bound: Bound<T, U>,
    value: U,
    from: spec_fn(T) -> U,
    to: spec_fn(U) -> T,
    depth: nat,
) -> Bound<T, U>
    decreases depth,
{
    let set = Bound { child: value, ..bound };
    let begun = Bound { status: child_begun(set.status), ..set };
    if depth > 0 && child_reacts(set.status) {
        Bound {
            status: Status::Idle,
            ..set_parent(begun, to(value), from, to, (depth - 1) as nat)
        }
    } else {
        begun
    }
}

/// When the parent is set, the child follows, the parent keeps what it was set to, and the lock is
/// idle again. However deep the handlers may call each other, the change never runs back.
pub proof fn law_child_follows_parent<T, U>(
    bound: Bound<T, U>,
    value: T,
    from: spec_fn(T) -> U,
    to: spec_fn(U) -> T,
    depth: nat,
)
    requires
        bound.status == Status::Idle,
        depth > 0,
    ensures
        set_parent(bound, value, from, to, depth) == (Bound {
            parent: value,
            child: from(value),
            status: Status::Idle,
        }),
{
    reveal_with_fuel(set_parent, 2);
    reveal_with_fuel(set_child, 2);
}

/// When the child is set, the parent follows, the child keeps what it was set to, and the lock is
/// idle again. However deep the handlers may call each other, the change never runs back.
pub proof fn law_parent_follows_child<T, U>(
    bound: Bound<T, U>,
    value: U,
    from: spec_fn(T) -> U,
    to: spec_fn(U) -> T,
    depth: nat,
)
    requires
        bound.status == Status::Idle,
        depth > 0,
    ensures
        set_child(bound, value, from, to, depth) == (Bound {
            parent: to(value),
            child: value,
            status: Status::Idle,
        }),
{
    reveal_with_fuel(set_parent, 2);
    reveal_with_fuel(set_child, 2);
}

/// One of two bound signals is set from outside.
pub enum BoundSet<T, U> {
    Parent(T),
    Child(U),
}

/// Two bound signals after `sets`, one after the other.
pub open spec fn after_sets<T, U>(
    bound: Bound<T, U>,
    sets: Seq<BoundSet<T, U>>,
    from: spec_fn(T) -> U,
    to: spec_fn(U) -> T,
    depth: nat,
) -> Bound<T, U>
    decreases sets.len(),
{
    if sets.len() == 0 {
        bound
    } else {
        let before = after_sets(bound, sets.drop_last(), from, to, depth);
        match sets.last() {
            BoundSet::Parent(value) => set_parent(before, value, from, to, depth),
            BoundSet::Child(value) => set_child(before, value, from, to, depth),
        }
    }
}

/// However the two signals are set, the lock is idle in between, and both follow the latest set.
pub proof fn law_bound_signals_follow_the_latest_set<T, U>(
    bound: Bound<T, U>,
    sets: Seq<BoundSet<T, U>>,
    from: spec_fn(T) -> U,
    to: spec_fn(U) -> T,
    depth: nat,
)
    requires
        bound.status == Status::Idle,
        depth > 0,
    ensures
        after_sets(bound, sets, from, to, depth).status == Status::Idle,
        sets.len() > 0 ==> ({
            let after = after_sets(bound, sets, from, to, depth);
            match sets.last() {
                BoundSet::Parent(value) => after.parent == value && after.child == from(value),
                BoundSet::Child(value) => after.parent == to(value) && after.child == value,
            }
        }),
    decreases sets.len(),
{
    if sets.len() > 0 {
        law_bound_signals_follow_the_latest_set(bound, sets.drop_last(), from, to, depth);
        let before = after_sets(bound, sets.drop_last(), from, to, depth);
        match sets.last() {
            BoundSet::Parent(value) => law_child_follows_parent(before, value, from, to, depth),
            BoundSet::Child(value) => law_parent_follows_child(before, value, from, to, depth),
        }
    }
}

/// While a change of one signal is passed on to the other, the handler of the other one does not
/// react and leaves the lock as it is. So it is called only in a state in which it may be, and the
/// reaction ends in the state in which it began.
pub proof fn law_echo_changes_nothing<T, U>(
    bound: Bound<T, U>,
    parent: T,
    child: U,
    from: spec_fn(T) -> U,
    to: spec_fn(U) -> T,
    depth: nat,
)
    ensures
        parent_begun(Status::Idle) == Status::ReactingParent,
        child_begun(Status::Idle) == Status::ReactingChild,
        bound.status == Status::ReactingParent ==> !child_reacts(bound.status) && set_child(
            bound,
            child,
            from,
            to,
            depth,
        ) == (Bound { child, ..bound }),
        bound.status == Status::ReactingChild ==> !parent_reacts(bound.status) && set_parent(
            bound,
            parent,
            from,
            to,
            depth,
        ) == (Bound { parent, ..bound }),
{
}

/// A change of the parent that finds the lock idle is passed on. The handler of the child, which runs
/// meanwhile and sees the same lock, does not react, so that the change does not run back, and when
/// the reaction ends all locks are as they were.
pub proof fn law_parent_change_does_not_echo(
    bind: DoubleBind,
    other: DoubleBind,
    begin: &mut Memory<Status>,
    react: bool,
    echo: &mut Memory<Status>,
    echoes: bool,
    end: &mut Memory<Status>,
)
    requires
        bind.is_in(*old(begin)),
        old(begin)@[bind.cell()] is Idle,
        call_ensures(DoubleBind::begin_parent, (&bind, begin), react),
        call_ensures(<DoubleBind as Clone>::clone, (&bind,), other),
        *old(echo) == *final(begin),
        call_ensures(DoubleBind::begin_child, (&other, echo), echoes),
        *old(end) == *final(echo),
        call_ensures(DoubleBind::end_parent, (&bind, end), ()),
    ensures
        react,
        !echoes,
        final(end)@ == old(begin)@,
        final(end).name() == old(begin).name(),
{
    assert(final(end)@ == old(begin)@);
}

/// A change of the child that finds the lock idle is passed on, and does not run back either.
pub proof fn law_child_change_does_not_echo(
    bind: DoubleBind,
    other: DoubleBind,
    begin: &mut Memory<Status>,
    react: bool,
    echo: &mut Memory<Status>,
    echoes: bool,
    end: &mut Memory<Status>,
)
    requires
        bind.is_in(*old(begin)),
        old(begin)@[bind.cell()] is Idle,
        call_ensures(DoubleBind::begin_child, (&bind, begin), react),
        call_ensures(<DoubleBind as Clone>::clone, (&bind,), other),
        *old(echo) == *final(begin),
        call_ensures(DoubleBind::begin_parent, (&other, echo), echoes),
        *old(end) == *final(echo),
        call_ensures(DoubleBind::end_child, (&bind, end), ()),
    ensures
        react,
        !echoes,
        final(end)@ == old(begin)@,
        final(end).name() == old(begin).name(),
{
    assert(final(end)@ == old(begin)@);
}

/// While a change of one signal is passed on, the lock says so, and the handler of the other signal
/// leaves all locks as they are, however often it runs.
pub proof fn law_lock_tells_who_reacts(
    bind: DoubleBind,
    begin: &mut Memory<Status>,
    of_parent: bool,
    react: bool,
    seen: Status,
    echo: &mut Memory<Status>,
    echoes: bool,
)
    requires
        bind.is_in(*old(begin)),
        old(begin)@[bind.cell()] is Idle,
        if of_parent {
            call_ensures(DoubleBind::begin_parent, (&bind, begin), react)
        } else {
            call_ensures(DoubleBind::begin_child, (&bind, begin), react)
        },
        call_ensures(DoubleBind::status, (&bind, &*final(begin)), seen),
        *old(echo) == *final(begin),
        if of_parent {
            call_ensures(DoubleBind::begin_child, (&bind, echo), echoes)
        } else {
            call_ensures(DoubleBind::begin_parent, (&bind, echo), echoes)
        },
    ensures
        react,
        of_parent ==> seen is ReactingParent,
        !of_parent ==> seen is ReactingChild,
        !echoes,
        final(echo)@ == old(echo)@,
        forall|i: int|
            0 <= i < old(begin)@.len() && i != bind.cell() ==> final(begin)@[i]
                == #[trigger] old(begin)@[i],
{
    assert(final(echo)@ == old(echo)@);
}

/// The child starts with what `from` makes of the value of the parent, and the lock starts idle. The
/// locks that were there stay as they are.
pub proof fn law_bound_signals_start_idle<A: ?Sized, B, F: FnOnce(&A) -> B>(
    memory: &mut Memory<Status>,
    value: &A,
    from: F,
    res: (DoubleBind, B),
    seen: Status,
    more: &mut Memory<Status>,
    made: DoubleBind,
    idle: Status,
)
    requires
        call_ensures(DoubleBind::start::<A, B, F>, (memory, value, from), res),
        call_ensures(DoubleBind::status, (&res.0, &*final(memory)), seen),
        call_ensures(DoubleBind::new, (more,), made),
        call_ensures(DoubleBind::status, (&made, &*final(more)), idle),
    ensures
        from.ensures((value,), res.1),
        seen is Idle,
        res.0.is_in(*final(memory)),
        final(memory)@.drop_last() == old(memory)@,
        idle is Idle,
        made.is_in(*final(more)),
        final(more)@.drop_last() == old(more)@,
{
    assert(final(memory)@.drop_last() == old(memory)@);
    assert(final(more)@.drop_last() == old(more)@);
}

/// A change is passed on by setting the other signal to what the map makes of the value.
pub proof fn law_change_is_passed_on_through_the_map<
    A: ?Sized,
    B,
    F: FnOnce(&A) -> B,
    S: FnOnce(B),
>(bind: DoubleBind, value: &A, map: F, set: S)
    requires
        call_ensures(DoubleBind::pass_on::<A, B, F, S>, (&bind, value, map, set), ()),
    ensures
        exists|mapped: B|
            #![trigger map.ensures((value,), mapped)]
            map.ensures((value,), mapped) && set.ensures((mapped,), ()),
{
}

/// A change of either signal is accepted unless the other one is being set because of the same
/// signal, and a reaction can be ended by the signal that began it.
pub proof fn law_changes_are_accepted(bind: DoubleBind, memory: &mut Memory<Status>)
    requires
        bind.is_in(*old(memory)),
    ensures
        call_requires(DoubleBind::new, (memory,)),
        call_requires(DoubleBind::status, (&bind, &*old(memory))),
        !(old(memory)@[bind.cell()] is ReactingParent) ==> call_requires(
            DoubleBind::begin_parent,
            (&bind, memory),
        ),
        !(old(memory)@[bind.cell()] is ReactingChild) ==> call_requires(
            DoubleBind::begin_child,
            (&bind, memory),
        ),
        old(memory)@[bind.cell()] is ReactingParent ==> call_requires(
            DoubleBind::end_parent,
            (&bind, memory),
        ),
        old(memory)@[bind.cell()] is ReactingChild ==> call_requires(
            DoubleBind::end_child,
            (&bind, memory),
        ),
{
}

} // verus!
