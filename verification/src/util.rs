//! Cells that several holders share.
//!
//! A [`SharedBox`] is a handle, and any number of clones of it name one cell. The contents of the
//! cells live in a [`Memory`]: reading a cell borrows the memory, changing one borrows it mutably.
//! Two accesses can therefore not overlap, so that no access ever has to be refused.

use core::marker::PhantomData;
use vstd::prelude::*;

verus! {

/// The contents of all the cells of one kind, by the order in which they were made.
pub struct Memory<T> {
    slots: Vec<T>,
    name: Ghost<int>,
}

impl<T> View for Memory<T> {
    type V = Seq<T>;

    closed spec fn view(&self) -> Seq<T> {
        self.slots@
    }
}

impl<T> Memory<T> {
    /// What the handles on the cells of this memory know it by. Of the names of two memories
    /// nothing is stated, so that a handle on a cell of one is not known to be in the other.
    pub closed spec fn name(&self) -> int {
        self.name@
    }

    /// A memory without cells.
    pub fn new() -> (res: Self)
        ensures
            res@ == Seq::<T>::empty(),
    {
        Memory { slots: Vec::new(), name: Ghost(arbitrary()) }
    }
}

/// A handle on a cell. Its clones name the same cell.
pub struct SharedBox<T> {
    slot: usize,
    home: Ghost<int>,
    kind: PhantomData<T>,
}

impl<T> Clone for SharedBox<T> {
    /// A second handle on the same cell.
    fn clone(&self) -> (res: Self)
        ensures
            res == *self,
    {
        SharedBox { slot: self.slot, home: self.home, kind: PhantomData }
    }
}

impl<T> SharedBox<T> {
    /// The cell that this handle names.
    pub closed spec fn cell(&self) -> int {
        self.slot as int
    }

    /// The name of the memory that the cell was made in.
    pub closed spec fn home(&self) -> int {
        self.home@
    }

    /// The cell is one of those of `memory`.
    pub open spec fn is_in(&self, memory: Memory<T>) -> bool {
        &&& self.home() == memory.name()
        &&& 0 <= self.cell() < memory@.len()
    }

    /// What the cell holds in `memory`.
    pub open spec fn value(&self, memory: Seq<T>) -> T {
        memory[self.cell()]
    }

    /// Makes a cell that holds `value`.
    pub fn new(memory: &mut Memory<T>, value: T) -> (res: Self)
        ensures
            res.cell() == old(memory)@.len(),
            res.home() == old(memory).name(),
            final(memory).name() == old(memory).name(),
            final(memory)@ == old(memory)@.push(value),
    {
        let slot: usize = memory.slots.len();
        memory.slots.push(value);
        SharedBox { slot, home: Ghost(memory.name()), kind: PhantomData }
    }

    /// What the cell holds, copied.
    pub fn get(&self, memory: &Memory<T>) -> (res: T) where T: Copy
        requires
            self.is_in(*memory),
        ensures
            res == self.value(memory@),
    {
        memory.slots[self.slot]
    }

    /// What the cell holds, cloned.
    pub fn get_cloned(&self, memory: &Memory<T>) -> (res: T) where T: Clone
        requires
            self.is_in(*memory),
        ensures
            cloned(self.value(memory@), res),
    {
        memory.slots[self.slot].clone()
    }

    /// Takes out what the cell holds and leaves the default value in its place.
    pub fn take(&self, memory: &mut Memory<T>) -> (res: T) where T: Default
        requires
            self.is_in(*old(memory)),
        ensures
            res == self.value(old(memory)@),
            final(memory).name() == old(memory).name(),
            exists|rest: T|
                call_ensures(T::default, (), rest) && final(memory)@ == old(memory)@.update(
                    self.cell(),
                    rest,
                ),
    {
        let mut content = T::default();
        let ghost rest = content;
        core::mem::swap(&mut memory.slots[self.slot], &mut content);
        assert(call_ensures(T::default, (), rest));
        content
    }

    /// Applies `f` to what the cell holds.
    pub fn with_mut<U, F: FnOnce(&T) -> U>(&self, memory: &Memory<T>, f: F) -> (res: U)
        requires
            self.is_in(*memory),
            f.requires((&self.value(memory@),)),
        ensures
            f.ensures((&self.value(memory@),), res),
    {
        f(&memory.slots[self.slot])
    }

    /// Replaces what the cell holds by `value`.
    pub fn set(&self, memory: &mut Memory<T>, value: T)
        requires
            self.is_in(*old(memory)),
        ensures
            final(memory).name() == old(memory).name(),
            final(memory)@ == old(memory)@.update(self.cell(), value),
    {
        memory.slots[self.slot] = value;
    }

    /// Replaces `from`, which the cell has to hold, by `to`.
    pub fn from_to(&self, memory: &mut Memory<T>, from: &T, to: T) where T: PartialEq + Clone
        requires
            self.is_in(*old(memory)),
            forall|content: T, same: bool| #[trigger]
                cloned(self.value(old(memory)@), content) && #[trigger] call_ensures(
                    <T as PartialEq>::eq,
                    (&content, from),
                    same,
                ) ==> same,
        ensures
            final(memory).name() == old(memory).name(),
            final(memory)@ == old(memory)@.update(self.cell(), to),
    {
        self.set(memory, to);
    }
}

/// What is written through one handle is read through every handle on the same cell, and the other
/// cells stay as they are. Here `after` is `memory` once [`SharedBox::set`] has written.
pub proof fn law_write_is_read_through_every_clone<T>(
    memory: Memory<T>,
    writer: SharedBox<T>,
    reader: SharedBox<T>,
    value: T,
    after: Memory<T>,
)
    requires
        writer.is_in(memory),
        reader.is_in(memory),
        after.name() == memory.name(),
        after@ == memory@.update(writer.cell(), value),
    ensures
        reader.is_in(after),
        reader.value(after@) == (if reader.cell() == writer.cell() {
            value
        } else {
            reader.value(memory@)
        }),
{
}

/// A new cell is none of those that were there, which stay as they are. Here `after` is `memory`
/// once [`SharedBox::new`] has made the cell.
pub proof fn law_new_cell_is_apart<T>(
    memory: Memory<T>,
    made: SharedBox<T>,
    other: SharedBox<T>,
    value: T,
    after: Memory<T>,
)
    requires
        other.is_in(memory),
        made.cell() == memory@.len(),
        made.home() == memory.name(),
        after.name() == memory.name(),
        after@ == memory@.push(value),
    ensures
        made.is_in(after),
        made.value(after@) == value,
        other.cell() != made.cell(),
        other.is_in(after),
        other.value(after@) == other.value(memory@),
{
}

/// What was written through one handle is what a clone of it reads, and what is read through a handle
/// on another cell is what it was.
pub proof fn law_clone_reads_what_was_written<T: Copy>(
    memory: &mut Memory<T>,
    writer: SharedBox<T>,
    value: T,
    copy: SharedBox<T>,
    read: T,
    other: SharedBox<T>,
    before: T,
    after: T,
)
    requires
        writer.is_in(*old(memory)),
        call_ensures(SharedBox::<T>::set, (&writer, memory, value), ()),
        call_ensures(<SharedBox<T> as Clone>::clone, (&writer,), copy),
        call_ensures(SharedBox::<T>::get, (&copy, &*final(memory)), read),
        other.is_in(*old(memory)),
        other.cell() != writer.cell(),
        call_ensures(SharedBox::<T>::get, (&other, &*old(memory)), before),
        call_ensures(SharedBox::<T>::get, (&other, &*final(memory)), after),
    ensures
        read == value,
        after == before,
        copy.is_in(*final(memory)),
        other.is_in(*final(memory)),
{
}

/// A new cell holds the value that it was made with, and what the cells that were there hold is what
/// they held.
pub proof fn law_new_cell_holds_its_value<T: Copy>(
    memory: &mut Memory<T>,
    value: T,
    made: SharedBox<T>,
    read: T,
    other: SharedBox<T>,
    before: T,
    after: T,
)
    requires
        call_ensures(SharedBox::<T>::new, (memory, value), made),
        call_ensures(SharedBox::<T>::get, (&made, &*final(memory)), read),
        other.is_in(*old(memory)),
        call_ensures(SharedBox::<T>::get, (&other, &*old(memory)), before),
        call_ensures(SharedBox::<T>::get, (&other, &*final(memory)), after),
    ensures
        made.is_in(*final(memory)),
        other.is_in(*final(memory)),
        read == value,
        after == before,
{
}

/// What is taken out is what the cell held, and the default is what it holds then. The other cells
/// hold what they held.
pub proof fn law_take_leaves_the_default<T: Copy + Default>(
    memory: &mut Memory<T>,
    cell: SharedBox<T>,
    before: T,
    taken: T,
    read: T,
    other: SharedBox<T>,
)
    requires
        cell.is_in(*old(memory)),
        call_ensures(SharedBox::<T>::get, (&cell, &*old(memory)), before),
        call_ensures(SharedBox::<T>::take, (&cell, memory), taken),
        call_ensures(SharedBox::<T>::get, (&cell, &*final(memory)), read),
        other.is_in(*old(memory)),
        other.cell() != cell.cell(),
    ensures
        taken == before,
        call_ensures(T::default, (), read),
        other.is_in(*final(memory)),
        other.value(final(memory)@) == other.value(old(memory)@),
{
}

/// A cell that is moved from one value to another holds the other, as if it had been set to it. The
/// other cells hold what they held.
pub proof fn law_from_to_is_a_write<T: PartialEq + Copy>(
    memory: &mut Memory<T>,
    cell: SharedBox<T>,
    from: T,
    to: T,
    read: T,
    other: SharedBox<T>,
)
    requires
        cell.is_in(*old(memory)),
        call_ensures(SharedBox::<T>::from_to, (&cell, memory, &from, to), ()),
        call_ensures(SharedBox::<T>::get, (&cell, &*final(memory)), read),
        other.is_in(*old(memory)),
        other.cell() != cell.cell(),
    ensures
        read == to,
        other.is_in(*final(memory)),
        other.value(final(memory)@) == other.value(old(memory)@),
{
}

/// What is cloned out of a cell, and what a closure is applied to, is what the cell was given.
pub proof fn law_readers_see_what_was_written<T: Clone, U, F: FnOnce(&T) -> U>(
    memory: &mut Memory<T>,
    cell: SharedBox<T>,
    value: T,
    copy: T,
    f: F,
    res: U,
)
    requires
        cell.is_in(*old(memory)),
        call_ensures(SharedBox::<T>::set, (&cell, memory, value), ()),
        call_ensures(SharedBox::<T>::get_cloned, (&cell, &*final(memory)), copy),
        call_ensures(SharedBox::<T>::with_mut::<U, F>, (&cell, &*final(memory), f), res),
    ensures
        cloned(value, copy),
        f.ensures((&value,), res),
{
}

/// Every value can be put into a cell, and every cell can be read and written in the memory that it
/// was made in.
pub proof fn law_cells_accept_every_value<T: Copy + Default, U, F: FnOnce(&T) -> U>(
    memory: &mut Memory<T>,
    cell: SharedBox<T>,
    value: T,
    f: F,
)
    requires
        cell.home() == old(memory).name(),
        cell.cell() < old(memory)@.len(),
        cell.cell() >= 0,
        f.requires((&old(memory)@[cell.cell()],)),
    ensures
        call_requires(SharedBox::<T>::new, (memory, value)),
        call_requires(SharedBox::<T>::get, (&cell, &*old(memory))),
        call_requires(SharedBox::<T>::get_cloned, (&cell, &*old(memory))),
        call_requires(SharedBox::<T>::take, (&cell, memory)),
        call_requires(SharedBox::<T>::set, (&cell, memory, value)),
        call_requires(SharedBox::<T>::with_mut::<U, F>, (&cell, &*old(memory), f)),
{
}

} // verus!
