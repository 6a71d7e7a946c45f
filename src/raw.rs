use vstd::prelude::*;
use vstd::layout::{size_of, align_of};

use crate::error::{ArrayLayout, GrowError};

verus! {

/// The largest block, in bytes, that a buffer may ask for: the largest
/// signed offset of the platform.
pub const MAX_ALLOCATION_SIZE: usize = usize::MAX / 2;

/// The capacity of the first block.
pub const FIRST_CAPACITY: usize = 8;

/// The capacity that follows `capacity` when a buffer grows: a floor of
/// eight slots, then doubling.
pub open spec fn next_capacity(capacity: nat) -> nat {
    if capacity < FIRST_CAPACITY {
        FIRST_CAPACITY as nat
    } else {
        2 * capacity
    }
}

/// The capacity of a buffer that has grown `growths` times since it was
/// created: none, then eight slots, doubled at each further growth.
pub open spec fn growth_capacity(growths: nat) -> nat
    decreases growths,
{
    if growths == 0 {
        0
    } else if growths == 1 {
        FIRST_CAPACITY as nat
    } else {
        2 * growth_capacity((growths - 1) as nat)
    }
}

/// The size in bytes of `capacity` slots of `T`.
pub open spec fn block_size<T>(capacity: nat) -> nat {
    capacity * size_of::<T>()
}

/// The failure that growing from `capacity` reports before any allocation
/// is tried, if the next block cannot be described or is too large.
pub open spec fn layout_failure<T>(capacity: nat) -> Option<GrowError> {
    let next = next_capacity(capacity);
    if next > usize::MAX || block_size::<T>(next) > usize::MAX {
        Some(GrowError::Layout)
    } else if block_size::<T>(next) > MAX_ALLOCATION_SIZE {
        Some(GrowError::AllocationTooLarge)
    } else {
        None
    }
}

/// The layout of the block that growing from `capacity` asks for.
pub open spec fn next_layout<T>(capacity: nat) -> ArrayLayout {
    ArrayLayout {
        size: block_size::<T>(next_capacity(capacity)) as usize,
        align: align_of::<T>() as usize,
    }
}

/// A buffer that has grown at least once holds at least eight slots.
pub(crate) proof fn lemma_growth_capacity_floor(g: nat)
    requires
        g > 0,
    ensures
        growth_capacity(g) >= FIRST_CAPACITY,
    decreases g,
{
    if g > 1 {
        lemma_growth_capacity_floor((g - 1) as nat);
    }
}

/// Growing a buffer of `growth_capacity(g)` slots gives `growth_capacity(g + 1)`.
pub(crate) proof fn lemma_next_growth_capacity(g: nat)
    ensures
        next_capacity(growth_capacity(g)) == growth_capacity(g + 1),
{
    if g > 0 {
        lemma_growth_capacity_floor(g);
    }
}

/// Storage for a number of slots of `T`.
///
/// The slots that hold an element form a prefix, kept in a `Vec` whose
/// allocation is reserved up to the buffer's capacity whenever the buffer
/// grows. The buffer decides the capacity and checks the layout of each
/// block before it asks the allocator for it.
pub struct RawDynamicSizeArray<T> {
    elements: Vec<T>,
    capacity: usize,
    growths: Ghost<nat>,
}

impl<T> RawDynamicSizeArray<T> {
    /// The elements held in the first slots.
    pub closed spec fn slots(&self) -> Seq<T> {
        self.elements@
    }

    /// The number of slots.
    pub closed spec fn spec_capacity(&self) -> nat {
        self.capacity as nat
    }

    /// The number of times the buffer has grown since it was created.
    pub closed spec fn growths(&self) -> nat {
        self.growths@
    }

    /// The held elements fit in the slots, the block fits under
    /// `MAX_ALLOCATION_SIZE`, and the capacity is the one that the number
    /// of growths gives.
    pub open spec fn wf(&self) -> bool {
        &&& self.slots().len() <= self.spec_capacity()
        &&& block_size::<T>(self.spec_capacity()) <= MAX_ALLOCATION_SIZE
        &&& self.spec_capacity() == growth_capacity(self.growths())
        &&& self.spec_capacity() <= usize::MAX
    }

    /// An empty buffer: no slot, no allocation.
    pub fn new() -> (r: Self)
        ensures
            r.wf(),
            r.slots() == Seq::<T>::empty(),
            r.spec_capacity() == 0,
            r.growths() == 0,
    {
        RawDynamicSizeArray { elements: Vec::new(), capacity: 0, growths: Ghost(0) }
    }

    /// The number of slots.
    pub fn capacity(&self) -> (r: usize)
        ensures
            r == self.spec_capacity(),
    {
        self.capacity
    }

    /// The capacity that the next growth gives, or `None` where it does not
    /// fit in a `usize`.
    fn larger_capacity(&self) -> (r: Option<usize>)
        ensures
            next_capacity(self.spec_capacity()) <= usize::MAX ==> r == Some(
                next_capacity(self.spec_capacity()) as usize,
            ),
            next_capacity(self.spec_capacity()) > usize::MAX ==> r is None,
    {
        if self.capacity < FIRST_CAPACITY {
            Some(FIRST_CAPACITY)
        } else {
            self.capacity.checked_mul(2)
        }
    }

    /// The next capacity and the layout of its block, or the failure that
    /// rules that block out.
    fn next_layout(&self) -> (r: Result<(usize, ArrayLayout), GrowError>)
        ensures
            match layout_failure::<T>(self.spec_capacity()) {
                Some(e) => r == Err::<(usize, ArrayLayout), GrowError>(e),
                None => r == Ok::<(usize, ArrayLayout), GrowError>(
                    (
                        next_capacity(self.spec_capacity()) as usize,
                        next_layout::<T>(self.spec_capacity()),
                    ),
                ),
            },
    {
        let capacity = match self.larger_capacity() {
            Some(c) => c,
            None => return Err(GrowError::Layout),
        };
        let size = match capacity.checked_mul(core::mem::size_of::<T>()) {
            Some(s) => s,
            None => return Err(GrowError::Layout),
        };
        if size > MAX_ALLOCATION_SIZE {
            return Err(GrowError::AllocationTooLarge);
        }
        Ok((capacity, ArrayLayout { size, align: core::mem::align_of::<T>() }))
    }

    /// Extends the capacity to `next_capacity` of the old one, keeping the
    /// held elements.
    ///
    /// The layout of the new block is checked first. On any failure the
    /// capacity still describes the block that the buffer holds.
    pub fn grow(&mut self) -> (r: Result<(), GrowError>)
        requires
            old(self).wf(),
        ensures
            final(self).wf(),
            final(self).slots() == old(self).slots(),
            r is Ok ==> layout_failure::<T>(old(self).spec_capacity()) is None
                && final(self).spec_capacity() == next_capacity(old(self).spec_capacity())
                && final(self).growths() == old(self).growths() + 1,
            r is Err ==> final(self).spec_capacity() == old(self).spec_capacity()
                && final(self).growths() == old(self).growths(),
            layout_failure::<T>(old(self).spec_capacity()) matches Some(e) ==> r == Err::<
                (),
                GrowError,
            >(e),
            layout_failure::<T>(old(self).spec_capacity()) is None ==> (r is Ok || r == Err::<
                (),
                GrowError,
            >(GrowError::AllocationFail(next_layout::<T>(old(self).spec_capacity())))),
    {
        let (capacity, layout) = match self.next_layout() {
            Ok(next) => next,
            Err(e) => return Err(e),
        };
        match self.elements.try_reserve(capacity - self.elements.len()) {
            Ok(()) => {
                proof {
                    lemma_next_growth_capacity(self.growths@);
                }
                self.capacity = capacity;
                self.growths = Ghost(self.growths@ + 1);
                Ok(())
            },
            Err(_) => Err(GrowError::AllocationFail(layout)),
        }
    }

    /// Extends the capacity as `grow` does, where the layout of the next
    /// block is known to be fine; an allocator that cannot provide the block
    /// ends the process.
    pub(crate) fn grow_or_abort(&mut self)
        requires
            old(self).wf(),
            layout_failure::<T>(old(self).spec_capacity()) is None,
        ensures
            final(self).wf(),
            final(self).slots() == old(self).slots(),
            final(self).spec_capacity() == next_capacity(old(self).spec_capacity()),
            final(self).growths() == old(self).growths() + 1,
    {
        let (capacity, _layout) = match self.next_layout() {
            Ok(next) => next,
            Err(_) => return,
        };
        self.elements.reserve(capacity - self.elements.len());
        proof {
            lemma_next_growth_capacity(self.growths@);
        }
        self.capacity = capacity;
        self.growths = Ghost(self.growths@ + 1);
    }

    /// Places an element in the first free slot.
    pub(crate) fn write_next(&mut self, element: T)
        requires
            old(self).wf(),
            old(self).slots().len() < old(self).spec_capacity(),
        ensures
            final(self).wf(),
            final(self).slots() == old(self).slots().push(element),
            final(self).spec_capacity() == old(self).spec_capacity(),
            final(self).growths() == old(self).growths(),
    {
        self.elements.push(element);
    }

    /// Moves the element out of the last held slot, if any.
    pub(crate) fn take_last(&mut self) -> (r: Option<T>)
        requires
            old(self).wf(),
        ensures
            final(self).wf(),
            old(self).slots().len() == 0 ==> r is None && final(self).slots() == old(
                self,
            ).slots(),
            old(self).slots().len() > 0 ==> r == Some(old(self).slots().last())
                && final(self).slots() == old(self).slots().drop_last(),
            final(self).spec_capacity() == old(self).spec_capacity(),
            final(self).growths() == old(self).growths(),
    {
        self.elements.pop()
    }

    /// Places an element at `index`, moving the held elements from `index`
    /// on one slot to the right.
    pub(crate) fn insert_at(&mut self, index: usize, element: T)
        requires
            old(self).wf(),
            index <= old(self).slots().len(),
            old(self).slots().len() < old(self).spec_capacity(),
        ensures
            final(self).wf(),
            final(self).slots() == old(self).slots().insert(index as int, element),
            final(self).spec_capacity() == old(self).spec_capacity(),
            final(self).growths() == old(self).growths(),
    {
        self.elements.insert(index, element);
    }

    /// Moves the element out of slot `index`, moving the held elements after
    /// it one slot to the left.
    pub(crate) fn remove_at(&mut self, index: usize) -> (r: T)
        requires
            old(self).wf(),
            index < old(self).slots().len(),
        ensures
            final(self).wf(),
            r == old(self).slots()[index as int],
            final(self).slots() == old(self).slots().remove(index as int),
            final(self).spec_capacity() == old(self).spec_capacity(),
            final(self).growths() == old(self).growths(),
    {
        self.elements.remove(index)
    }

    /// The held elements, in order.
    pub(crate) fn as_slice(&self) -> (r: &[T])
        ensures
            r@ == self.slots(),
    {
        self.elements.as_slice()
    }

    /// The held elements, in order, for writing in place.
    pub(crate) fn as_mut_slice(&mut self) -> (r: &mut [T])
        ensures
            r@ == old(self).slots(),
            final(self).slots() == final(r)@,
            final(self).spec_capacity() == old(self).spec_capacity(),
            final(self).growths() == old(self).growths(),
    {
        self.elements.as_mut_slice()
    }
}

impl<T> Default for RawDynamicSizeArray<T> {
    fn default() -> (r: Self)
        ensures
            r.wf(),
            r.slots() == Seq::<T>::empty(),
            r.spec_capacity() == 0,
    {
        RawDynamicSizeArray::new()
    }
}

} // verus!
