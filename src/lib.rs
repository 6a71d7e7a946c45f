//! A growable, contiguous sequence container, with the byte-code chunk that
//! is built on it.

pub mod chunks;
pub mod error;
pub mod opcode;
pub mod raw;

pub use error::{ArrayLayout, GrowError, InsertError};
pub use opcode::Opcode;
pub use raw::RawDynamicSizeArray;

use vstd::prelude::*;
use vstd::arithmetic::power2::{pow2, lemma_pow2_unfold};
use raw::{growth_capacity, layout_failure, next_capacity, next_layout};

verus! {

/// The number of times a buffer grows while `n` elements are pushed, one
/// at a time, onto an empty array: a push grows the buffer exactly when
/// every slot is taken.
pub open spec fn growths_after_pushes(n: nat) -> nat
    decreases n,
{
    if n == 0 {
        0
    } else {
        let g = growths_after_pushes((n - 1) as nat);
        if (n - 1) as nat == growth_capacity(g) {
            g + 1
        } else {
            g
        }
    }
}

/// What popping `n` times from an array holding `s` leaves, and the
/// elements returned, in the order they came out.
pub open spec fn pop_times<T>(s: Seq<T>, n: nat) -> (Seq<T>, Seq<T>)
    decreases n,
{
    if n == 0 {
        (s, Seq::empty())
    } else {
        let (rest, out) = pop_times(s, (n - 1) as nat);
        (rest.drop_last(), out.push(rest.last()))
    }
}

/// What pushing the elements of `vs`, first to last, onto an array holding
/// `s` leaves.
pub open spec fn push_all<T>(s: Seq<T>, vs: Seq<T>) -> Seq<T>
    decreases vs.len(),
{
    if vs.len() == 0 {
        s
    } else {
        push_all(s, vs.drop_last()).push(vs.last())
    }
}

/// A sequence of elements in one growable buffer.
///
/// The first `length` slots of the buffer hold the elements; the others
/// are free. The buffer grows when an element is added to a full array,
/// and never shrinks.
pub struct DynamicSizeArray<T> {
    buffer: RawDynamicSizeArray<T>,
    length: usize,
}

impl<T> View for DynamicSizeArray<T> {
    type V = Seq<T>;

    closed spec fn view(&self) -> Seq<T> {
        self.buffer.slots()
    }
}

impl<T> DynamicSizeArray<T> {
    /// The number of slots of the buffer.
    pub closed spec fn spec_capacity(&self) -> nat {
        self.buffer.spec_capacity()
    }

    /// The number of times the buffer has grown since the array was created.
    pub closed spec fn growths(&self) -> nat {
        self.buffer.growths()
    }

    /// The length counts the held elements, and the buffer is well formed.
    pub closed spec fn wf(&self) -> bool {
        &&& self.buffer.wf()
        &&& self.length == self.buffer.slots().len()
    }

    /// Whether an element can be added to the array as it stands: either a
    /// slot is free, or the next block of the buffer has a valid layout.
    pub open spec fn can_add(&self) -> bool {
        self@.len() < self.spec_capacity() || layout_failure::<T>(self.spec_capacity()) is None
    }

    /// The failure that growing this array's buffer reports before any
    /// allocation is tried, if any.
    pub open spec fn growth_failure(&self) -> Option<GrowError> {
        layout_failure::<T>(self.spec_capacity())
    }

    /// An empty array, with no slot and no allocation.
    pub fn new() -> (r: Self)
        ensures
            r.wf(),
            r@ == Seq::<T>::empty(),
            r.spec_capacity() == 0,
            r.growths() == 0,
    {
        DynamicSizeArray { buffer: RawDynamicSizeArray::new(), length: 0 }
    }

    /// Whether the array holds no element.
    pub fn is_empty(&self) -> (r: bool)
        requires
            self.wf(),
        ensures
            r == (self@.len() == 0),
    {
        self.length == 0
    }

    /// Whether every slot of the buffer holds an element.
    pub fn is_full(&self) -> (r: bool)
        requires
            self.wf(),
        ensures
            r == (self@.len() == self.spec_capacity()),
    {
        self.length == self.buffer.capacity()
    }

    /// The number of slots of the buffer.
    pub fn capacity(&self) -> (r: usize)
        requires
            self.wf(),
        ensures
            r == self.spec_capacity(),
    {
        self.buffer.capacity()
    }

    /// The number of elements.
    pub fn length(&self) -> (r: usize)
        requires
            self.wf(),
        ensures
            r == self@.len(),
    {
        self.length
    }

    fn grow(&mut self) -> (r: Result<(), GrowError>)
        requires
            old(self).wf(),
        ensures
            final(self).wf(),
            final(self)@ == old(self)@,
            r is Ok ==> final(self).spec_capacity() == next_capacity(old(self).spec_capacity())
                && final(self).growths() == old(self).growths() + 1,
            r is Err ==> final(self).spec_capacity() == old(self).spec_capacity()
                && final(self).growths() == old(self).growths(),
            old(self).growth_failure() matches Some(e) ==> r == Err::<(), GrowError>(e),
            old(self).growth_failure() is None ==> (r is Ok || r == Err::<(), GrowError>(
                GrowError::AllocationFail(next_layout::<T>(old(self).spec_capacity())),
            )),
    {
        self.buffer.grow()
    }

    /// Appends an element after the last one, growing the buffer first when
    /// it is full. Where growing fails, the array is left as it was and the
    /// failure is returned.
    pub fn push_checked(&mut self, element: T) -> (r: Result<(), GrowError>)
        requires
            old(self).wf(),
        ensures
            final(self).wf(),
            r is Ok ==> final(self)@ == old(self)@.push(element),
            r is Err ==> final(self)@ == old(self)@,
            final(self).spec_capacity() == if r is Ok && old(self)@.len() == old(
                self,
            ).spec_capacity() {
                next_capacity(old(self).spec_capacity())
            } else {
                old(self).spec_capacity()
            },
            final(self).growths() == if r is Ok && old(self)@.len() == old(
                self,
            ).spec_capacity() {
                old(self).growths() + 1
            } else {
                old(self).growths()
            },
            r is Ok && old(self).growths() == growths_after_pushes(old(self)@.len())
                ==> final(self).growths() == growths_after_pushes(final(self)@.len()),
            old(self)@.len() < old(self).spec_capacity() ==> r is Ok,
            old(self)@.len() == old(self).spec_capacity() ==> {
                &&& old(self).growth_failure() matches Some(e) ==> r == Err::<(), GrowError>(e)
                &&& old(self).growth_failure() is None ==> (r is Ok || r == Err::<
                    (),
                    GrowError,
                >(GrowError::AllocationFail(next_layout::<T>(old(self).spec_capacity()))))
            },
    {
        if self.is_full() {
            match self.grow() {
                Ok(()) => {},
                Err(e) => return Err(e),
            }
        }
        self.buffer.write_next(element);
        self.length = self.length + 1;
        Ok(())
    }

    /// Appends an element after the last one, growing the buffer first when
    /// it is full. An allocator that cannot provide the grown block ends the
    /// process.
    pub fn push(&mut self, element: T)
        requires
            old(self).wf(),
            old(self).can_add(),
        ensures
            final(self).wf(),
            final(self)@ == old(self)@.push(element),
            final(self).spec_capacity() == if old(self)@.len() == old(self).spec_capacity() {
                next_capacity(old(self).spec_capacity())
            } else {
                old(self).spec_capacity()
            },
            final(self).growths() == if old(self)@.len() == old(self).spec_capacity() {
                old(self).growths() + 1
            } else {
                old(self).growths()
            },
            old(self).growths() == growths_after_pushes(old(self)@.len())
                ==> final(self).growths() == growths_after_pushes(final(self)@.len()),
    {
        if self.is_full() {
            self.buffer.grow_or_abort();
        }
        self.buffer.write_next(element);
        self.length = self.length + 1;
    }

    /// Removes the last element and returns it; `None` when the array is
    /// empty.
    pub fn pop(&mut self) -> (r: Option<T>)
        requires
            old(self).wf(),
        ensures
            final(self).wf(),
            old(self)@.len() == 0 ==> r is None && final(self)@ == old(self)@,
            old(self)@.len() > 0 ==> r == Some(old(self)@.last()) && final(self)@ == old(
                self,
            )@.drop_last(),
            final(self).spec_capacity() == old(self).spec_capacity(),
            final(self).growths() == old(self).growths(),
    {
        if self.is_empty() {
            None
        } else {
            let popped = self.buffer.take_last();
            self.length = self.length - 1;
            popped
        }
    }

    /// Inserts an element so that it stands at `index`, moving the elements
    /// from `index` on one position to the right; `index == length` appends.
    /// An index past the end, or a failed growth, leaves the array as it was.
    pub fn insert_checked(&mut self, index: usize, element: T) -> (r: Result<(), InsertError>)
        requires
            old(self).wf(),
        ensures
            final(self).wf(),
            r is Ok ==> final(self)@ == old(self)@.insert(index as int, element),
            r is Err ==> final(self)@ == old(self)@,
            final(self).spec_capacity() == if r is Ok && old(self)@.len() == old(
                self,
            ).spec_capacity() {
                next_capacity(old(self).spec_capacity())
            } else {
                old(self).spec_capacity()
            },
            final(self).growths() == if r is Ok && old(self)@.len() == old(
                self,
            ).spec_capacity() {
                old(self).growths() + 1
            } else {
                old(self).growths()
            },
            index > old(self)@.len() ==> r == Err::<(), InsertError>(InsertError::IndexOutOfBounds),
            index <= old(self)@.len() && old(self)@.len() < old(self).spec_capacity() ==> r is Ok,
            index <= old(self)@.len() && old(self)@.len() == old(self).spec_capacity() ==> {
                &&& old(self).growth_failure() matches Some(e) ==> r == Err::<(), InsertError>(
                    InsertError::Grow(e),
                )
                &&& old(self).growth_failure() is None ==> (r is Ok || r == Err::<
                    (),
                    InsertError,
                >(
                    InsertError::Grow(
                        GrowError::AllocationFail(next_layout::<T>(old(self).spec_capacity())),
                    ),
                ))
            },
    {
        if index > self.length {
            return Err(InsertError::IndexOutOfBounds);
        }
        if self.is_full() {
            match self.grow() {
                Ok(()) => {},
                Err(e) => return Err(InsertError::from(e)),
            }
        }
        self.buffer.insert_at(index, element);
        self.length = self.length + 1;
        Ok(())
    }

    /// Inserts an element so that it stands at `index`, as `insert_checked`
    /// does. An allocator that cannot provide the grown block ends the
    /// process.
    pub fn inset(&mut self, index: usize, element: T)
        requires
            old(self).wf(),
            index <= old(self)@.len(),
            old(self).can_add(),
        ensures
            final(self).wf(),
            final(self)@ == old(self)@.insert(index as int, element),
            final(self).spec_capacity() == if old(self)@.len() == old(self).spec_capacity() {
                next_capacity(old(self).spec_capacity())
            } else {
                old(self).spec_capacity()
            },
            final(self).growths() == if old(self)@.len() == old(self).spec_capacity() {
                old(self).growths() + 1
            } else {
                old(self).growths()
            },
    {
        if self.is_full() {
            self.buffer.grow_or_abort();
        }
        self.buffer.insert_at(index, element);
        self.length = self.length + 1;
    }

    /// Removes the element at `index` and returns it, moving the elements
    /// after it one position to the left; `None`, with the array unchanged,
    /// when no element stands at `index`.
    pub fn remove_checked(&mut self, index: usize) -> (r: Option<T>)
        requires
            old(self).wf(),
        ensures
            final(self).wf(),
            index >= old(self)@.len() ==> r is None && final(self)@ == old(self)@,
            index < old(self)@.len() ==> r == Some(old(self)@[index as int]) && final(self)@
                == old(self)@.remove(index as int),
            final(self).spec_capacity() == old(self).spec_capacity(),
            final(self).growths() == old(self).growths(),
    {
        if index >= self.length {
            return None;
        }
        let removed = self.buffer.remove_at(index);
        self.length = self.length - 1;
        Some(removed)
    }

    /// The elements, in order.
    pub fn as_slice(&self) -> (r: &[T])
        requires
            self.wf(),
        ensures
            r@ == self@,
    {
        self.buffer.as_slice()
    }

    /// The elements, in order, for reading and writing in place.
    pub fn as_mutable_slice(&mut self) -> (r: &mut [T])
        requires
            old(self).wf(),
        ensures
            r@ == old(self)@,
            final(self)@ == final(r)@,
            final(self).spec_capacity() == old(self).spec_capacity(),
            final(self).growths() == old(self).growths(),
    {
        self.buffer.as_mut_slice()
    }
}

/// A well-formed array never holds more elements than its buffer has
/// slots, and its capacity is the one that its number of growths gives.
pub proof fn lemma_length_within_capacity<T>(a: &DynamicSizeArray<T>)
    requires
        a.wf(),
    ensures
        a@.len() <= a.spec_capacity(),
        a.spec_capacity() == growth_capacity(a.growths()),
{
}

/// Growing a buffer strictly raises its capacity; no operation of an array
/// lowers it.
pub proof fn lemma_growth_raises_capacity(capacity: nat)
    ensures
        next_capacity(capacity) > capacity,
{
}

/// Pushing `vs` onto an array and then popping as many times returns the
/// elements of `vs` last to first and leaves the array as it was; from an
/// empty array, a further pop then finds it empty.
pub proof fn lemma_push_pop_round_trip<T>(s: Seq<T>, vs: Seq<T>)
    ensures
        push_all(s, vs) == s + vs,
        pop_times(push_all(s, vs), vs.len()) == (s, vs.reverse()),
        s.len() == 0 ==> pop_times(push_all(s, vs), vs.len()).0.len() == 0,
    decreases vs.len(),
{
    lemma_push_all(s, vs);
    lemma_pop_times_append(s, vs);
}

proof fn lemma_push_all<T>(s: Seq<T>, vs: Seq<T>)
    ensures
        push_all(s, vs) == s + vs,
    decreases vs.len(),
{
    if vs.len() > 0 {
        lemma_push_all(s, vs.drop_last());
        assert(s + vs == (s + vs.drop_last()).push(vs.last()));
    }
}

proof fn lemma_pop_times_append<T>(s: Seq<T>, vs: Seq<T>)
    ensures
        pop_times(s + vs, vs.len()) == (s, vs.reverse()),
    decreases vs.len(),
{
    if vs.len() > 0 {
        let rest = vs.subrange(1, vs.len() as int);
        let s1 = s.push(vs[0]);
        assert(s + vs == s1 + rest);
        lemma_pop_times_append(s1, rest);
        lemma_pop_times_prefix(s1 + rest, rest.len(), 1);
        assert(vs.reverse() == rest.reverse().push(vs[0])) by {
            assert(vs.reverse().len() == rest.reverse().len() + 1);
            assert forall|k: int| 0 <= k < vs.len() implies #[trigger] vs.reverse()[k]
                == rest.reverse().push(vs[0])[k] by {
                if k < rest.len() {
                    assert(vs.reverse()[k] == vs[vs.len() - 1 - k]);
                    assert(rest.reverse()[k] == rest[rest.len() - 1 - k]);
                }
            }
        }
        assert(s1.drop_last() == s);
    }
}

proof fn lemma_pop_times_prefix<T>(s: Seq<T>, n: nat, m: nat)
    ensures
        pop_times(s, n + m) == (
            pop_times(pop_times(s, n).0, m).0,
            pop_times(s, n).1 + pop_times(pop_times(s, n).0, m).1,
        ),
    decreases m,
{
    if m > 0 {
        lemma_pop_times_prefix(s, n, (m - 1) as nat);
        assert((n + m - 1) as nat == n + (m - 1) as nat);
        let t = pop_times(s, n);
        let u = pop_times(t.0, (m - 1) as nat);
        assert(t.1 + u.1.push(u.0.last()) == (t.1 + u.1).push(u.0.last()));
    }
}

/// Inserting `v` at `i` and then removing at `i` gives back `v` and the
/// sequence as it was.
pub proof fn lemma_insert_remove_inverse<T>(s: Seq<T>, i: int, v: T)
    requires
        0 <= i <= s.len(),
    ensures
        s.insert(i, v)[i] == v,
        s.insert(i, v).remove(i) == s,
{
    assert(s.insert(i, v).remove(i) == s);
}

/// Inserting `v` at `i` puts it between the elements before `i` and those
/// from `i` on, in their order; removing at `i` joins the elements around
/// `i`, and inserting the removed element again at `i` restores the
/// sequence.
pub proof fn lemma_insert_remove_order<T>(s: Seq<T>, i: int, v: T)
    requires
        0 <= i <= s.len(),
    ensures
        s.insert(i, v) == s.subrange(0, i).push(v) + s.subrange(i, s.len() as int),
        i < s.len() ==> s.remove(i) == s.subrange(0, i) + s.subrange(i + 1, s.len() as int),
        i < s.len() ==> s.remove(i).insert(i, s[i]) == s,
{
    assert(s.insert(i, v) == s.subrange(0, i).push(v) + s.subrange(i, s.len() as int));
    if i < s.len() {
        assert(s.remove(i) == s.subrange(0, i) + s.subrange(i + 1, s.len() as int));
        assert(s.remove(i).insert(i, s[i]) == s);
    }
}

proof fn lemma_growth_capacity_pow2(g: nat)
    requires
        g > 0,
    ensures
        growth_capacity(g) == 4 * pow2(g),
    decreases g,
{
    lemma_pow2_unfold(g);
    if g == 1 {
        vstd::arithmetic::power2::lemma2_to64();
    } else {
        lemma_growth_capacity_pow2((g - 1) as nat);
    }
}

proof fn lemma_growths_after_pushes_shape(n: nat)
    ensures
        n <= growth_capacity(growths_after_pushes(n)),
        n > 0 ==> growths_after_pushes(n) >= 1,
        n > 0 && growths_after_pushes(n) > 1 ==> growth_capacity(
            (growths_after_pushes(n) - 1) as nat,
        ) < n,
    decreases n,
{
    if n > 0 {
        let m = (n - 1) as nat;
        lemma_growths_after_pushes_shape(m);
        let g = growths_after_pushes(m);
        if m == growth_capacity(g) {
            raw::lemma_next_growth_capacity(g);
            if g > 0 {
                raw::lemma_growth_capacity_floor(g);
            }
        }
    }
}

/// While elements are pushed one at a time onto an empty array, the number
/// of times its buffer grows stays logarithmic in the number pushed:
/// after `n` pushes, `2` to the power of that number is at most `n + 1`,
/// and the capacity reached holds all `n` elements.
pub proof fn lemma_growths_logarithmic(n: nat)
    ensures
        pow2(growths_after_pushes(n)) <= n + 1,
        n <= growth_capacity(growths_after_pushes(n)),
{
    lemma_growths_after_pushes_shape(n);
    let g = growths_after_pushes(n);
    if g == 0 {
        vstd::arithmetic::power2::lemma2_to64();
    } else if g == 1 {
        vstd::arithmetic::power2::lemma2_to64();
    } else {
        lemma_growth_capacity_pow2((g - 1) as nat);
        lemma_pow2_unfold(g);
    }
}

} // verus!
