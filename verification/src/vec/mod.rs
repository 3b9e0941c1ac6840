//! A growable array that keeps its own capacity count, growing by eight
//! elements when full.

use vstd::prelude::*;

use crate::memory::allocator::{AllocError, Global};

verus! {

/// A growable array.
pub struct Vec<T> {
    buf: std::vec::Vec<T>,
    capacity: usize,
    alloc: Global,
}

impl<T> View for Vec<T> {
    type V = Seq<T>;

    closed spec fn view(&self) -> Seq<T> {
        self.buf@
    }
}

impl<T> Vec<T> {
    /// Elements fit in the capacity.
    pub closed spec fn wf(&self) -> bool {
        self.buf@.len() <= self.capacity
    }

    /// The capacity.
    pub closed spec fn cap(&self) -> nat {
        self.capacity as nat
    }

    /// A well-formed vector holds no more elements than its capacity.
    pub proof fn lemma_len_within_cap(&self)
        requires
            self.wf(),
        ensures
            self@.len() <= self.cap(),
            self.cap() <= usize::MAX,
    {
    }

    /// An empty vector of capacity 0.
    pub fn new() -> (res: Vec<T>)
        ensures
            res.wf(),
            res@ == Seq::<T>::empty(),
            res.cap() == 0,
    {
        Vec { buf: std::vec::Vec::new(), capacity: 0, alloc: Global }
    }

    /// An empty vector of capacity `capacity`.
    pub fn with_capacity(capacity: usize) -> (res: Vec<T>)
        ensures
            res.wf(),
            res@ == Seq::<T>::empty(),
            res.cap() == capacity,
    {
        Vec { buf: std::vec::Vec::new(), capacity, alloc: Global }
    }

    pub fn capacity(&self) -> (res: usize)
        ensures
            res == self.cap(),
    {
        self.capacity
    }

    pub fn len(&self) -> (res: usize)
        ensures
            res == self@.len(),
    {
        self.buf.len()
    }

    pub fn is_empty(&self) -> (res: bool)
        ensures
            res == (self@.len() == 0),
    {
        self.buf.len() == 0
    }

    /// The allocator of the vector.
    pub fn allocator(&self) -> (res: &Global) {
        &self.alloc
    }

    /// Sets the capacity to `new_size`, which must hold the elements.
    pub fn realloc(&mut self, new_size: usize) -> (res: Result<(), AllocError>)
        requires
            old(self).wf(),
            old(self)@.len() <= new_size,
        ensures
            final(self).wf(),
            res is Ok,
            final(self)@ == old(self)@,
            final(self).cap() == new_size,
    {
        self.capacity = new_size;
        Ok(())
    }

    /// Grows the capacity by `additional`.
    pub fn try_reserve(&mut self, additional: usize) -> (res: Result<(), AllocError>)
        requires
            old(self).wf(),
            old(self).cap() + additional <= usize::MAX,
        ensures
            final(self).wf(),
            res is Ok,
            final(self)@ == old(self)@,
            final(self).cap() == old(self).cap() + additional,
    {
        self.realloc(self.capacity + additional)
    }

    /// Grows the capacity by `additional`.
    pub fn reserve(&mut self, additional: usize)
        requires
            old(self).wf(),
            old(self).cap() + additional <= usize::MAX,
        ensures
            final(self).wf(),
            final(self)@ == old(self)@,
            final(self).cap() == old(self).cap() + additional,
    {
        let _ = self.try_reserve(additional);
    }

    /// Appends `value`; a full vector first grows by eight.
    pub fn push(&mut self, value: T)
        requires
            old(self).wf(),
            old(self).cap() + 8 <= usize::MAX,
        ensures
            final(self).wf(),
            final(self)@ == old(self)@.push(value),
            final(self).cap() == if old(self)@.len() == old(self).cap() {
                old(self).cap() + 8
            } else {
                old(self).cap()
            },
    {
        if self.buf.len() + 1 > self.capacity {
            self.reserve(8);
        }
        self.buf.push(value);
    }

    /// Appends `value`; a full vector first grows by eight.
    pub fn try_push(&mut self, value: T) -> (res: Result<(), AllocError>)
        requires
            old(self).wf(),
            old(self).cap() + 8 <= usize::MAX,
        ensures
            final(self).wf(),
            res is Ok,
            final(self)@ == old(self)@.push(value),
            final(self).cap() == if old(self)@.len() == old(self).cap() {
                old(self).cap() + 8
            } else {
                old(self).cap()
            },
    {
        self.push(value);
        Ok(())
    }

    /// Removes and returns the last element.
    pub fn pop(&mut self) -> (res: Option<T>)
        requires
            old(self).wf(),
        ensures
            final(self).wf(),
            final(self).cap() == old(self).cap(),
            old(self)@.len() == 0 ==> res is None && final(self)@ == old(self)@,
            old(self)@.len() > 0 ==> res == Some(old(self)@.last()) && final(self)@
                == old(self)@.drop_last(),
    {
        self.buf.pop()
    }

    /// Inserts `element` at `index`, shifting the following elements; a full
    /// vector first grows by eight.
    pub fn insert(&mut self, index: usize, element: T)
        requires
            old(self).wf(),
            index <= old(self)@.len(),
            old(self).cap() + 8 <= usize::MAX,
        ensures
            final(self).wf(),
            final(self)@ == old(self)@.insert(index as int, element),
            final(self).cap() == if old(self)@.len() == old(self).cap() {
                old(self).cap() + 8
            } else {
                old(self).cap()
            },
    {
        if self.buf.len() + 1 > self.capacity {
            self.reserve(8);
        }
        self.buf.insert(index, element);
    }

    /// Inserts `element` at `index`, shifting the following elements; a full
    /// vector first grows by eight.
    pub fn try_insert(&mut self, index: usize, element: T) -> (res: Result<(), AllocError>)
        requires
            old(self).wf(),
            index <= old(self)@.len(),
            old(self).cap() + 8 <= usize::MAX,
        ensures
            final(self).wf(),
            res is Ok,
            final(self)@ == old(self)@.insert(index as int, element),
            final(self).cap() == if old(self)@.len() == old(self).cap() {
                old(self).cap() + 8
            } else {
                old(self).cap()
            },
    {
        self.insert(index, element);
        Ok(())
    }

    /// Removes and returns the element at `index`, shifting the following
    /// ones; `None` when `index` is past the end.
    pub fn remove(&mut self, index: usize) -> (res: Option<T>)
        requires
            old(self).wf(),
        ensures
            final(self).wf(),
            final(self).cap() == old(self).cap(),
            index >= old(self)@.len() ==> res is None && final(self)@ == old(self)@,
            index < old(self)@.len() ==> res == Some(old(self)@[index as int]) && final(self)@
                == old(self)@.remove(index as int),
    {
        if index >= self.buf.len() {
            None
        } else {
            Some(self.buf.remove(index))
        }
    }

    /// Removes every element; the capacity stays.
    pub fn clear(&mut self)
        requires
            old(self).wf(),
        ensures
            final(self).wf(),
            final(self)@ == Seq::<T>::empty(),
            final(self).cap() == old(self).cap(),
    {
        self.buf.clear();
    }

    /// The element at `index`.
    pub fn get(&self, index: usize) -> (res: &T)
        requires
            index < self@.len(),
        ensures
            *res == self@[index as int],
    {
        &self.buf[index]
    }

    /// The element at `index`, for change.
    pub fn get_mut(&mut self, index: usize) -> (res: &mut T)
        requires
            old(self).wf(),
            index < old(self)@.len(),
        ensures
            final(self).wf(),
            *res == old(self)@[index as int],
            final(self)@ == old(self)@.update(index as int, *final(res)),
            final(self).cap() == old(self).cap(),
    {
        &mut self.buf[index]
    }

    /// The elements, in order.
    pub fn as_slice(&self) -> (res: &[T])
        ensures
            res@ == self@,
    {
        self.buf.as_slice()
    }

    /// The elements, in order, for change in place.
    pub fn as_mut_slice(&mut self) -> (res: &mut [T])
        ensures
            res@ == old(self)@,
            final(res)@ == final(self)@,
            final(self).cap() == old(self).cap(),
    {
        self.buf.as_mut_slice()
    }
}

impl<T: Copy> Vec<T> {
    /// Appends copies of `elements`; when they do not fit, the capacity
    /// first grows by the current capacity plus their number.
    pub fn extend_from_slice(&mut self, elements: &[T])
        requires
            old(self).wf(),
            2 * old(self).cap() + elements@.len() <= usize::MAX,
        ensures
            final(self).wf(),
            final(self)@ == old(self)@ + elements@,
            final(self).cap() == if old(self)@.len() + elements@.len() > old(self).cap() {
                2 * old(self).cap() + elements@.len()
            } else {
                old(self).cap()
            },
    {
        let n = elements.len();
        if self.buf.len() + n > self.capacity {
            let c = self.capacity;
            self.reserve(c + n);
        }
        let mut i: usize = 0;
        while i < n
            invariant
                i <= n,
                n == elements@.len(),
                self.buf@ == old(self)@ + elements@.subrange(0, i as int),
                old(self)@.len() + n <= self.capacity,
                self.capacity == if old(self)@.len() + elements@.len() > old(self).cap() {
                    2 * old(self).cap() + elements@.len()
                } else {
                    old(self).cap()
                },
            decreases n - i,
        {
            self.buf.push(elements[i]);
            assert(elements@.subrange(0, i + 1) =~= elements@.subrange(0, i as int).push(elements@[i as int]));
            i += 1;
        }
        assert(elements@.subrange(0, n as int) =~= elements@);
    }
}

/// Popping right after pushing `value` gives `value` back and leaves the
/// elements as they were.
pub proof fn lemma_pop_undoes_push<T>(s: Seq<T>, value: T)
    ensures
        s.push(value).len() > 0,
        s.push(value).last() == value,
        s.push(value).drop_last() == s,
{
    assert(s.push(value).drop_last() =~= s);
}

/// Removing at `index` right after inserting `element` there gives
/// `element` back and leaves the elements as they were.
pub proof fn lemma_remove_undoes_insert<T>(s: Seq<T>, index: int, element: T)
    requires
        0 <= index <= s.len(),
    ensures
        index < s.insert(index, element).len(),
        s.insert(index, element)[index] == element,
        s.insert(index, element).remove(index) == s,
{
    assert(s.insert(index, element).remove(index) =~= s);
}

} // verus!
