//! A first-in first-out queue over the kernel vector.

use vstd::prelude::*;

use crate::vec::Vec;

verus! {

/// A queue: items leave in the order they came.
pub struct Queue<T> {
    vec: Vec<T>,
}

impl<T> View for Queue<T> {
    type V = Seq<T>;

    /// The items, front first.
    closed spec fn view(&self) -> Seq<T> {
        self.vec@
    }
}

impl<T: Clone> Queue<T> {
    pub closed spec fn wf(&self) -> bool {
        self.vec.wf()
    }

    /// The capacity of the underlying vector.
    pub closed spec fn cap(&self) -> nat {
        self.vec.cap()
    }

    pub fn new() -> (res: Self)
        ensures
            res.wf(),
            res@ == Seq::<T>::empty(),
            res.cap() == 0,
    {
        Queue { vec: Vec::new() }
    }

    pub fn len(&self) -> (res: usize)
        ensures
            res == self@.len(),
    {
        self.vec.len()
    }

    /// Adds `item` at the back.
    pub fn push(&mut self, item: T)
        requires
            old(self).wf(),
            old(self).cap() + 8 <= usize::MAX,
        ensures
            final(self).wf(),
            final(self)@ == old(self)@.push(item),
            final(self).cap() <= old(self).cap() + 8,
    {
        self.vec.push(item)
    }

    /// Takes the front item; the queue must not be empty.
    pub fn pop(&mut self) -> (res: T)
        requires
            old(self).wf(),
            old(self)@.len() > 0,
        ensures
            final(self).wf(),
            res == old(self)@[0],
            final(self)@ == old(self)@.drop_first(),
            final(self).cap() == old(self).cap(),
    {
        let res = self.vec.remove(0);
        assert(old(self)@.remove(0) =~= old(self)@.drop_first());
        res.unwrap()
    }

    pub fn is_empty(&self) -> (res: bool)
        ensures
            res == (self@.len() == 0),
    {
        self.vec.is_empty()
    }

    /// The front item, if any.
    pub fn front(&self) -> (res: Option<&T>)
        ensures
            self@.len() == 0 ==> res is None,
            self@.len() > 0 ==> res == Some(&self@[0]),
    {
        self.get(0)
    }

    /// The front item, for change, if any.
    pub fn front_mut(&mut self) -> (res: Option<&mut T>)
        requires
            old(self).wf(),
        ensures
            old(self)@.len() == 0 ==> res is None && *final(self) == *old(self),
            old(self)@.len() > 0 ==> (res matches Some(r) && *r == old(self)@[0] && final(self)@
                == old(self)@.update(0, *final(r))),
            final(self).wf(),
            final(self).cap() == old(self).cap(),
    {
        self.get_mut(0)
    }

    /// The item at `index` from the front, if there is one.
    pub fn get(&self, index: usize) -> (res: Option<&T>)
        ensures
            index >= self@.len() ==> res is None,
            index < self@.len() ==> res == Some(&self@[index as int]),
    {
        if index < self.len() {
            Some(self.vec.get(index))
        } else {
            None
        }
    }

    /// The item at `index` from the front, for change, if there is one.
    pub fn get_mut(&mut self, index: usize) -> (res: Option<&mut T>)
        requires
            old(self).wf(),
        ensures
            index >= old(self)@.len() ==> res is None && *final(self) == *old(self),
            index < old(self)@.len() ==> (res matches Some(r) && *r == old(self)@[index as int]
                && final(self)@ == old(self)@.update(index as int, *final(r))),
            final(self).wf(),
            final(self).cap() == old(self).cap(),
    {
        if index < self.len() {
            Some(self.vec.get_mut(index))
        } else {
            None
        }
    }

    /// A clone of the front item, if any.
    pub fn peek(&self) -> (res: Option<T>)
        ensures
            self@.len() == 0 ==> res is None,
            self@.len() > 0 ==> (res matches Some(r) && cloned(self@[0], r)),
    {
        if !self.vec.is_empty() {
            Some(self.vec.get(0).clone())
        } else {
            None
        }
    }
}

/// Items leave in the order they came: pushing at the back changes neither
/// the front nor what follows it, and on an empty queue the item pushed is
/// the front.
pub proof fn lemma_first_in_first_out<T>(s: Seq<T>, item: T)
    ensures
        s.len() == 0 ==> s.push(item)[0] == item && s.push(item).drop_first() == s,
        s.len() > 0 ==> s.push(item)[0] == s[0] && s.push(item).drop_first() == s.drop_first().push(item),
{
    assert(s.len() == 0 ==> s.push(item).drop_first() =~= s);
    assert(s.len() > 0 ==> s.push(item).drop_first() =~= s.drop_first().push(item));
}

} // verus!
