//! A heap cell owned by one value.

use vstd::prelude::*;

use crate::memory::allocator::{AllocError, Global};

verus! {

/// A value kept on the heap.
pub struct Box<T> {
    ptr: std::boxed::Box<T>,
    alloc: Global,
}

impl<T> View for Box<T> {
    type V = T;

    /// The value held.
    closed spec fn view(&self) -> T {
        *self.ptr
    }
}

impl<T> Box<T> {
    /// A box holding `x`.
    pub fn new(x: T) -> (res: Box<T>)
        ensures
            res@ == x,
    {
        Self::new_in(x, Global)
    }

    /// A box holding `x`; allocation does not fail here.
    pub fn try_new(x: T) -> (res: Result<Box<T>, AllocError>)
        ensures
            res matches Ok(b) && b@ == x,
    {
        Self::try_new_in(x, Global)
    }

    /// A box holding `x`, from the kernel allocator.
    pub fn knew(x: T) -> (res: Box<T>)
        ensures
            res@ == x,
    {
        Self::new_in(x, Global)
    }

    /// A box holding `x`, from the kernel allocator.
    pub fn ktry_new(x: T) -> (res: Result<Box<T>, AllocError>)
        ensures
            res matches Ok(b) && b@ == x,
    {
        Self::try_new_in(x, Global)
    }

    /// A box holding `x`, from `alloc`.
    pub fn new_in(x: T, alloc: Global) -> (res: Box<T>)
        ensures
            res@ == x,
    {
        Box { ptr: std::boxed::Box::new(x), alloc }
    }

    /// A box holding `x`, from `alloc`.
    pub fn try_new_in(x: T, alloc: Global) -> (res: Result<Box<T>, AllocError>)
        ensures
            res matches Ok(b) && b@ == x,
    {
        Ok(Self::new_in(x, alloc))
    }

    /// The box with `value` in place of what it held.
    pub fn write(boxed: Self, value: T) -> (res: Box<T>)
        ensures
            res@ == value,
    {
        let mut boxed = boxed;
        *boxed.ptr = value;
        boxed
    }

    /// The value held.
    pub fn as_ref(&self) -> (res: &T)
        ensures
            *res == self@,
    {
        &*self.ptr
    }
}

} // verus!
