//! A fixed-capacity sequence backed by a plain array, so hot search paths
//! allocate nothing: the first `length` slots hold the pushed elements and
//! the remaining slots keep the placeholder the vector was created with.

use vstd::prelude::*;

verus! {

broadcast use vstd::array::group_array_axioms;

#[derive(Debug, PartialEq, Clone, Copy)]
pub struct FixedVector<T: Copy, const L: usize> {
    pub internal_array: [T; L],
    pub length: usize,
}

impl<T: Copy, const L: usize> FixedVector<T, L> {
    /// The pushed elements, in insertion order.
    pub open spec fn elements(self) -> Seq<T> {
        self.internal_array@.subrange(0, self.length as int)
    }

    /// Creates an empty vector whose backing array is filled with
    /// `placeholder_value`.
    pub fn new(placeholder_value: T) -> (r: Self)
        ensures
            r.length == 0,
            r.internal_array@.len() == L,
            forall|i: int| 0 <= i < L ==> r.internal_array@[i] == placeholder_value,
    {
        FixedVector { internal_array: [placeholder_value;L], length: 0 }
    }

    /// The number of elements pushed so far.
    pub fn len(&self) -> (r: usize)
        ensures
            r == self.length,
    {
        self.length
    }

    /// Appends an element. The capacity must not be exceeded.
    pub fn push(&mut self, data: T)
        requires
            old(self).length < L,
        ensures
            final(self).length == old(self).length + 1,
            final(self).internal_array@ == old(self).internal_array@.update(
                old(self).length as int,
                data,
            ),
    {
        self.internal_array[self.length] = data;
        self.length = self.length + 1;
    }

    /// Removes the most recently pushed element and returns it; `None` when
    /// the vector is empty. The backing array keeps the removed value.
    pub fn pop(&mut self) -> (r: Option<T>)
        requires
            old(self).length <= L,
        ensures
            old(self).length == 0 ==> r is None && *final(self) == *old(self),
            old(self).length > 0 ==> r == Some(
                old(self).internal_array@[old(self).length - 1],
            ) && final(self).length == old(self).length - 1 && final(self).internal_array == old(
                self,
            ).internal_array,
    {
        if self.length > 0 {
            self.length = self.length - 1;
            return Some(self.internal_array[self.length]);
        }

        None
    }
}

} // verus!
