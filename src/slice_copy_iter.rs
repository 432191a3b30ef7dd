//! Iterator over a contiguous region that yields copies of its elements.

use vstd::prelude::*;

use crate::cursor::{ptrdistance, PointerExt};
use crate::range::{scan_state, position_outcome, step, Side};

verus! {

/// Slice (contiguous data) iterator.
///
/// Iterator element type is `T` (by value). The iterator borrows `data` and
/// holds the half-open window `[ptr, end)` of positions whose elements it has
/// not yet produced; stepping narrows the window from either end and never
/// widens it. Besides the constructor from a slice, a window can be given
/// directly.
#[derive(Debug)]
pub struct SliceCopyIter<'a, T> {
    data: &'a [T],
    ptr: usize,
    end: usize,
}

impl<'a, T> SliceCopyIter<'a, T> {
    #[verifier::type_invariant]
    spec fn window_in_data(&self) -> bool {
        self.ptr <= self.end <= self.data@.len()
    }

    /// The whole region the iterator reads from.
    pub closed spec fn data(&self) -> Seq<T> {
        self.data@
    }

    /// Position of the next element from the front.
    pub closed spec fn front(&self) -> int {
        self.ptr as int
    }

    /// One past the position of the next element from the back.
    pub closed spec fn back(&self) -> int {
        self.end as int
    }
}

impl<'a, T: Copy> SliceCopyIter<'a, T> {
    /// Create an iterator over the positions `[start, end)` of `data`.
    pub fn new(data: &'a [T], start: usize, end: usize) -> (r: Self)
        requires
            vstd::layout::size_of::<T>() != 0,
            start <= end <= data@.len(),
        ensures
            r.data() == data@,
            r.front() == start,
            r.back() == end,
            r@ == data@.subrange(start as int, end as int),
    {
        SliceCopyIter { data, ptr: start, end }
    }

    /// Return the region and the start, end positions of the iterator
    pub fn into_raw(self) -> (r: (&'a [T], usize, usize))
        ensures
            r.0@ == self.data(),
            r.1 == self.front(),
            r.2 == self.back(),
            r.1 <= r.2 <= r.0@.len(),
    {
        proof { use_type_invariant(&self); }
        (self.data, self.ptr, self.end)
    }

    /// Return the start position
    pub fn start(&self) -> (r: usize)
        ensures
            r == self.front(),
            r <= self.back() <= self.data().len(),
    {
        proof { use_type_invariant(self); }
        self.ptr
    }

    /// Return the end position
    pub fn end(&self) -> (r: usize)
        ensures
            r == self.back(),
            self.front() <= r <= self.data().len(),
    {
        proof { use_type_invariant(self); }
        self.end
    }

    /// Produce the next element from the front.
    pub fn next(&mut self) -> (r: Option<T>)
        ensures
            (r, final(self)@) == step(old(self)@, Side::Front),
            final(self).data() == old(self).data(),
            final(self).front() == old(self).front() + if old(self)@.len() > 0 { 1int } else { 0int },
            final(self).back() == old(self).back(),
    {
        proof { use_type_invariant(&*self); }
        if self.ptr != self.end {
            let elt = self.data[self.ptr];
            self.ptr = self.ptr + 1;
            proof { assert(self@ =~= old(self)@.drop_first()); }
            Some(elt)
        } else {
            None
        }
    }

    /// Produce the next element from the back.
    pub fn next_back(&mut self) -> (r: Option<T>)
        ensures
            (r, final(self)@) == step(old(self)@, Side::Back),
            final(self).data() == old(self).data(),
            final(self).front() == old(self).front(),
            final(self).back() == old(self).back() - if old(self)@.len() > 0 { 1int } else { 0int },
    {
        proof { use_type_invariant(&*self); }
        if self.ptr != self.end {
            self.end = self.end - 1;
            proof { assert(self@ =~= old(self)@.drop_last()); }
            Some(self.data[self.end])
        } else {
            None
        }
    }

    /// The exact number of elements not yet produced.
    pub fn len(&self) -> (r: usize)
        ensures
            r == self@.len(),
            r == self.back() - self.front(),
    {
        proof { use_type_invariant(self); }
        ptrdistance(self.ptr, self.end)
    }

    /// Lower and upper bound on the number of elements left; both are exact.
    pub fn size_hint(&self) -> (r: (usize, Option<usize>))
        ensures
            r == (self@.len() as usize, Some(self@.len() as usize)),
    {
        let len = self.len();
        (len, Some(len))
    }

    /// The number of elements not yet produced, consuming the iterator.
    pub fn count(self) -> (r: usize)
        ensures
            r == self@.len(),
    {
        self.len()
    }

    /// The last element not yet produced, consuming the iterator.
    pub fn last(self) -> (r: Option<T>)
        ensures
            r == step(self@, Side::Back).0,
    {
        let mut it = self;
        it.next_back()
    }

    /// The element at offset `i` from the front; the iterator is not stepped.
    pub fn index(&self, i: usize) -> (r: &'a T)
        requires
            i < self@.len(),
        ensures
            *r == self@[i as int],
    {
        proof { use_type_invariant(self); }
        &self.data[self.ptr + i]
    }

    /// Search from the front for the first element that `p` accepts and
    /// return its offset from the front as it was at the call.
    ///
    /// The element found and every element before it are consumed; when no
    /// element is accepted the iterator is left exhausted.
    pub fn position<F: Fn(T) -> bool>(&mut self, p: F) -> (r: Option<usize>)
        requires
            forall|i: int| 0 <= i < old(self)@.len() ==> p.requires((old(self)@[i],)),
        ensures
            position_outcome(old(self)@, |x: T, b: bool| p.ensures((x,), b), r, final(self)@),
            final(self).data() == old(self).data(),
            final(self).back() == old(self).back(),
            final(self).front() == old(self).back() - final(self)@.len(),
    {
        proof { use_type_invariant(&*self); }
        let data = self.data;
        let start = self.ptr;
        let end = self.end;
        let ghost v = self@;
        let mut cur: usize = start;
        while cur != end
            invariant
                *self == *old(self),
                data@ == self.data(),
                start == self.front(),
                end == self.back(),
                v == old(self)@,
                scan_state(
                    data@,
                    v,
                    start as int,
                    end as int,
                    cur as int,
                    |x: T| p.requires((x,)),
                    |x: T, b: bool| p.ensures((x,), b),
                ),
            decreases end - cur,
        {
            let i = cur.post_increment();
            if p(data[i]) {
                self.ptr = cur;
                proof { assert(self@ =~= v.skip(i - start + 1)); }
                return Some(ptrdistance(start, i));
            }
        }
        self.ptr = cur;
        proof { assert(self@ =~= Seq::<T>::empty()); }
        None
    }
}

impl<'a, T: Copy> Clone for SliceCopyIter<'a, T> {
    /// A copy over the same region and window, stepped independently.
    fn clone(&self) -> (r: Self)
        ensures
            r == *self,
    {
        *self
    }
}

impl<'a, T: Copy> Copy for SliceCopyIter<'a, T> {

}

impl<'a, T: Copy> From<&'a [T]> for SliceCopyIter<'a, T> {
    /// An iterator over all the elements of `slice`.
    fn from(slice: &'a [T]) -> (r: Self)
        ensures
            r.data() == slice@,
            r.front() == 0,
            r.back() == slice@.len(),
            r@ == slice@,
    {
        SliceCopyIter { data: slice, ptr: 0, end: slice.len() }
    }
}

impl<'a, T: Copy> vstd::std_specs::convert::FromSpecImpl<&'a [T]> for SliceCopyIter<'a, T> {
    open spec fn obeys_from_spec() -> bool {
        true
    }

    closed spec fn from_spec(slice: &'a [T]) -> Self {
        SliceCopyIter { data: slice, ptr: 0, end: slice@.len() as usize }
    }
}

impl<'a, T: Copy> Default for SliceCopyIter<'a, T> {
    /// Create an empty `SliceCopyIter`.
    fn default() -> (r: Self)
        ensures
            r.front() == r.back(),
            r@ == Seq::<T>::empty(),
    {
        let empty: &'a [T] = &[];
        SliceCopyIter { data: empty, ptr: 0, end: 0 }
    }
}

impl<'a, T> View for SliceCopyIter<'a, T> {
    type V = Seq<T>;

    /// The elements not yet produced, front first.
    open spec fn view(&self) -> Seq<T> {
        self.data().subrange(self.front(), self.back())
    }
}

} // verus!
