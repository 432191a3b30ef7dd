//! Cursors: positions that can be stepped forward and backward.

use vstd::prelude::*;

verus! {

/// Stepping operations over a position in a region.
///
/// `pos` is the position a cursor stands at, and `reachable` tells which
/// positions a cursor of this type can hold.
pub trait PointerExt: Copy + Sized {
    spec fn pos(&self) -> int;

    spec fn reachable(p: int) -> bool;

    /// The cursor `i` positions away (backward when `i` is negative).
    fn offset(self, i: isize) -> (r: Self)
        requires
            Self::reachable(self.pos() + i),
        ensures
            r.pos() == self.pos() + i,
    ;

    /// Step forward by one position.
    fn inc(&mut self)
        requires
            Self::reachable(old(self).pos() + 1),
        ensures
            final(self).pos() == old(self).pos() + 1,
    {
        *self = self.offset(1);
    }

    /// Step forward by one position and return the cursor as it was before.
    fn post_increment(&mut self) -> (r: Self)
        requires
            Self::reachable(old(self).pos() + 1),
        ensures
            r == *old(self),
            final(self).pos() == old(self).pos() + 1,
    {
        let current = *self;
        *self = self.offset(1);
        current
    }

    /// Step backward by one position.
    fn dec(&mut self)
        requires
            Self::reachable(old(self).pos() - 1),
        ensures
            final(self).pos() == old(self).pos() - 1,
    {
        *self = self.offset(-1);
    }

    /// The cursor `s * index` positions away.
    fn stride_offset(self, s: isize, index: usize) -> (r: Self)
        requires
            index <= isize::MAX,
            isize::MIN <= s * index <= isize::MAX,
            Self::reachable(self.pos() + s * index),
        ensures
            r.pos() == self.pos() + s * index,
    {
        let i = index as isize;
        assert(i == index);
        self.offset(s * i)
    }
}

/// An index into a slice is a cursor over the slice's positions.
impl PointerExt for usize {
    open spec fn pos(&self) -> int {
        *self as int
    }

    open spec fn reachable(p: int) -> bool {
        0 <= p <= usize::MAX
    }

    fn offset(self, i: isize) -> (r: usize) {
        if i >= 0 {
            self + i as usize
        } else {
            self - (0 - (i as i128)) as usize
        }
    }
}

/// The number of positions from `a` forward to `b`.
pub fn ptrdistance(a: usize, b: usize) -> (r: usize)
    requires
        a <= b,
    ensures
        r == b - a,
{
    b - a
}

} // verus!
