//! Double-ended iterators over a contiguous region of elements, kept as a
//! borrowed slice and a half-open window `[start, end)` of positions in it.

pub mod cursor;
pub mod laws;
pub mod range;
pub mod slice_copy_iter;
pub mod slice_iter;

pub use cursor::{ptrdistance, PointerExt};
pub use slice_copy_iter::SliceCopyIter;
pub use slice_iter::SliceIter;
