//! What stepping and searching do to the elements a range has not yet
//! produced, stated over sequences.

use vstd::prelude::*;

verus! {

/// The end of a range that a step takes an element from.
pub enum Side {
    Front,
    Back,
}

/// One step on a range whose remaining elements are `v`: the element it
/// yields (none once the range is exhausted) and the elements left after it.
pub open spec fn step<T>(v: Seq<T>, side: Side) -> (Option<T>, Seq<T>) {
    if v.len() == 0 {
        (None, v)
    } else {
        match side {
            Side::Front => (Some(v[0]), v.drop_first()),
            Side::Back => (Some(v.last()), v.drop_last()),
        }
    }
}

/// The steps `moves`, taken in order on a range whose remaining elements are
/// `v`: what each step yields, and the elements left at the end.
pub open spec fn run<T>(v: Seq<T>, moves: Seq<Side>) -> (Seq<Option<T>>, Seq<T>)
    decreases moves.len(),
{
    if moves.len() == 0 {
        (Seq::empty(), v)
    } else {
        let (yielded, rest) = run(v, moves.drop_last());
        let (x, left) = step(rest, moves.last());
        (yielded.push(x), left)
    }
}

/// The value behind an optional reference.
pub open spec fn copied<T>(o: Option<&T>) -> Option<T> {
    match o {
        Some(x) => Some(*x),
        None => None,
    }
}

/// A front-to-back search over `v` stops at position `k` or runs out, as told
/// by `k`; `says(x, b)` holds when the predicate may answer `b` on `x`.
/// It stops at the first position whose element the predicate accepts: every
/// element before it was rejected. Running out means every element was
/// rejected.
pub open spec fn search_stops<T>(v: Seq<T>, says: spec_fn(T, bool) -> bool, k: Option<int>) -> bool {
    match k {
        Some(i) => {
            &&& 0 <= i < v.len()
            &&& says(v[i], true)
            &&& forall|j: int| 0 <= j < i ==> #[trigger] says(v[j], false)
        },
        None => forall|j: int| 0 <= j < v.len() ==> #[trigger] says(v[j], false),
    }
}

/// What a search leaves of `v`: the elements after the one it stopped at, or
/// nothing when it ran out.
pub open spec fn after_search<T>(v: Seq<T>, k: Option<int>) -> Seq<T> {
    match k {
        Some(i) => v.skip(i + 1),
        None => Seq::empty(),
    }
}

/// The outcome of `position` on a range whose remaining elements are `v`:
/// the offset `r` from the front where it stopped, and the elements `rest`
/// left in the range.
pub open spec fn position_outcome<T>(
    v: Seq<T>,
    says: spec_fn(T, bool) -> bool,
    r: Option<usize>,
    rest: Seq<T>,
) -> bool {
    let k = match r {
        Some(i) => Some(i as int),
        None => None,
    };
    search_stops(v, says, k) && rest == after_search(v, k)
}

/// The outcome of `find` on a range whose remaining elements are `v`: the
/// element `r` it stopped at, and the elements `rest` left in the range.
/// The element found stands just before what is left.
pub open spec fn find_outcome<T>(
    v: Seq<T>,
    says: spec_fn(T, bool) -> bool,
    r: Option<T>,
    rest: Seq<T>,
) -> bool {
    let k = match r {
        Some(x) => Some(v.len() - rest.len() - 1),
        None => None,
    };
    &&& search_stops(v, says, k)
    &&& rest == after_search(v, k)
    &&& r == match k {
        Some(i) => Some(v[i]),
        None => None,
    }
}

/// The state of a front-to-back scan of the positions `[start, end)` of
/// `data`, whose elements are `v`, that has tested the positions before
/// `cur`: the predicate may be called on every element (`admits`), and it
/// rejected every element tested so far (`says`).
pub(crate) open spec fn scan_state<T>(
    data: Seq<T>,
    v: Seq<T>,
    start: int,
    end: int,
    cur: int,
    admits: spec_fn(T) -> bool,
    says: spec_fn(T, bool) -> bool,
) -> bool {
    &&& start <= cur <= end <= data.len()
    &&& v.len() == end - start
    &&& forall|j: int| start <= j < end ==> #[trigger] data[j] == v[j - start]
    &&& forall|i: int| 0 <= i < v.len() ==> admits(#[trigger] v[i])
    &&& forall|j: int| 0 <= j < cur - start ==> says(#[trigger] v[j], false)
}

} // verus!
