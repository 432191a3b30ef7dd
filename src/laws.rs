//! Laws of stepping and searching, over the model in `range`.

use vstd::prelude::*;

use crate::range::{position_outcome, run, step, Side};

verus! {

/// `k` steps, all from the same side.
pub open spec fn repeat(side: Side, k: nat) -> Seq<Side> {
    Seq::new(k, |i: int| side)
}

/// How many of `moves` are taken from `side`.
pub open spec fn count_side(moves: Seq<Side>, side: Side) -> nat
    decreases moves.len(),
{
    if moves.len() == 0 {
        0
    } else {
        count_side(moves.drop_last(), side) + if moves.last() == side {
            1nat
        } else {
            0nat
        }
    }
}

/// Each element, as a step that yields it.
pub open spec fn yields<T>(v: Seq<T>) -> Seq<Option<T>> {
    v.map_values(|x: T| Some(x))
}

/// Steps taken one batch after another act as the batches in turn.
pub proof fn lemma_run_append<T>(v: Seq<T>, a: Seq<Side>, b: Seq<Side>)
    ensures
        run(v, a + b) == (run(v, a).0 + run(run(v, a).1, b).0, run(run(v, a).1, b).1),
    decreases b.len(),
{
    let mid = run(v, a).1;
    if b.len() == 0 {
        assert(a + b =~= a);
        assert(run(v, a).0 + run(mid, b).0 =~= run(v, a).0);
    } else {
        assert((a + b).drop_last() =~= a + b.drop_last());
        lemma_run_append(v, a, b.drop_last());
        let (x, left) = step(run(mid, b.drop_last()).1, b.last());
        assert((run(v, a).0 + run(mid, b.drop_last()).0).push(x) =~= run(v, a).0 + run(
            mid,
            b,
        ).0);
    }
}

/// `k` forward steps yield the first `k` elements in order and leave the rest.
pub proof fn lemma_forward_steps<T>(v: Seq<T>, k: nat)
    requires
        k <= v.len(),
    ensures
        run(v, repeat(Side::Front, k)) == (yields(v.take(k as int)), v.skip(k as int)),
    decreases k,
{
    if k == 0 {
        assert(yields(v.take(0)) =~= Seq::empty());
        assert(v.skip(0) =~= v);
    } else {
        let km = (k - 1) as nat;
        assert(repeat(Side::Front, k).drop_last() =~= repeat(Side::Front, km));
        lemma_forward_steps(v, km);
        assert(v.skip(km as int).drop_first() =~= v.skip(k as int));
        assert(yields(v.take(km as int)).push(Some(v[km as int])) =~= yields(v.take(k as int)));
    }
}

/// `k` backward steps yield the last `k` elements, last first, and leave the
/// others.
pub proof fn lemma_backward_steps<T>(v: Seq<T>, k: nat)
    requires
        k <= v.len(),
    ensures
        run(v, repeat(Side::Back, k)) == (
            yields(v.skip(v.len() - k).reverse()),
            v.take(v.len() - k),
        ),
    decreases k,
{
    let n = v.len();
    if k == 0 {
        assert(yields(v.skip(n as int).reverse()) =~= Seq::empty());
        assert(v.take(n as int) =~= v);
    } else {
        let km = (k - 1) as nat;
        assert(repeat(Side::Back, k).drop_last() =~= repeat(Side::Back, km));
        lemma_backward_steps(v, km);
        assert(v.take(n - km).drop_last() =~= v.take(n - k));
        assert(yields(v.skip(n - km).reverse()).push(Some(v[n - k])) =~= yields(
            v.skip(n - k).reverse(),
        ));
    }
}

/// After any `k` forward and `m` backward steps, in any order, on a range of
/// `n >= k + m` elements, exactly the elements between the first `k` and the
/// last `m` remain: `n - k - m` of them.
pub proof fn lemma_length_after_steps<T>(v: Seq<T>, moves: Seq<Side>)
    requires
        moves.len() <= v.len(),
    ensures
        count_side(moves, Side::Front) + count_side(moves, Side::Back) == moves.len(),
        run(v, moves).1 == v.subrange(
            count_side(moves, Side::Front) as int,
            v.len() - count_side(moves, Side::Back),
        ),
        run(v, moves).1.len() == v.len() - moves.len(),
    decreases moves.len(),
{
    if moves.len() == 0 {
        assert(v.subrange(0, v.len() as int) =~= v);
    } else {
        let prev = moves.drop_last();
        lemma_length_after_steps(v, prev);
        let f = count_side(prev, Side::Front) as int;
        let b = count_side(prev, Side::Back) as int;
        let rest = v.subrange(f, v.len() - b);
        match moves.last() {
            Side::Front => {
                assert(rest.drop_first() =~= v.subrange(f + 1, v.len() - b));
            },
            Side::Back => {
                assert(rest.drop_last() =~= v.subrange(f, v.len() - b - 1));
            },
        }
    }
}

/// Once no element remains, every further step yields nothing: the `i`-th of
/// any sequence of steps yields an element exactly when `i` is below the
/// number of elements at the start.
pub proof fn lemma_exhausted_stays_exhausted<T>(v: Seq<T>, moves: Seq<Side>)
    ensures
        run(v, moves).0.len() == moves.len(),
        forall|i: int| 0 <= i < moves.len() ==> (#[trigger] run(v, moves).0[i] is Some <==> i < v.len()),
        run(v, moves).1.len() == if moves.len() <= v.len() {
            v.len() - moves.len()
        } else {
            0
        },
    decreases moves.len(),
{
    if moves.len() > 0 {
        lemma_exhausted_stays_exhausted(v, moves.drop_last());
        let prev = run(v, moves.drop_last());
        assert forall|i: int| 0 <= i < moves.len() implies (#[trigger] run(v, moves).0[i] is Some
            <==> i < v.len()) by {
            if i < moves.len() - 1 {
                assert(run(v, moves).0[i] == prev.0[i]);
            }
        }
    }
}

/// Stepping forward through all `n` elements yields them in order.
pub proof fn lemma_forward_order<T>(v: Seq<T>)
    ensures
        run(v, repeat(Side::Front, v.len())).0 == yields(v),
        run(v, repeat(Side::Front, v.len())).1.len() == 0,
{
    lemma_forward_steps(v, v.len());
    assert(v.take(v.len() as int) =~= v);
}

/// Stepping backward through all `n` elements yields them in reverse order.
pub proof fn lemma_backward_order<T>(v: Seq<T>)
    ensures
        run(v, repeat(Side::Back, v.len())).0 == yields(v.reverse()),
        run(v, repeat(Side::Back, v.len())).1.len() == 0,
{
    lemma_backward_steps(v, v.len());
    assert(v.skip(0) =~= v);
}

/// `j` forward steps and then `n - j` backward steps yield the first `j`
/// elements in order and then the others last first; taken the other way
/// round, the backward part comes first. Either way each element is yielded
/// once and none remains.
pub proof fn lemma_split_steps<T>(v: Seq<T>, j: nat)
    requires
        j <= v.len(),
    ensures
        run(v, repeat(Side::Front, j) + repeat(Side::Back, (v.len() - j) as nat)) == (
            yields(v.take(j as int)) + yields(v.skip(j as int).reverse()),
            Seq::<T>::empty(),
        ),
        run(v, repeat(Side::Back, (v.len() - j) as nat) + repeat(Side::Front, j)) == (
            yields(v.skip(j as int).reverse()) + yields(v.take(j as int)),
            Seq::<T>::empty(),
        ),
{
    let n = v.len();
    let b = (n - j) as nat;
    lemma_run_append(v, repeat(Side::Front, j), repeat(Side::Back, b));
    lemma_forward_steps(v, j);
    let tail = v.skip(j as int);
    lemma_backward_steps(tail, b);
    assert(tail.skip(0) =~= tail);
    assert(tail.take(0) =~= Seq::<T>::empty());

    lemma_run_append(v, repeat(Side::Back, b), repeat(Side::Front, j));
    lemma_backward_steps(v, b);
    let head = v.take(j as int);
    lemma_forward_steps(head, j);
    assert(v.skip(n - b) =~= tail);
    assert(head.take(j as int) =~= head);
    assert(head.skip(j as int) =~= Seq::<T>::empty());
}

/// The element at offset `i` is the one that the `i + 1`-th of as many
/// forward steps yields.
pub proof fn lemma_index_is_forward_read<T>(v: Seq<T>, i: nat)
    requires
        i < v.len(),
    ensures
        run(v, repeat(Side::Front, i + 1)).0[i as int] == Some(v[i as int]),
{
    lemma_forward_steps(v, i + 1);
}

/// A search whose predicate rejects every element before offset `k` and
/// accepts the element at `k` reports `k` and leaves the elements after it,
/// `n - k - 1` of them. With `k == n - 1`: a predicate that holds at the last
/// element alone reports `n - 1`.
pub proof fn lemma_search_stops_at_first_accepted<T>(
    v: Seq<T>,
    says: spec_fn(T, bool) -> bool,
    k: int,
    r: Option<usize>,
    rest: Seq<T>,
)
    requires
        0 <= k < v.len(),
        forall|j: int, b: bool| 0 <= j < k && #[trigger] says(v[j], b) ==> !b,
        forall|b: bool| #[trigger] says(v[k], b) ==> b,
        position_outcome(v, says, r, rest),
    ensures
        r == Some(k as usize),
        rest == v.skip(k + 1),
        rest.len() == v.len() - k - 1,
{
    match r {
        Some(i) => {
            if (i as int) < k {
                assert(says(v[i as int], true));
            } else if (i as int) > k {
                assert(says(v[k], false));
            }
        },
        None => {
            assert(says(v[k], false));
        },
    }
}

/// A search whose predicate rejects every element reports nothing and leaves
/// the range exhausted.
pub proof fn lemma_search_rejecting_all<T>(
    v: Seq<T>,
    says: spec_fn(T, bool) -> bool,
    r: Option<usize>,
    rest: Seq<T>,
)
    requires
        forall|j: int, b: bool| 0 <= j < v.len() && #[trigger] says(v[j], b) ==> !b,
        position_outcome(v, says, r, rest),
    ensures
        r is None,
        rest.len() == 0,
{
    if let Some(i) = r {
        assert(says(v[i as int], true));
    }
}

} // verus!
