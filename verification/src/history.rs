//! Histories: the pushes and pops that a queue has seen, what they leave in
//! it, and what holds of every history in which each operation was allowed at
//! its turn.

use vstd::prelude::*;
use vstd::seq_lib::lemma_multiset_commutative;

verus! {

/// One operation on a queue, as its history records it.
pub enum Op<E> {
    /// A `push` of the value.
    Push(E),
    /// A `pop`.
    Pop,
}

/// What a queue holds, oldest first, once `ops` have run in order on an
/// empty queue.
pub open spec fn contents_after<E>(ops: Seq<Op<E>>) -> Seq<E>
    decreases ops.len(),
{
    if ops.len() == 0 {
        Seq::empty()
    } else {
        let before = contents_after(ops.drop_last());
        match ops.last() {
            Op::Push(v) => before.push(v),
            Op::Pop => before.drop_first(),
        }
    }
}

/// Whether each of `ops` was allowed at its turn on a queue of `capacity`
/// slots that started empty: a `push` found room, a `pop` found an element.
pub open spec fn admissible<E>(capacity: nat, ops: Seq<Op<E>>) -> bool
    decreases ops.len(),
{
    ops.len() == 0 || {
        let before = contents_after(ops.drop_last());
        &&& admissible(capacity, ops.drop_last())
        &&& match ops.last() {
            Op::Push(_) => before.len() < capacity,
            Op::Pop => before.len() > 0,
        }
    }
}

/// The values that the pushes among `ops` handed in, in the order of the
/// pushes.
pub open spec fn pushed<E>(ops: Seq<Op<E>>) -> Seq<E>
    decreases ops.len(),
{
    if ops.len() == 0 {
        Seq::empty()
    } else {
        match ops.last() {
            Op::Push(v) => pushed(ops.drop_last()).push(v),
            Op::Pop => pushed(ops.drop_last()),
        }
    }
}

/// The values that the pops among `ops` returned, in the order of the pops.
pub open spec fn popped<E>(ops: Seq<Op<E>>) -> Seq<E>
    decreases ops.len(),
{
    if ops.len() == 0 {
        Seq::empty()
    } else {
        match ops.last() {
            Op::Push(_) => popped(ops.drop_last()),
            Op::Pop => popped(ops.drop_last()).push(contents_after(ops.drop_last()).first()),
        }
    }
}

/// The history of a queue that was filled by pushing `values` in order.
pub open spec fn pushes_of<E>(values: Seq<E>) -> Seq<Op<E>> {
    Seq::new(values.len(), |i: int| Op::Push(values[i]))
}

/// First in, first out: at every point of an admissible history, the values
/// pushed so far are the values popped so far, in the same order, followed by
/// what the queue still holds. So the n-th pop returns the n-th value pushed,
/// and once the queue is drained the pops have returned exactly the pushes.
pub proof fn lemma_fifo<E>(capacity: nat, ops: Seq<Op<E>>)
    requires
        admissible(capacity, ops),
    ensures
        pushed(ops) == popped(ops) + contents_after(ops),
        contents_after(ops).len() == 0 ==> popped(ops) == pushed(ops),
        forall|n: int| 0 <= n < popped(ops).len() ==> popped(ops)[n] == pushed(ops)[n],
    decreases ops.len(),
{
    if ops.len() > 0 {
        lemma_fifo(capacity, ops.drop_last());
    }
    assert(pushed(ops) =~= popped(ops) + contents_after(ops));
}

/// The size stays within the capacity, and it is the number of values pushed
/// less the number of values popped.
pub proof fn lemma_size<E>(capacity: nat, ops: Seq<Op<E>>)
    requires
        admissible(capacity, ops),
    ensures
        0 <= contents_after(ops).len() <= capacity,
        contents_after(ops).len() == pushed(ops).len() - popped(ops).len(),
    decreases ops.len(),
{
    if ops.len() > 0 {
        lemma_size(capacity, ops.drop_last());
    }
}

/// Nothing is lost and nothing is made up: whatever order the operations took
/// their turns in, the values pushed are, as a multiset, the values popped
/// together with the values still held.
pub proof fn lemma_no_loss_no_duplication<E>(capacity: nat, ops: Seq<Op<E>>)
    requires
        admissible(capacity, ops),
    ensures
        pushed(ops).to_multiset() == popped(ops).to_multiset().add(
            contents_after(ops).to_multiset(),
        ),
        contents_after(ops).len() == 0 ==> popped(ops).to_multiset() == pushed(ops).to_multiset(),
{
    lemma_fifo(capacity, ops);
    lemma_multiset_commutative(popped(ops), contents_after(ops));
}

/// On an empty queue, a push followed at once by a pop returns the value
/// pushed and leaves the queue empty.
pub proof fn lemma_round_trip<E>(capacity: nat, x: E)
    requires
        capacity >= 1,
    ensures
        Seq::<E>::empty().push(x).first() == x,
        Seq::<E>::empty().push(x).drop_first() == Seq::<E>::empty(),
        admissible(capacity, seq![Op::Push(x), Op::Pop]),
        popped(seq![Op::Push(x), Op::Pop]) == seq![x],
        contents_after(seq![Op::Push(x), Op::Pop]) == Seq::<E>::empty(),
{
    let ops = seq![Op::Push(x), Op::Pop];
    let first = seq![Op::Push(x)];
    assert(ops.drop_last() =~= first);
    assert(first.drop_last() =~= Seq::<Op<E>>::empty());
    assert(contents_after(first.drop_last()) =~= Seq::<E>::empty());
    assert(contents_after(first) =~= seq![x]);
    assert(admissible(capacity, first.drop_last()));
    assert(admissible(capacity, first));
    assert(popped(first.drop_last()) =~= Seq::<E>::empty());
    assert(popped(first) =~= Seq::<E>::empty());
    assert(popped(ops) =~= seq![x]);
    assert(contents_after(ops) =~= Seq::<E>::empty());
    assert(Seq::<E>::empty().push(x).drop_first() =~= Seq::<E>::empty());
}

/// Backpressure: while the queue is full no push can take its turn, and as
/// soon as a pop has taken its turn a push can.
pub proof fn lemma_full_queue_admits_push_after_pop<E>(capacity: nat, ops: Seq<Op<E>>, x: E)
    requires
        capacity >= 1,
        admissible(capacity, ops),
        contents_after(ops).len() == capacity,
    ensures
        !admissible(capacity, ops.push(Op::Push(x))),
        admissible(capacity, ops.push(Op::Pop).push(Op::Push(x))),
        contents_after(ops.push(Op::Pop).push(Op::Push(x))) == contents_after(
            ops,
        ).drop_first().push(x),
{
    let popped_once = ops.push(Op::Pop);
    assert(ops.push(Op::Push(x)).drop_last() =~= ops);
    assert(popped_once.drop_last() =~= ops);
    assert(popped_once.push(Op::Push(x)).drop_last() =~= popped_once);
    assert(admissible(capacity, popped_once));
    assert(contents_after(popped_once) == contents_after(ops).drop_first());
    assert(admissible(capacity, popped_once.push(Op::Push(x))));
}

/// While the queue is empty no pop can take its turn, and as soon as a push
/// has taken its turn a pop can, and it returns the value of that push.
pub proof fn lemma_empty_queue_admits_pop_after_push<E>(capacity: nat, ops: Seq<Op<E>>, x: E)
    requires
        capacity >= 1,
        admissible(capacity, ops),
        contents_after(ops).len() == 0,
    ensures
        !admissible(capacity, ops.push(Op::Pop)),
        admissible(capacity, ops.push(Op::Push(x)).push(Op::Pop)),
        popped(ops.push(Op::Push(x)).push(Op::Pop)) == popped(ops).push(x),
        contents_after(ops.push(Op::Push(x)).push(Op::Pop)).len() == 0,
{
    let pushed_once = ops.push(Op::Push(x));
    assert(ops.push(Op::Pop).drop_last() =~= ops);
    assert(pushed_once.drop_last() =~= ops);
    assert(pushed_once.push(Op::Pop).drop_last() =~= pushed_once);
    assert(contents_after(ops) =~= Seq::<E>::empty());
    assert(contents_after(pushed_once) =~= seq![x]);
    assert(admissible(capacity, pushed_once));
    assert(popped(pushed_once) == popped(ops));
}

/// Pushing `values` in order onto an empty queue with room for them is
/// admissible and leaves the queue holding `values`.
pub proof fn lemma_pushes_of<E>(capacity: nat, values: Seq<E>)
    requires
        values.len() <= capacity,
    ensures
        admissible(capacity, pushes_of(values)),
        contents_after(pushes_of(values)) == values,
    decreases values.len(),
{
    if values.len() > 0 {
        lemma_pushes_of(capacity, values.drop_last());
        assert(pushes_of(values).drop_last() =~= pushes_of(values.drop_last()));
        assert(values.drop_last().push(values.last()) =~= values);
    } else {
        assert(contents_after(pushes_of(values)) =~= values);
    }
}

} // verus!
