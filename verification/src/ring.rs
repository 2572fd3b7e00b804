//! The ring buffer: fixed-capacity circular storage for one thread at a
//! time.

use vstd::prelude::*;
use crate::error::QueueError;
use crate::history::{
    admissible, contents_after, lemma_fifo, lemma_no_loss_no_duplication, lemma_pushes_of,
    lemma_size, popped, pushed, pushes_of, Op,
};
use crate::queue::Queue;
use crate::window::{lemma_window_pop, lemma_window_push, lemma_wrap, window};

verus! {

/// Fixed-capacity circular storage with a read cursor and a write cursor.
///
/// Beside its slots a buffer keeps, for proofs only, the operations that
/// brought it to its state.
pub struct CyclicBuffer<E> {
    buf: Vec<E>,
    capacity: usize,
    size: usize,
    put_idx: usize,
    get_idx: usize,
    history: Ghost<Seq<Op<E>>>,
}

impl<E> CyclicBuffer<E> {
    /// The backing storage, one entry per slot.
    pub closed spec fn slots(&self) -> Seq<E> {
        self.buf@
    }

    /// The number of slots.
    pub closed spec fn spec_capacity(&self) -> nat {
        self.capacity as nat
    }

    /// The number of live elements.
    pub closed spec fn count(&self) -> nat {
        self.size as nat
    }

    /// The slot that the next `push` writes.
    pub closed spec fn put_index(&self) -> int {
        self.put_idx as int
    }

    /// The slot that the next `pop` reads.
    pub closed spec fn get_index(&self) -> int {
        self.get_idx as int
    }

    /// The pushes and pops made so far, in order.
    pub closed spec fn history(&self) -> Seq<Op<E>> {
        self.history@
    }

    /// What holds of every buffer. There is at least one slot. The cursors
    /// are valid indices, and the write cursor lies `count` slots after the
    /// read cursor, circularly. The live elements are what the history
    /// leaves, and each operation of the history was allowed at its turn.
    #[verifier::type_invariant]
    pub open spec fn inv(&self) -> bool {
        &&& self.spec_capacity() >= 1
        &&& self.slots().len() == self.spec_capacity()
        &&& self.count() <= self.spec_capacity()
        &&& 0 <= self.get_index() < self.spec_capacity()
        &&& 0 <= self.put_index() < self.spec_capacity()
        &&& self.put_index() == (self.get_index() + self.count()) % (self.spec_capacity() as int)
        &&& admissible(self.spec_capacity(), self.history())
        &&& self@ == contents_after(self.history())
    }
}

impl<E> View for CyclicBuffer<E> {
    type V = Seq<E>;

    /// The live elements, oldest first.
    open spec fn view(&self) -> Seq<E> {
        window(self.slots(), self.get_index(), self.count() as int)
    }
}

impl<E> CyclicBuffer<E> {
    /// The number of slots.
    pub fn capacity(&self) -> (n: usize)
        ensures
            n == self.spec_capacity(),
            n >= 1,
    {
        proof {
            use_type_invariant(self);
        }
        self.capacity
    }

    /// The number of live elements: the number of values pushed so far less
    /// the number of values popped so far, and never more than the capacity.
    pub fn len(&self) -> (n: usize)
        ensures
            n == self@.len(),
            0 <= n <= self.spec_capacity(),
            n == pushed(self.history()).len() - popped(self.history()).len(),
    {
        proof {
            use_type_invariant(self);
            self.lemma_accounts();
        }
        self.size
    }

    /// In every state that a buffer can reach, the size is within the
    /// capacity and is the number of pushes less the number of pops, and the
    /// values pushed so far are the values popped so far followed by the
    /// values held, in the same order.
    pub proof fn lemma_accounts(&self)
        requires
            self.inv(),
        ensures
            0 <= self@.len() <= self.spec_capacity(),
            self@ == contents_after(self.history()),
            self@.len() == pushed(self.history()).len() - popped(self.history()).len(),
            pushed(self.history()) == popped(self.history()) + self@,
            pushed(self.history()).to_multiset() == popped(self.history()).to_multiset().add(
                self@.to_multiset(),
            ),
    {
        lemma_size(self.spec_capacity(), self.history());
        lemma_fifo(self.spec_capacity(), self.history());
        lemma_no_loss_no_duplication(self.spec_capacity(), self.history());
    }

    /// Whether no element is held, so that `pop` has nothing to take.
    pub fn is_empty(&self) -> (b: bool)
        ensures
            b <==> self@.len() == 0,
    {
        self.size == 0
    }

    /// Whether every slot is taken, so that `push` has nowhere to write.
    pub fn is_full(&self) -> (b: bool)
        ensures
            b <==> self@.len() == self.spec_capacity(),
    {
        self.size == self.capacity
    }
}

impl<E: Default> CyclicBuffer<E> {
    /// An empty buffer of `capacity` slots, each holding a placeholder. A
    /// capacity of zero is refused.
    pub fn new(capacity: usize) -> (r: Result<CyclicBuffer<E>, QueueError>)
        ensures
            capacity == 0 <==> r is Err,
            r matches Err(e) ==> e == QueueError::ZeroCapacity,
            r matches Ok(b) ==> {
                &&& b@ == Seq::<E>::empty()
                &&& b.spec_capacity() == capacity
                &&& b.get_index() == 0
                &&& b.put_index() == 0
                &&& b.history() == Seq::<Op<E>>::empty()
                &&& forall|i: int|
                    0 <= i < capacity ==> E::default.ensures((), #[trigger] b.slots()[i])
            },
    {
        if capacity == 0 {
            return Err(QueueError::ZeroCapacity);
        }
        let mut buffer: Vec<E> = Vec::with_capacity(capacity);
        let mut i: usize = 0;
        while i < capacity
            invariant
                i <= capacity,
                buffer@.len() == i,
                forall|j: int| 0 <= j < i ==> E::default.ensures((), #[trigger] buffer@[j]),
            decreases capacity - i,
        {
            buffer.push(E::default());
            i = i + 1;
        }
        proof {
            lemma_wrap(0, capacity as int);
            assert(window(buffer@, 0, 0) =~= Seq::<E>::empty());
        }
        let b = CyclicBuffer {
            buf: buffer,
            capacity: capacity,
            size: 0,
            put_idx: 0,
            get_idx: 0,
            history: Ghost(Seq::empty()),
        };
        Ok(b)
    }
}

/// Moves the write cursor one slot on, circularly, counts one element more
/// and records the push. All three change in one call, so that the cursors,
/// the count and the history agree before it and after it.
fn advance_put<E>(
    put_idx: &mut usize,
    size: &mut usize,
    history: &mut Ghost<Seq<Op<E>>>,
    capacity: usize,
    Ghost(v): Ghost<E>,
)
    requires
        *old(put_idx) < capacity,
        *old(size) < capacity,
    ensures
        *final(put_idx) == (*old(put_idx) + 1) % (capacity as int),
        *final(size) == *old(size) + 1,
        final(history)@ == old(history)@.push(Op::Push(v)),
    no_unwind
{
    *put_idx = (*put_idx + 1) % capacity;
    *size += 1;
    proof {
        *history.borrow_mut() = history@.push(Op::Push(v));
    }
}

/// Moves the read cursor one slot on, circularly, counts one element less
/// and records the pop.
fn advance_get<E>(
    get_idx: &mut usize,
    size: &mut usize,
    history: &mut Ghost<Seq<Op<E>>>,
    capacity: usize,
)
    requires
        *old(get_idx) < capacity,
        *old(size) > 0,
    ensures
        *final(get_idx) == (*old(get_idx) + 1) % (capacity as int),
        *final(size) == *old(size) - 1,
        final(history)@ == old(history)@.push(Op::Pop),
    no_unwind
{
    *get_idx = (*get_idx + 1) % capacity;
    *size -= 1;
    proof {
        *history.borrow_mut() = history@.push(Op::Pop);
    }
}

impl<E: Default> Queue<E> for CyclicBuffer<E> {
    open spec fn contents(&self) -> Seq<E> {
        self@
    }

    open spec fn limit(&self) -> nat {
        self.spec_capacity()
    }

    /// Writes `v` at the write cursor and advances that cursor by one slot,
    /// circularly.
    fn push(&mut self, v: E)
        ensures
            final(self).slots() == old(self).slots().update(old(self).put_index(), v),
            final(self).put_index() == (old(self).put_index() + 1) % (old(
                self,
            ).spec_capacity() as int),
            final(self).get_index() == old(self).get_index(),
            final(self).history() == old(self).history().push(Op::Push(v)),
            pushed(final(self).history()) == pushed(old(self).history()).push(v),
            popped(final(self).history()) == popped(old(self).history()),
            final(self)@.len() <= final(self).spec_capacity(),
    {
        let ghost value = v;
        proof {
            use_type_invariant(&*self);
            let c = self.capacity as int;
            lemma_wrap(self.get_idx + self.size, c);
            lemma_wrap(self.put_idx + 1, c);
            lemma_wrap(self.get_idx + self.size + 1, c);
            lemma_window_push(self.buf@, self.get_idx as int, self.size as int, v);
            assert(self.history@.push(Op::Push(v)).drop_last() =~= self.history@);
            assert forall|x: E|
                #[trigger] window(
                    self.buf@.update(self.put_idx as int, x),
                    self.get_idx as int,
                    self.size as int,
                ) == self@ by {
                lemma_window_push(self.buf@, self.get_idx as int, self.size as int, x);
            }
        }
        self.buf[self.put_idx] = v;
        advance_put(
            &mut self.put_idx,
            &mut self.size,
            &mut self.history,
            self.capacity,
            Ghost(value),
        );
    }

    /// Takes the element at the read cursor, leaves a placeholder in its
    /// slot, and advances that cursor by one slot, circularly. The n-th pop
    /// of a buffer returns the n-th value that was pushed onto it.
    fn pop(&mut self) -> (v: E)
        ensures
            v == old(self).slots()[old(self).get_index()],
            E::default.ensures((), final(self).slots()[old(self).get_index()]),
            final(self).slots() == old(self).slots().update(
                old(self).get_index(),
                final(self).slots()[old(self).get_index()],
            ),
            final(self).get_index() == (old(self).get_index() + 1) % (old(
                self,
            ).spec_capacity() as int),
            final(self).put_index() == old(self).put_index(),
            final(self).history() == old(self).history().push(Op::Pop),
            pushed(final(self).history()) == pushed(old(self).history()),
            popped(final(self).history()) == popped(old(self).history()).push(v),
            v == pushed(old(self).history())[popped(old(self).history()).len() as int],
            final(self)@.len() <= final(self).spec_capacity(),
    {
        let mut v = E::default();
        let at = self.get_idx;
        proof {
            use_type_invariant(&*self);
            self.lemma_accounts();
            let c = self.capacity as int;
            lemma_wrap(self.get_idx + self.size, c);
            lemma_wrap(self.get_idx + 1, c);
            lemma_wrap((self.get_idx + 1) % c + self.size - 1, c);
            lemma_window_pop(self.buf@, self.get_idx as int, self.size as int, v);
            assert(self.history@.push(Op::Pop).drop_last() =~= self.history@);
        }
        let ghost live = self.size as int;
        advance_get(&mut self.get_idx, &mut self.size, &mut self.history, self.capacity);
        proof {
            assert forall|x: E|
                #[trigger] window(
                    self.buf@.update(at as int, x),
                    self.get_idx as int,
                    self.size as int,
                ) == self@ by {
                lemma_window_pop(self.buf@, at as int, live, x);
            }
        }
        core::mem::swap(&mut v, &mut self.buf[at]);
        v
    }
}

impl<E: Default> CyclicBuffer<E> {
    /// `push` behind a check for room: a full buffer is left as it is.
    pub fn try_push(&mut self, v: E) -> (r: Result<(), QueueError>)
        ensures
            r is Ok <==> old(self)@.len() < old(self).spec_capacity(),
            r is Ok ==> final(self)@ == old(self)@.push(v) && final(self).history() == old(
                self,
            ).history().push(Op::Push(v)),
            r matches Err(e) ==> e == QueueError::Full && *final(self) == *old(self),
            final(self).spec_capacity() == old(self).spec_capacity(),
    {
        proof {
            use_type_invariant(&*self);
        }
        if self.is_full() {
            return Err(QueueError::Full);
        }
        self.push(v);
        Ok(())
    }

    /// `pop` behind a check for an element: an empty buffer is left as it is.
    pub fn try_pop(&mut self) -> (r: Result<E, QueueError>)
        ensures
            r is Ok <==> old(self)@.len() > 0,
            r matches Ok(v) ==> v == old(self)@.first() && final(self)@ == old(self)@.drop_first()
                && final(self).history() == old(self).history().push(Op::Pop),
            r matches Err(e) ==> e == QueueError::Empty && *final(self) == *old(self),
            final(self).spec_capacity() == old(self).spec_capacity(),
    {
        if self.is_empty() {
            return Err(QueueError::Empty);
        }
        Ok(self.pop())
    }
}

impl<E: Clone> Clone for CyclicBuffer<E> {
    /// A buffer with the same cursors, each of whose slots holds a clone of
    /// the slot it was made from. The clone starts a history of its own, as
    /// if its live elements had just been pushed.
    fn clone(&self) -> (r: Self)
        ensures
            r.spec_capacity() == self.spec_capacity(),
            r.get_index() == self.get_index(),
            r.put_index() == self.put_index(),
            r.slots().len() == self.slots().len(),
            forall|i: int|
                0 <= i < self.slots().len() ==> cloned(self.slots()[i], #[trigger] r.slots()[i]),
            r@.len() == self@.len(),
            forall|i: int| 0 <= i < self@.len() ==> cloned(self@[i], #[trigger] r@[i]),
            r.history() == pushes_of(r@),
    {
        proof {
            use_type_invariant(self);
        }
        let buf = self.buf.clone();
        let ghost live = window(buf@, self.get_idx as int, self.size as int);
        proof {
            lemma_pushes_of(self.capacity as nat, live);
        }
        let r = CyclicBuffer {
            buf: buf,
            capacity: self.capacity,
            size: self.size,
            put_idx: self.put_idx,
            get_idx: self.get_idx,
            history: Ghost(pushes_of(live)),
        };
        proof {
            assert forall|i: int| 0 <= i < self@.len() implies cloned(
                self@[i],
                #[trigger] r@[i],
            ) by {
                vstd::arithmetic::div_mod::lemma_mod_pos_bound(
                    self.get_idx + i,
                    self.capacity as int,
                );
            }
        }
        r
    }
}

} // verus!
