//! The interface that a bounded first-in, first-out queue offers.

use vstd::prelude::*;

verus! {

/// A first-in, first-out queue with a fixed upper bound on its length.
///
/// `push` and `pop` make no check of their own: the caller shows that there is
/// room, or that there is an element.
pub trait Queue<E> {
    /// The elements held, oldest first.
    spec fn contents(&self) -> Seq<E>;

    /// The largest number of elements that can be held at once.
    spec fn limit(&self) -> nat;

    /// Appends `v` behind the youngest element.
    fn push(&mut self, v: E)
        requires
            old(self).contents().len() < old(self).limit(),
        ensures
            final(self).contents() == old(self).contents().push(v),
            final(self).limit() == old(self).limit(),
    ;

    /// Removes the oldest element and returns it.
    fn pop(&mut self) -> (v: E)
        requires
            old(self).contents().len() > 0,
        ensures
            v == old(self).contents().first(),
            final(self).contents() == old(self).contents().drop_first(),
            final(self).limit() == old(self).limit(),
    ;
}

} // verus!
