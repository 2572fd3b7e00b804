//! Circular windows: the run of slots of a ring that starts at one index and
//! wraps past the end of the storage.

use vstd::prelude::*;
use vstd::arithmetic::div_mod::{
    lemma_mod_pos_bound, lemma_mod_sub_multiples_vanish, lemma_small_mod,
};

verus! {

/// The index of the slot that lies `i` slots after `head` in a ring of `len`
/// slots.
pub open spec fn slot_after(len: int, head: int, i: int) -> int {
    (head + i) % len
}

/// The `count` elements of `slots` that start at `head`, walked circularly.
pub open spec fn window<E>(slots: Seq<E>, head: int, count: int) -> Seq<E> {
    Seq::new(count as nat, |i: int| slots[slot_after(slots.len() as int, head, i)])
}

/// Below twice the modulus, the remainder is the number itself or the number
/// less the modulus.
pub proof fn lemma_wrap(x: int, c: int)
    requires
        0 <= x < 2 * c,
    ensures
        x % c == if x < c { x } else { x - c },
{
    if x < c {
        lemma_small_mod(x as nat, c as nat);
    } else {
        lemma_small_mod((x - c) as nat, c as nat);
        lemma_mod_sub_multiples_vanish(x, c);
    }
}

/// Writing to a slot that a window does not cover leaves the window as it was.
pub proof fn lemma_window_outside<E>(slots: Seq<E>, head: int, count: int, at: int, v: E)
    requires
        0 <= at < slots.len(),
        0 <= head,
        0 <= count,
        forall|i: int| 0 <= i < count ==> #[trigger] slot_after(slots.len() as int, head, i) != at,
    ensures
        window(slots.update(at, v), head, count) == window(slots, head, count),
{
    let c = slots.len() as int;
    let after = window(slots.update(at, v), head, count);
    let before = window(slots, head, count);
    assert forall|i: int| 0 <= i < after.len() implies after[i] == before[i] by {
        lemma_mod_pos_bound(head + i, c);
        assert(slot_after(c, head, i) != at);
    }
    assert(after =~= before);
}

/// Writing just behind a window that does not fill the ring appends to the
/// window and leaves its other elements as they were.
pub proof fn lemma_window_push<E>(slots: Seq<E>, head: int, count: int, v: E)
    requires
        0 <= head < slots.len(),
        0 <= count < slots.len(),
    ensures
        window(slots.update((head + count) % (slots.len() as int), v), head, count + 1)
            == window(slots, head, count).push(v),
        window(slots.update((head + count) % (slots.len() as int), v), head, count) == window(
            slots,
            head,
            count,
        ),
{
    let c = slots.len() as int;
    let tail = (head + count) % c;
    let after = window(slots.update(tail, v), head, count + 1);
    let before = window(slots, head, count).push(v);
    lemma_wrap(head + count, c);
    assert forall|i: int| 0 <= i < count + 1 implies after[i] == before[i] by {
        lemma_wrap(head + i, c);
    }
    assert(after =~= before);
    assert forall|i: int| 0 <= i < count implies #[trigger] slot_after(c, head, i) != tail by {
        lemma_wrap(head + i, c);
    }
    lemma_window_outside(slots, head, count, tail, v);
}

/// The first element of a window is the slot under its head, and the window
/// that starts one slot later and is one element shorter holds the rest,
/// whatever the slot under the old head holds by then.
pub proof fn lemma_window_pop<E>(slots: Seq<E>, head: int, count: int, left: E)
    requires
        0 <= head < slots.len(),
        0 < count <= slots.len(),
    ensures
        window(slots, head, count).first() == slots[head],
        window(slots, (head + 1) % (slots.len() as int), count - 1) == window(
            slots,
            head,
            count,
        ).drop_first(),
        window(slots.update(head, left), (head + 1) % (slots.len() as int), count - 1) == window(
            slots,
            head,
            count,
        ).drop_first(),
{
    let c = slots.len() as int;
    let next = (head + 1) % c;
    let rest = window(slots, head, count).drop_first();
    lemma_wrap(head, c);
    lemma_wrap(head + 1, c);
    assert forall|i: int| 0 <= i < count - 1 implies #[trigger] slot_after(c, next, i) != head
        && window(slots, next, count - 1)[i] == rest[i] by {
        lemma_wrap(next + i, c);
        lemma_wrap(head + 1 + i, c);
    }
    assert(window(slots, next, count - 1) =~= rest);
    lemma_window_outside(slots, next, count - 1, head, left);
}

} // verus!
