//! The circular layout shared by the fixed-array buffers.
//!
//! The characters live in an array of `capacity` cells. The top is at
//! `top_index`; the character pushed before it sits one cell lower, wrapping
//! from cell 0 to the last cell.

use super::{popped, pushed, top_of};
use vstd::prelude::*;

verus! {

/// The cell that lies `back` steps below the top.
pub open spec fn slot(top_index: int, capacity: int, back: int) -> int {
    if back <= top_index {
        top_index - back
    } else {
        top_index + capacity - back
    }
}

/// The cell above `top_index`, wrapping at the end of the array.
pub open spec fn next_index(top_index: int, capacity: int) -> int {
    if top_index + 1 == capacity {
        0
    } else {
        top_index + 1
    }
}

/// The cell below `top_index`, wrapping at the start of the array.
pub open spec fn previous_index(top_index: int, capacity: int) -> int {
    if top_index == 0 {
        capacity - 1
    } else {
        top_index - 1
    }
}

/// Whether `top_index` and `len` describe a buffer laid out in `cells`.
pub open spec fn ring_wf(cells: Seq<char>, top_index: int, len: int) -> bool {
    &&& 1 <= cells.len()
    &&& 0 <= top_index < cells.len()
    &&& 0 <= len <= cells.len()
}

/// The characters of the buffer laid out in `cells`, oldest first.
pub open spec fn ring_view(cells: Seq<char>, top_index: int, len: int) -> Seq<char> {
    Seq::new(len as nat, |i: int| cells[slot(top_index, cells.len() as int, len - 1 - i)])
}

/// Stepping up by one modulo the capacity is `next_index`.
pub proof fn lemma_next_index(top_index: int, capacity: int)
    requires
        0 <= top_index < capacity,
    ensures
        (top_index + 1) % capacity == next_index(top_index, capacity),
        0 <= next_index(top_index, capacity) < capacity,
{
    if top_index + 1 == capacity {
        vstd::arithmetic::div_mod::lemma_mod_self_0(capacity);
    } else {
        vstd::arithmetic::div_mod::lemma_small_mod((top_index + 1) as nat, capacity as nat);
    }
}

/// Stepping down by one modulo the capacity is `previous_index`.
pub proof fn lemma_previous_index(top_index: int, capacity: int)
    requires
        0 <= top_index < capacity,
    ensures
        (top_index + capacity - 1) % capacity == previous_index(top_index, capacity),
        0 <= previous_index(top_index, capacity) < capacity,
{
    if top_index == 0 {
        vstd::arithmetic::div_mod::lemma_small_mod((capacity - 1) as nat, capacity as nat);
    } else {
        vstd::arithmetic::div_mod::lemma_mod_add_multiples_vanish(top_index - 1, capacity);
        vstd::arithmetic::div_mod::lemma_small_mod((top_index - 1) as nat, capacity as nat);
    }
}

/// The top of the buffer is the character in the cell at `top_index`.
pub proof fn lemma_ring_top(cells: Seq<char>, top_index: int, len: int)
    requires
        ring_wf(cells, top_index, len),
    ensures
        top_of(ring_view(cells, top_index, len)) == if len == 0 {
            None
        } else {
            Some(cells[top_index])
        },
{
}

/// Writing `element` into the cell above the top, and counting one more
/// character unless the buffer is full, is a push that drops the oldest
/// character of a full buffer.
pub proof fn lemma_ring_push(cells: Seq<char>, top_index: int, len: int, element: char)
    requires
        ring_wf(cells, top_index, len),
    ensures
        ({
            let capacity = cells.len() as int;
            let top = next_index(top_index, capacity);
            let count = if len == capacity {
                len
            } else {
                len + 1
            };
            &&& ring_wf(cells.update(top, element), top, count)
            &&& ring_view(cells.update(top, element), top, count) == pushed(
                ring_view(cells, top_index, len),
                Some(cells.len()),
                element,
            )
        }),
{
    let capacity = cells.len() as int;
    let top = next_index(top_index, capacity);
    let count = if len == capacity {
        len
    } else {
        len + 1
    };
    let before = ring_view(cells, top_index, len);
    let after = ring_view(cells.update(top, element), top, count);
    let expected = pushed(before, Some(cells.len()), element);
    assert(after.len() == expected.len());
    assert forall|i: int| 0 <= i < after.len() implies after[i] == expected[i] by {
        let back = count - 1 - i;
        if back == 0 {
            assert(slot(top, capacity, back) == top);
        } else {
            assert(slot(top, capacity, back) == slot(top_index, capacity, back - 1));
            assert(slot(top, capacity, back) != top);
        }
    }
    assert(after =~= expected);
}

/// Stepping the top down by one cell, and counting one character less, is a
/// pop.
pub proof fn lemma_ring_pop(cells: Seq<char>, top_index: int, len: int)
    requires
        ring_wf(cells, top_index, len),
        len > 0,
    ensures
        ({
            let top = previous_index(top_index, cells.len() as int);
            &&& ring_wf(cells, top, len - 1)
            &&& ring_view(cells, top, len - 1) == popped(ring_view(cells, top_index, len))
        }),
{
    let capacity = cells.len() as int;
    let top = previous_index(top_index, capacity);
    let before = ring_view(cells, top_index, len);
    let after = ring_view(cells, top, len - 1);
    assert forall|i: int| 0 <= i < after.len() implies after[i] == popped(before)[i] by {
        let back = len - 2 - i;
        assert(slot(top, capacity, back) == slot(top_index, capacity, back + 1));
    }
    assert(after =~= popped(before));
}

} // verus!
