//! A circular buffer whose capacity is part of its type.

use super::ring::{
    lemma_next_index, lemma_previous_index, lemma_ring_pop, lemma_ring_push, lemma_ring_top,
    ring_view, ring_wf,
};
use super::CharBuffer;
use vstd::prelude::*;

verus! {

/// A buffer that holds at most `CAPACITY` characters, in a circular array
/// inside the value itself.
#[derive(Debug)]
pub struct StackSizedCharBuffer<const CAPACITY: usize> {
    elements: [char; CAPACITY],
    top_index: usize,
    len: usize,
}

impl<const CAPACITY: usize> Default for StackSizedCharBuffer<CAPACITY> {
    /// An empty buffer. It is well-formed where `CAPACITY` is at least one
    /// and at most half of `usize::MAX`, so that an index plus the capacity
    /// fits in a `usize`; a buffer of another capacity cannot be used.
    fn default() -> (buffer: Self)
        ensures
            buffer.wf() <==> 1 <= CAPACITY <= usize::MAX / 2,
            buffer@ == Seq::<char>::empty(),
            buffer.limit() == Some(CAPACITY as nat),
    {
        let buffer = Self { elements: ['\0';CAPACITY], top_index: 0, len: 0 };
        assert(buffer@ =~= Seq::<char>::empty());
        buffer
    }
}

impl<const CAPACITY: usize> StackSizedCharBuffer<CAPACITY> {
    /// Whether the buffer holds as many characters as its capacity.
    pub fn is_full(&self) -> (full: bool)
        ensures
            full == (self.limit() == Some(self@.len())),
    {
        self.len == CAPACITY
    }
}

impl<const CAPACITY: usize> CharBuffer for StackSizedCharBuffer<CAPACITY> {
    closed spec fn view(&self) -> Seq<char> {
        ring_view(self.elements@, self.top_index as int, self.len as int)
    }

    open spec fn limit(&self) -> Option<nat> {
        Some(CAPACITY as nat)
    }

    closed spec fn wf(&self) -> bool {
        &&& ring_wf(self.elements@, self.top_index as int, self.len as int)
        &&& CAPACITY <= usize::MAX / 2
    }

    proof fn lemma_within_limit(&self) {
    }

    fn len(&self) -> (n: usize) {
        self.len
    }

    fn is_empty(&self) -> (b: bool) {
        self.len == 0
    }

    fn top(&self) -> (t: Option<char>) {
        proof {
            lemma_ring_top(self.elements@, self.top_index as int, self.len as int);
        }
        if self.is_empty() {
            None
        } else {
            Some(self.elements[self.top_index])
        }
    }

    fn push(&mut self, element: char) {
        proof {
            lemma_next_index(self.top_index as int, CAPACITY as int);
            lemma_ring_push(self.elements@, self.top_index as int, self.len as int, element);
        }
        self.top_index = (self.top_index + 1) % CAPACITY;
        self.len += if self.is_full() {
            0
        } else {
            1
        };
        self.elements[self.top_index] = element;
    }

    fn pop(&mut self) -> (t: Option<char>) {
        proof {
            lemma_ring_top(self.elements@, self.top_index as int, self.len as int);
        }
        if self.is_empty() {
            return None;
        }
        let top_element = self.elements[self.top_index];
        proof {
            lemma_previous_index(self.top_index as int, CAPACITY as int);
            lemma_ring_pop(self.elements@, self.top_index as int, self.len as int);
        }
        self.top_index = (self.top_index + CAPACITY - 1) % CAPACITY;
        self.len -= 1;
        Some(top_element)
    }

    fn clear(&mut self) {
        self.len = 0;
        assert(self@ =~= Seq::<char>::empty());
    }
}

} // verus!
