//! A circular buffer whose capacity is chosen when it is made.

use super::ring::{
    lemma_next_index, lemma_previous_index, lemma_ring_pop, lemma_ring_push, lemma_ring_top,
    ring_view, ring_wf,
};
use super::CharBuffer;
use vstd::prelude::*;

verus! {

/// A buffer that holds at most `capacity` characters, in a circular array on
/// the heap.
#[derive(Debug)]
pub struct HeapSizedCharBuffer {
    elements: Vec<char>,
    capacity: usize,
    top_index: usize,
    len: usize,
}

impl HeapSizedCharBuffer {
    /// An empty buffer of the given capacity. The capacity is at most half of
    /// `usize::MAX`, so that an index plus the capacity fits in a `usize`.
    pub fn new(capacity: usize) -> (buffer: Self)
        requires
            1 <= capacity <= usize::MAX / 2,
        ensures
            buffer.wf(),
            buffer@ == Seq::<char>::empty(),
            buffer.limit() == Some(capacity as nat),
    {
        let buffer = Self { capacity, elements: vec!['\0'; capacity], top_index: 0, len: 0 };
        assert(buffer@ =~= Seq::<char>::empty());
        buffer
    }

    /// Whether the buffer holds as many characters as its capacity.
    pub fn is_full(&self) -> (full: bool)
        ensures
            full == (self.limit() == Some(self@.len())),
    {
        self.len == self.capacity
    }
}

impl CharBuffer for HeapSizedCharBuffer {
    closed spec fn view(&self) -> Seq<char> {
        ring_view(self.elements@, self.top_index as int, self.len as int)
    }

    closed spec fn limit(&self) -> Option<nat> {
        Some(self.capacity as nat)
    }

    closed spec fn wf(&self) -> bool {
        &&& ring_wf(self.elements@, self.top_index as int, self.len as int)
        &&& self.elements@.len() == self.capacity
        &&& self.capacity <= usize::MAX / 2
    }

    proof fn lemma_within_limit(&self) {
    }

    fn len(&self) -> (n: usize) {
        self.len
    }

    fn is_empty(&self) -> (b: bool) {
        self.len == 0
    }

    fn top(&self) -> (t: Option<char>) {
        proof {
            lemma_ring_top(self.elements@, self.top_index as int, self.len as int);
        }
        if self.is_empty() {
            None
        } else {
            Some(self.elements[self.top_index])
        }
    }

    fn push(&mut self, element: char) {
        proof {
            lemma_next_index(self.top_index as int, self.capacity as int);
            lemma_ring_push(self.elements@, self.top_index as int, self.len as int, element);
        }
        self.top_index = (self.top_index + 1) % self.capacity;
        self.len += if self.is_full() {
            0
        } else {
            1
        };
        self.elements[self.top_index] = element;
    }

    fn pop(&mut self) -> (t: Option<char>) {
        proof {
            lemma_ring_top(self.elements@, self.top_index as int, self.len as int);
        }
        if self.is_empty() {
            return None;
        }
        let top_element = self.elements[self.top_index];
        proof {
            lemma_previous_index(self.top_index as int, self.capacity as int);
            lemma_ring_pop(self.elements@, self.top_index as int, self.len as int);
        }
        self.top_index = (self.top_index + self.capacity - 1) % self.capacity;
        self.len -= 1;
        Some(top_element)
    }

    fn clear(&mut self) {
        self.len = 0;
        assert(self@ =~= Seq::<char>::empty());
    }
}

} // verus!
