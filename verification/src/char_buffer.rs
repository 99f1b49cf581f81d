//! Bounded buffers of recently typed characters.
//!
//! A buffer is a stack of characters: the most recent one is on top. A
//! bounded buffer is a sliding window over what was pushed: pushing onto a
//! full buffer silently drops the oldest character.

use std::collections::VecDeque;
use vstd::prelude::*;

mod heap_sized_char_buffer;
mod model;
pub mod ring;
mod stack_sized_char_buffer;

pub use heap_sized_char_buffer::HeapSizedCharBuffer;
pub use model::{
    contents_after, contents_after_all, keep_last, lemma_capacity_invariant,
    lemma_clear_idempotent, lemma_contents_within_limit, lemma_pushed_all,
    lemma_pushed_within_limit, observed_after, popped, pushed, pushed_all, top_of, trace,
    within_limit, BufferOp, Observation,
};
pub use stack_sized_char_buffer::StackSizedCharBuffer;

verus! {

/// A last-in-first-out buffer of characters.
pub trait CharBuffer: Sized {
    /// The characters held, oldest first: the top is the last one.
    spec fn view(&self) -> Seq<char>;

    /// The most characters the buffer holds at once; `None` where it grows
    /// without bound.
    spec fn limit(&self) -> Option<nat>;

    /// The representation invariant of the buffer.
    spec fn wf(&self) -> bool;

    /// A well-formed buffer is within its limit.
    proof fn lemma_within_limit(&self)
        requires
            self.wf(),
        ensures
            within_limit(self@, self.limit()),
    ;

    /// The number of characters held: never more than the limit.
    fn len(&self) -> (n: usize)
        requires
            self.wf(),
        ensures
            n == self@.len(),
            self.limit() matches Some(limit) ==> n <= limit,
    ;

    /// Whether the buffer holds no character.
    fn is_empty(&self) -> (b: bool)
        requires
            self.wf(),
        ensures
            b == (self@.len() == 0),
    ;

    /// The character pushed last that is still held; `None` where the
    /// buffer is empty.
    fn top(&self) -> (t: Option<char>)
        requires
            self.wf(),
        ensures
            t == top_of(self@),
    ;

    /// Makes `element` the new top. A buffer that is full drops its oldest
    /// character to make room; no push fails.
    fn push(&mut self, element: char)
        requires
            old(self).wf(),
        ensures
            final(self).wf(),
            final(self).limit() == old(self).limit(),
            final(self)@ == pushed(old(self)@, old(self).limit(), element),
    ;

    /// Takes the top off and returns it; changes nothing and returns
    /// `None` where the buffer is empty.
    fn pop(&mut self) -> (t: Option<char>)
        requires
            old(self).wf(),
        ensures
            final(self).wf(),
            final(self).limit() == old(self).limit(),
            t == top_of(old(self)@),
            final(self)@ == popped(old(self)@),
    ;

    /// Takes every character off.
    fn clear(&mut self)
        requires
            old(self).wf(),
        ensures
            final(self).wf(),
            final(self).limit() == old(self).limit(),
            final(self)@ == Seq::<char>::empty(),
    ;
}

/// Strategy equivalence: two buffers that hold the same characters under the
/// same limit cannot be told apart, whatever their storage. After every one
/// of `ops` they show the same length and the same top, and every pop hands
/// out the same character.
pub proof fn lemma_strategies_agree<A: CharBuffer, B: CharBuffer>(a: A, b: B, ops: Seq<BufferOp>)
    requires
        a.wf(),
        b.wf(),
        a@ == b@,
        a.limit() == b.limit(),
    ensures
        trace(a@, a.limit(), ops) == trace(b@, b.limit(), ops),
        contents_after_all(a@, a.limit(), ops) == contents_after_all(b@, b.limit(), ops),
{
}

/// A buffer that grows without bound.
#[derive(Debug)]
pub struct ResizableCharBuffer {
    elements: Vec<char>,
}

impl ResizableCharBuffer {
    /// An empty buffer.
    pub fn new() -> (buffer: Self)
        ensures
            buffer.wf(),
            buffer@ == Seq::<char>::empty(),
            buffer.limit() == None::<nat>,
    {
        Self { elements: Vec::new() }
    }
}

impl Default for ResizableCharBuffer {
    fn default() -> (buffer: Self)
        ensures
            buffer.wf(),
            buffer@ == Seq::<char>::empty(),
            buffer.limit() == None::<nat>,
    {
        Self::new()
    }
}

impl CharBuffer for ResizableCharBuffer {
    closed spec fn view(&self) -> Seq<char> {
        self.elements@
    }

    open spec fn limit(&self) -> Option<nat> {
        None
    }

    open spec fn wf(&self) -> bool {
        true
    }

    proof fn lemma_within_limit(&self) {
    }

    fn len(&self) -> (n: usize) {
        self.elements.len()
    }

    fn is_empty(&self) -> (b: bool) {
        self.elements.is_empty()
    }

    fn top(&self) -> (t: Option<char>) {
        match self.elements.last() {
            Some(element) => Some(*element),
            None => None,
        }
    }

    fn push(&mut self, element: char) {
        self.elements.push(element);
    }

    fn pop(&mut self) -> (t: Option<char>) {
        self.elements.pop()
    }

    fn clear(&mut self) {
        self.elements.clear()
    }
}

/// A buffer that holds at most `capacity` characters, in a double-ended
/// queue: a push onto a full buffer drops the oldest character first.
#[derive(Debug)]
pub struct FixedSizeCharBuffer {
    elements: VecDeque<char>,
    capacity: usize,
}

impl FixedSizeCharBuffer {
    /// An empty buffer of the given capacity.
    pub fn new(capacity: usize) -> (buffer: Self)
        requires
            capacity >= 1,
        ensures
            buffer.wf(),
            buffer@ == Seq::<char>::empty(),
            buffer.limit() == Some(capacity as nat),
    {
        Self { elements: VecDeque::new(), capacity }
    }

    /// The most characters that the buffer holds at once.
    pub fn capacity(&self) -> (capacity: usize)
        ensures
            self.limit() == Some(capacity as nat),
    {
        self.capacity
    }
}

impl CharBuffer for FixedSizeCharBuffer {
    closed spec fn view(&self) -> Seq<char> {
        self.elements@
    }

    closed spec fn limit(&self) -> Option<nat> {
        Some(self.capacity as nat)
    }

    closed spec fn wf(&self) -> bool {
        1 <= self.capacity && self.elements@.len() <= self.capacity
    }

    proof fn lemma_within_limit(&self) {
    }

    fn len(&self) -> (n: usize) {
        self.elements.len()
    }

    fn is_empty(&self) -> (b: bool) {
        self.elements.len() == 0
    }

    fn top(&self) -> (t: Option<char>) {
        let n: usize = self.elements.len();
        if n == 0 {
            None
        } else {
            Some(self.elements[n - 1])
        }
    }

    fn push(&mut self, element: char) {
        if self.len() == self.capacity() {
            self.elements.pop_front();
        }
        self.elements.push_back(element);
        assert(self.elements@ =~= pushed(old(self).elements@, old(self).limit(), element));
    }

    fn pop(&mut self) -> (t: Option<char>) {
        self.elements.pop_back()
    }

    fn clear(&mut self) {
        self.elements.clear()
    }
}

} // verus!
