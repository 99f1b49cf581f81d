//! What a buffer holds, as a sequence of characters with the oldest first,
//! and what each operation does to that sequence. Every buffer of this crate
//! is specified by these functions, whatever its storage.

use vstd::prelude::*;

verus! {

/// The most recent character of `s`, if there is one.
pub open spec fn top_of(s: Seq<char>) -> Option<char> {
    if s.len() == 0 {
        None
    } else {
        Some(s.last())
    }
}

/// The last `limit` characters of `s`; all of `s` where there is no limit or
/// `s` is within it.
pub open spec fn keep_last(s: Seq<char>, limit: Option<nat>) -> Seq<char> {
    match limit {
        Some(n) if s.len() > n => s.subrange(s.len() - n, s.len() as int),
        _ => s,
    }
}

/// What a buffer of the given limit holds after `element` is pushed onto `s`:
/// `element` is the new top, and the oldest character is gone where `s` was
/// full.
pub open spec fn pushed(s: Seq<char>, limit: Option<nat>, element: char) -> Seq<char> {
    keep_last(s.push(element), limit)
}

/// What a buffer holds after its top is popped off `s`.
pub open spec fn popped(s: Seq<char>) -> Seq<char> {
    if s.len() == 0 {
        s
    } else {
        s.drop_last()
    }
}

/// Whether `s` can be the contents of a buffer of the given limit: a limit is
/// at least one, and the buffer never holds more than its limit.
pub open spec fn within_limit(s: Seq<char>, limit: Option<nat>) -> bool {
    limit matches Some(n) ==> 1 <= n && s.len() <= n
}

/// What a buffer of the given limit holds after each of `elements` is pushed
/// onto `s`, the first one first.
pub open spec fn pushed_all(s: Seq<char>, limit: Option<nat>, elements: Seq<char>) -> Seq<char>
    decreases elements.len(),
{
    if elements.len() == 0 {
        s
    } else {
        pushed(pushed_all(s, limit, elements.drop_last()), limit, elements.last())
    }
}

/// One operation on a buffer.
pub enum BufferOp {
    Push(char),
    Pop,
    Clear,
}

/// What can be seen of a buffer once an operation is done: its length, its
/// top, and the character that the operation handed out, if it is a pop of a
/// buffer that is not empty.
#[verifier::ext_equal]
pub struct Observation {
    pub len: nat,
    pub top: Option<char>,
    pub popped: Option<char>,
}

/// What a buffer of the given limit holds after `op` on `s`.
pub open spec fn contents_after(s: Seq<char>, limit: Option<nat>, op: BufferOp) -> Seq<char> {
    match op {
        BufferOp::Push(element) => pushed(s, limit, element),
        BufferOp::Pop => popped(s),
        BufferOp::Clear => Seq::empty(),
    }
}

/// What can be seen of a buffer of the given limit once `op` is done on `s`.
pub open spec fn observed_after(s: Seq<char>, limit: Option<nat>, op: BufferOp) -> Observation {
    let after = contents_after(s, limit, op);
    Observation {
        len: after.len(),
        top: top_of(after),
        popped: match op {
            BufferOp::Pop => top_of(s),
            _ => None,
        },
    }
}

/// What a buffer of the given limit holds after `ops` on `s`, the first one
/// first.
pub open spec fn contents_after_all(
    s: Seq<char>,
    limit: Option<nat>,
    ops: Seq<BufferOp>,
) -> Seq<char>
    decreases ops.len(),
{
    if ops.len() == 0 {
        s
    } else {
        contents_after(contents_after_all(s, limit, ops.drop_last()), limit, ops.last())
    }
}

/// What can be seen of a buffer of the given limit after each of `ops` in
/// turn, starting from `s`.
pub open spec fn trace(s: Seq<char>, limit: Option<nat>, ops: Seq<BufferOp>) -> Seq<Observation> {
    Seq::new(
        ops.len(),
        |i: int| observed_after(contents_after_all(s, limit, ops.take(i)), limit, ops[i]),
    )
}

/// A push keeps a buffer within its limit.
pub proof fn lemma_pushed_within_limit(s: Seq<char>, limit: Option<nat>, element: char)
    requires
        within_limit(s, limit),
    ensures
        within_limit(pushed(s, limit, element), limit),
        top_of(pushed(s, limit, element)) == Some(element),
{
}

/// Pushing characters one by one leaves the last `limit` of all that the
/// buffer held and all that was pushed.
pub proof fn lemma_pushed_all(s: Seq<char>, limit: Option<nat>, elements: Seq<char>)
    requires
        within_limit(s, limit),
    ensures
        pushed_all(s, limit, elements) == keep_last(s + elements, limit),
        within_limit(pushed_all(s, limit, elements), limit),
    decreases elements.len(),
{
    if elements.len() == 0 {
        assert(s + elements =~= s);
    } else {
        let front = elements.drop_last();
        lemma_pushed_all(s, limit, front);
        assert((s + front).push(elements.last()) =~= s + elements);
        assert(pushed(keep_last(s + front, limit), limit, elements.last()) =~= keep_last(
            s + elements,
            limit,
        ));
    }
}

/// The capacity invariant: after at least as many pushes as the capacity, a
/// bounded buffer holds exactly as many characters as its capacity, and its
/// top is the character pushed last.
pub proof fn lemma_capacity_invariant(s: Seq<char>, capacity: nat, elements: Seq<char>)
    requires
        within_limit(s, Some(capacity)),
        elements.len() >= capacity,
    ensures
        pushed_all(s, Some(capacity), elements).len() == capacity,
        top_of(pushed_all(s, Some(capacity), elements)) == Some(elements.last()),
        pushed_all(s, Some(capacity), elements) == elements.subrange(
            elements.len() - capacity,
            elements.len() as int,
        ),
{
    lemma_pushed_all(s, Some(capacity), elements);
    assert(keep_last(s + elements, Some(capacity)) =~= elements.subrange(
        elements.len() - capacity,
        elements.len() as int,
    ));
}

/// Every operation keeps a buffer within its limit.
pub proof fn lemma_contents_within_limit(s: Seq<char>, limit: Option<nat>, ops: Seq<BufferOp>)
    requires
        within_limit(s, limit),
    ensures
        within_limit(contents_after_all(s, limit, ops), limit),
    decreases ops.len(),
{
    if ops.len() > 0 {
        lemma_contents_within_limit(s, limit, ops.drop_last());
    }
}

/// Clearing empties a buffer, whatever it held, and clearing again changes
/// nothing.
pub proof fn lemma_clear_idempotent(s: Seq<char>, limit: Option<nat>)
    ensures
        contents_after(s, limit, BufferOp::Clear).len() == 0,
        top_of(contents_after(s, limit, BufferOp::Clear)) == None::<char>,
        contents_after(contents_after(s, limit, BufferOp::Clear), limit, BufferOp::Clear)
            == contents_after(s, limit, BufferOp::Clear),
        observed_after(contents_after(s, limit, BufferOp::Clear), limit, BufferOp::Clear)
            == observed_after(s, limit, BufferOp::Clear),
{
}

} // verus!
