//! The numbering of recorded messages.

use vstd::prelude::*;

verus! {

/// Hands out the numbers under which messages are recorded. One counter
/// serves requests and responses alike. The numbers count up by one and are
/// never handed out twice: a counter that has reached the largest `usize` is
/// used up and hands out nothing more.
#[derive(Debug)]
pub struct SequenceCounter {
    next: usize,
}

impl SequenceCounter {
    /// The number that the next draw hands out. Every number drawn so far is
    /// smaller.
    pub closed spec fn upcoming(&self) -> nat {
        self.next as nat
    }

    /// Whether the counter has numbers left.
    pub open spec fn has_next(&self) -> bool {
        self.upcoming() < usize::MAX
    }

    /// A counter whose first number is zero.
    pub fn new() -> (counter: SequenceCounter)
        ensures
            counter.upcoming() == 0,
    {
        SequenceCounter { next: 0 }
    }

    /// A counter whose first number is `first`.
    pub fn starting_at(first: usize) -> (counter: SequenceCounter)
        ensures
            counter.upcoming() == first,
    {
        SequenceCounter { next: first }
    }

    /// The number that the next draw hands out.
    pub fn peek(&self) -> (id: usize)
        ensures
            id == self.upcoming(),
    {
        self.next
    }

    /// Whether the counter is used up: no number is left to draw.
    pub fn exhausted(&self) -> (used_up: bool)
        ensures
            used_up == !self.has_next(),
    {
        self.next == usize::MAX
    }

    /// Draws a number: returns the upcoming one and moves the counter up by
    /// one, so that every later draw gives a larger number.
    pub fn next_id(&mut self) -> (id: usize)
        requires
            old(self).has_next(),
        ensures
            id == old(self).upcoming(),
            final(self).upcoming() == old(self).upcoming() + 1,
    {
        let id = self.next;
        self.next = id + 1;
        id
    }
}

} // verus!
