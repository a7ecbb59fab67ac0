//! The one-shot latch that a forking pair shares.
//!
//! The parent makes the latch and forks; the child sets a value once it is
//! ready; the parent waits until the value is there. This module holds what
//! the pair agrees on: the slot for the value and the rule that it is set
//! once. The shared memory, the mutex and the condition variable around the
//! slot belong to the caller, which holds the mutex during every call.

use vstd::prelude::*;

verus! {

/// The slot of a latch.
#[derive(Debug)]
pub struct SharedLock<T: Copy> {
    data: Option<T>,
}

/// The slot after `value` is sent: the first value sent stays.
pub open spec fn after_send<T>(slot: Option<T>, value: T) -> Option<T> {
    match slot {
        Some(first) => Some(first),
        None => Some(value),
    }
}

/// The slot after the values of `values` are sent in turn.
pub open spec fn after_sends<T>(slot: Option<T>, values: Seq<T>) -> Option<T>
    decreases values.len(),
{
    if values.len() == 0 {
        slot
    } else {
        after_send(after_sends(slot, values.drop_last()), values.last())
    }
}

impl<T: Copy> SharedLock<T> {
    /// The value in the slot, if one was sent.
    pub closed spec fn payload(&self) -> Option<T> {
        self.data
    }

    /// A latch whose value is not set.
    pub fn new() -> (out: Self)
        ensures
            out.payload().is_none(),
    {
        SharedLock { data: None }
    }

    /// Looks at the slot: the value that was sent, or nothing yet. A waiter
    /// that finds nothing sleeps on the condition variable and looks again,
    /// however it was woken.
    pub fn wait(&self) -> (out: Option<T>)
        ensures
            out == self.payload(),
    {
        self.data
    }

    /// Sets the value, unless one is set already, and says whether it did.
    /// The sender then wakes the waiters.
    pub fn send_value(&mut self, value: T) -> (set: bool)
        ensures
            final(self).payload() == after_send(old(self).payload(), value),
            set == old(self).payload().is_none(),
    {
        match self.data {
            Some(_) => false,
            None => {
                self.data = Some(value);
                true
            },
        }
    }
}

/// Once a value is in the slot, nothing that is sent later changes it.
pub proof fn lemma_set_once<T>(first: T, values: Seq<T>)
    ensures
        after_sends(Some(first), values) == Some(first),
    decreases values.len(),
{
    if values.len() > 0 {
        lemma_set_once(first, values.drop_last());
    }
}

/// Whatever is sent to a fresh latch, and however often, every wait that
/// finds a value finds the first one sent: all waiters see the same value.
pub proof fn lemma_waiters_see_first_value<T>(values: Seq<T>)
    requires
        values.len() > 0,
    ensures
        after_sends(None, values) == Some(values[0]),
    decreases values.len(),
{
    if values.len() > 1 {
        lemma_waiters_see_first_value(values.drop_last());
        assert(values.drop_last()[0] == values[0]);
    } else {
        assert(after_sends(None::<T>, values.drop_last()) == None::<T>);
        assert(values.last() == values[0]);
    }
}

} // verus!
