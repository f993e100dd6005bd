//! Waiting until a word of memory changes.
//!
//! The caller reads the word and sleeps; the waiter compares each reading
//! with the value that was there when the wait began and says what to do
//! next.

use crate::error::AppError;
use crate::safety::violation_at;
use vstd::prelude::*;

verus! {

/// What to do after a reading.
#[derive(Debug, Clone, Copy, PartialEq, Eq, Structural)]
pub enum WaitStep {
    /// The word has changed: the wait is over.
    Ready,
    /// The word is unchanged: read again after `after_ms` milliseconds.
    Retry { after_ms: u64 },
    /// The word is unchanged and the allowed number of readings is used up.
    Expired,
}

/// The mathematical content of a waiter.
pub ghost struct WaitState {
    /// The address of the word.
    pub address: usize,
    /// The value of the word when the wait began.
    pub baseline: u64,
    /// The pause between two readings, in milliseconds.
    pub poll_interval_ms: u64,
    /// The number of unchanged readings after which the wait expires, if it
    /// may expire.
    pub max_polls: Option<u64>,
    /// The number of unchanged readings so far.
    pub polls: u64,
}

impl WaitState {
    /// The count of unchanged readings after one more of them.
    pub open spec fn counted(self) -> u64 {
        if self.polls < u64::MAX {
            (self.polls + 1) as u64
        } else {
            self.polls
        }
    }

    /// What the waiter says to a reading of `value`.
    pub open spec fn step(self, value: u64) -> WaitStep {
        if value != self.baseline {
            WaitStep::Ready
        } else if self.max_polls matches Some(limit) && self.counted() >= limit {
            WaitStep::Expired
        } else {
            WaitStep::Retry { after_ms: self.poll_interval_ms }
        }
    }

    /// The waiter after a reading of `value`.
    pub open spec fn after(self, value: u64) -> WaitState {
        if value != self.baseline {
            self
        } else {
            WaitState { polls: self.counted(), ..self }
        }
    }

    /// The waiter after the readings `values`, one after the other.
    pub open spec fn after_all(self, values: Seq<u64>) -> WaitState
        decreases values.len(),
    {
        if values.len() == 0 {
            self
        } else {
            self.after_all(values.drop_last()).after(values.last())
        }
    }
}

/// Decides when a wait for a change of the word at an address is over.
pub struct ReadinessWaiter {
    address: usize,
    baseline: u64,
    poll_interval_ms: u64,
    max_polls: Option<u64>,
    polls: u64,
}

impl View for ReadinessWaiter {
    type V = WaitState;

    closed spec fn view(&self) -> WaitState {
        WaitState {
            address: self.address,
            baseline: self.baseline,
            poll_interval_ms: self.poll_interval_ms,
            max_polls: self.max_polls,
            polls: self.polls,
        }
    }
}

impl ReadinessWaiter {
    /// A wait without end for a change of the word at `address`, which held
    /// `baseline` when the wait began.
    pub fn new(address: usize, baseline: u64, poll_interval_ms: u64) -> (r: Self)
        ensures
            r@ == (WaitState { address, baseline, poll_interval_ms, max_polls: None, polls: 0 }),
    {
        ReadinessWaiter { address, baseline, poll_interval_ms, max_polls: None, polls: 0 }
    }

    /// A wait that expires after `max_polls` unchanged readings.
    pub fn with_deadline(address: usize, baseline: u64, poll_interval_ms: u64, max_polls: u64) -> (r:
        Self)
        ensures
            r@ == (WaitState {
                address,
                baseline,
                poll_interval_ms,
                max_polls: Some(max_polls),
                polls: 0,
            }),
    {
        ReadinessWaiter {
            address,
            baseline,
            poll_interval_ms,
            max_polls: Some(max_polls),
            polls: 0,
        }
    }

    /// The address to read. The null address is refused.
    pub fn address(&self) -> (r: Result<usize, AppError>)
        ensures
            r == if self@.address == 0 {
                Err::<usize, AppError>(violation_at(0))
            } else {
                Ok(self@.address)
            },
    {
        if self.address == 0 {
            Err(AppError::MemoryAccessViolation { address: 0 })
        } else {
            Ok(self.address)
        }
    }

    /// The number of unchanged readings so far.
    pub fn polls(&self) -> (r: u64)
        ensures
            r == self@.polls,
    {
        self.polls
    }

    /// Takes a reading of the word. The first reading that differs from the
    /// baseline ends the wait.
    pub fn observe(&mut self, value: u64) -> (r: WaitStep)
        ensures
            r == old(self)@.step(value),
            final(self)@ == old(self)@.after(value),
    {
        if value != self.baseline {
            return WaitStep::Ready;
        }
        if self.polls < u64::MAX {
            self.polls = self.polls + 1;
        }
        match self.max_polls {
            Some(limit) => if self.polls >= limit {
                WaitStep::Expired
            } else {
                WaitStep::Retry { after_ms: self.poll_interval_ms }
            },
            None => WaitStep::Retry { after_ms: self.poll_interval_ms },
        }
    }
}

/// A wait without end is over exactly at the first reading that differs
/// from the baseline: every reading before it asks for another one after
/// the poll interval, and none of them changes what the waiter compares to.
pub proof fn lemma_wait_ends_at_first_change(state: WaitState, values: Seq<u64>, value: u64)
    requires
        state.max_polls is None,
        forall|i: int| 0 <= i < values.len() ==> values[i] == state.baseline,
    ensures
        state.after_all(values).baseline == state.baseline,
        state.after_all(values).max_polls is None,
        state.after_all(values).poll_interval_ms == state.poll_interval_ms,
        forall|i: int|
            0 <= i < values.len() ==> #[trigger] state.after_all(values.take(i)).step(values[i])
                == (WaitStep::Retry { after_ms: state.poll_interval_ms }),
        value != state.baseline ==> state.after_all(values).step(value) == WaitStep::Ready,
    decreases values.len(),
{
    if values.len() > 0 {
        let front = values.drop_last();
        lemma_wait_ends_at_first_change(state, front, value);
        assert forall|i: int| 0 <= i < values.len() implies #[trigger] state.after_all(
            values.take(i),
        ).step(values[i]) == (WaitStep::Retry { after_ms: state.poll_interval_ms }) by {
            if i < values.len() - 1 {
                assert(values.take(i) =~= front.take(i));
                assert(front[i] == values[i]);
            } else {
                assert(values.take(i) =~= front);
            }
        }
    }
}

} // verus!
