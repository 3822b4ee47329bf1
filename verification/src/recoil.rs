//! Retry decisions: how an operation that may ask to be retried is driven,
//! and when the retry budget is spent. Waiting between attempts (a growing,
//! jittered interval) is left to the caller.
use vstd::prelude::*;

verus! {

/// What one attempt of an operation came to.
pub enum State<T, C, E> {
    /// It finished with a value.
    Done(T),
    /// It asks to be tried again; `C` is handed to the wait before the next
    /// attempt.
    Retry(C),
    /// It failed for good.
    Fail(E),
}

/// Why a retried operation gave up.
#[derive(Debug, PartialEq, Eq)]
pub enum Error<C> {
    MaxRetriesReached,
    Custom(C),
}

/// What the driver of the operation does next.
pub enum Next<T, C, E> {
    /// Stop with this result.
    Finish(Result<T, Error<E>>),
    /// Wait (with `C`), then attempt again.
    Wait(C),
}

/// Retry budget of one run of an operation.
#[derive(Debug, Clone, Copy, PartialEq, Eq, Structural)]
pub struct Attempts {
    /// Largest number of retries; `None` retries for ever.
    pub max_retries: Option<usize>,
    /// Retries asked for so far.
    pub retries: usize,
}

/// The budget is spent: more retries were asked for than allowed.
pub open spec fn exhausted(max_retries: Option<usize>, retries: usize) -> bool {
    match max_retries {
        Some(m) => retries > m,
        None => false,
    }
}

impl Attempts {
    /// A fresh budget.
    pub fn new(max_retries: Option<usize>) -> (r: Attempts)
        ensures
            r.max_retries == max_retries,
            r.retries == 0,
    {
        Attempts { max_retries, retries: 0 }
    }

    /// Checked before each attempt: `Some(MaxRetriesReached)` once the budget
    /// is spent, in which case the operation is not attempted again.
    pub fn before_attempt<E>(&self) -> (r: Option<Error<E>>)
        ensures
            r is Some <==> exhausted(self.max_retries, self.retries),
            r matches Some(e) ==> e is MaxRetriesReached,
    {
        match self.max_retries {
            Some(m) => if self.retries > m {
                Some(Error::MaxRetriesReached)
            } else {
                None
            },
            None => None,
        }
    }

    /// Takes the state an attempt came to: a value or a failure ends the
    /// run; a retry request is counted and the driver waits.
    pub fn after_attempt<T, C, E>(&mut self, state: State<T, C, E>) -> (r: Next<T, C, E>)
        ensures
            final(self).max_retries == old(self).max_retries,
            match state {
                State::Done(t) => r == Next::<T, C, E>::Finish(Ok(t)) && final(self).retries == old(self).retries,
                State::Fail(e) => r == Next::<T, C, E>::Finish(Err(Error::Custom(e))) && final(self).retries == old(self).retries,
                State::Retry(c) => r == Next::<T, C, E>::Wait(c) && final(self).retries == (if old(self).retries < usize::MAX { old(self).retries + 1 } else { old(self).retries as int }),
            },
    {
        match state {
            State::Done(t) => Next::Finish(Ok(t)),
            State::Fail(e) => Next::Finish(Err(Error::Custom(e))),
            State::Retry(c) => {
                self.retries = self.retries.saturating_add(1);
                Next::Wait(c)
            },
        }
    }
}

/// Law: with a budget of `m` retries, the operation is attempted at most
/// `m + 1` times: after `m + 1` retry requests the budget is spent, and not
/// before.
pub proof fn law_attempt_bound(m: usize, retries: usize)
    ensures
        exhausted(Some(m), retries) <==> retries >= m + 1,
        !exhausted(None, retries),
{
}

} // verus!
