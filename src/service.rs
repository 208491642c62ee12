use std::sync::Mutex;
use std::sync::MutexGuard;
use vstd::prelude::*;

use crate::counter::CounterError;
use crate::counter::SharedCounter;
use crate::message::count_message;
use crate::message::count_text;

verus! {

/// `std::sync::Mutex`, carried as an opaque value.
#[verifier::external_type_specification]
#[verifier::external_body]
#[verifier::reject_recursive_types(T)]
pub struct ExMutex<T: ?Sized>(Mutex<T>);

/// `std::sync::Mutex`, carried as an opaque value.
/// `std::sync::MutexGuard`, the proof of holding a `Mutex`, carried as an opaque value.
#[verifier::external_type_specification]
#[verifier::external_body]
#[verifier::reject_recursive_types(T)]
pub struct ExMutexGuard<'a, T: ?Sized + 'a>(MutexGuard<'a, T>);

/// Relies on `Mutex::new`: an unlocked mutex around `t`; nothing more is stated.
pub assume_specification<T>[ Mutex::<T>::new ](t: T) -> Mutex<T>;

/// Relies on `Mutex::lock`: blocks until the caller holds the lock, and
/// reports a lock left poisoned by a holder that panicked as `None`.
#[verifier::external_body]
fn acquire(m: &Mutex<SharedCounter>) -> (r: Option<MutexGuard<'_, SharedCounter>>) {
    match m.lock() {
        Ok(g) => Some(g),
        Err(_) => None,
    }
}

/// Relies on `DerefMut` of `MutexGuard`: access to the value the lock protects.
#[verifier::external_body]
fn guarded<'a, 'b>(g: &'a mut MutexGuard<'b, SharedCounter>) -> (r: &'a mut SharedCounter) {
    &mut *g
}

/// One counter shared by every caller, with increments serialized by a lock.
pub struct CounterService {
    counter: Mutex<SharedCounter>,
}

impl CounterService {
    /// A service whose counter starts at zero.
    pub fn new() -> (r: CounterService) {
        CounterService { counter: Mutex::new(SharedCounter::new()) }
    }

    /// Increments the shared counter under its lock and returns the new count.
    pub fn increment_and_get(&self) -> (r: Result<u64, CounterError>)
        ensures
            r matches Ok(n) ==> n >= 1,
    {
        match acquire(&self.counter) {
            None => Err(CounterError::LockPoisoned),
            Some(mut g) => {
                let c = guarded(&mut g);
                c.increment_and_get()
            },
        }
    }

    /// The current count, read under the lock.
    pub fn value(&self) -> (r: Result<u64, CounterError>)
        ensures
            r matches Err(e) ==> e == CounterError::LockPoisoned,
    {
        match acquire(&self.counter) {
            None => Err(CounterError::LockPoisoned),
            Some(mut g) => {
                let c = guarded(&mut g);
                Ok(c.value())
            },
        }
    }

    /// Serves one request for the count: increments the counter and renders
    /// the new count as the reply.
    pub fn count_reply(&self) -> (r: Result<String, CounterError>)
        ensures
            r matches Ok(s) ==> exists|n: u64| n >= 1 && s@ == count_text(n as nat),
    {
        reply_for(self.increment_and_get())
    }
}

/// The reply to a request for the count, given the outcome of the increment:
/// the rendered count on success, the same error otherwise.
pub fn reply_for(outcome: Result<u64, CounterError>) -> (r: Result<String, CounterError>)
    ensures
        outcome matches Ok(n) ==> r matches Ok(s) && s@ == count_text(n as nat),
        outcome matches Err(e) ==> r == Err::<String, CounterError>(e),
{
    match outcome {
        Ok(n) => Ok(count_message(n)),
        Err(e) => Err(e),
    }
}

} // verus!
