//! A one-shot wake-up: a flag under a mutex, and a condition variable to
//! sleep on until the flag is raised.
use std::sync::{Condvar, Mutex, MutexGuard};
use std::time::Duration;
use vstd::prelude::*;

verus! {

#[verifier::external_type_specification]
#[verifier::external_body]
#[verifier::reject_recursive_types(T)]
pub struct ExMutex<T: ?Sized>(Mutex<T>);

#[verifier::external_type_specification]
#[verifier::external_body]
#[verifier::reject_recursive_types(T)]
pub struct ExMutexGuard<'a, T: ?Sized + 'a>(MutexGuard<'a, T>);

#[verifier::external_type_specification]
#[verifier::external_body]
pub struct ExCondvar(Condvar);

/// Relies on `Mutex::new`: a mutex holding `v`.
#[verifier::external_body]
fn new_flag(v: bool) -> Mutex<bool> {
    Mutex::new(v)
}

/// Relies on `Condvar::new`: a condition variable nobody waits on.
#[verifier::external_body]
fn new_condvar() -> Condvar {
    Condvar::new()
}

/// Relies on `Mutex::lock`: blocks until the flag is held. A poisoned lock
/// is taken over as it is, since the flag is a plain `bool`.
#[verifier::external_body]
fn lock_flag(m: &Mutex<bool>) -> MutexGuard<'_, bool> {
    match m.lock() {
        Ok(g) => g,
        Err(poisoned) => poisoned.into_inner(),
    }
}

/// Relies on `DerefMut` of `MutexGuard`: sets the held flag.
#[verifier::external_body]
fn store_flag(g: &mut MutexGuard<'_, bool>, v: bool) {
    **g = v;
}

/// Whether a waiter must go on sleeping: the flag is not raised.
fn flag_down(flag: &mut bool) -> (r: bool)
    ensures
        r == !*old(flag),
        *final(flag) == *old(flag),
{
    !*flag
}

/// Relies on `Condvar::wait_while`: releases the lock, sleeps, and returns
/// holding it again once the flag is raised.
#[verifier::external_body]
fn wait_raised<'a>(cv: &Condvar, g: MutexGuard<'a, bool>) -> MutexGuard<'a, bool> {
    match cv.wait_while(g, |f| flag_down(f)) {
        Ok(g) => g,
        Err(poisoned) => poisoned.into_inner(),
    }
}

/// Relies on `Condvar::wait_timeout_while`: as `wait_raised`, but gives up
/// after `timeout`; the `bool` says whether it gave up.
#[verifier::external_body]
fn wait_raised_for<'a>(cv: &Condvar, g: MutexGuard<'a, bool>, timeout: Duration) -> (MutexGuard<'a, bool>, bool) {
    let (g, res) = match cv.wait_timeout_while(g, timeout, |f| flag_down(f)) {
        Ok(r) => r,
        Err(poisoned) => poisoned.into_inner(),
    };
    (g, res.timed_out())
}

/// Relies on `Condvar::notify_one`: wakes one sleeper, if any.
#[verifier::external_body]
fn wake_one(cv: &Condvar) {
    cv.notify_one()
}

/// Relies on `Condvar::notify_all`: wakes every sleeper.
#[verifier::external_body]
fn wake_all(cv: &Condvar) {
    cv.notify_all()
}

/// A flag that `notify_*` raises and that a completed wait lowers again, so
/// each notification lets waiting through once.
pub struct Waiter {
    mutex: Mutex<bool>,
    condvar: Condvar,
}

impl Waiter {
    /// A waiter with the flag lowered.
    pub fn new() -> Waiter {
        Waiter { mutex: new_flag(false), condvar: new_condvar() }
    }

    /// Sleeps until the flag is raised, then lowers it.
    pub fn wait(&self) {
        let g = lock_flag(&self.mutex);
        let mut g = wait_raised(&self.condvar, g);
        store_flag(&mut g, false);
    }

    /// As `wait`, but gives up after `timeout`. Returns whether the flag was
    /// raised; only then is it lowered.
    pub fn wait_timeout(&self, timeout: Duration) -> (r: bool) {
        let g = lock_flag(&self.mutex);
        let (mut g, timed_out) = wait_raised_for(&self.condvar, g, timeout);
        if timed_out {
            return false;
        }
        store_flag(&mut g, false);
        true
    }

    /// Raises the flag and wakes one sleeper.
    pub fn notify_one(&self) {
        let mut g = lock_flag(&self.mutex);
        store_flag(&mut g, true);
        wake_one(&self.condvar);
    }

    /// Raises the flag and wakes every sleeper.
    pub fn notify_all(&self) {
        let mut g = lock_flag(&self.mutex);
        store_flag(&mut g, true);
        wake_all(&self.condvar);
    }
}

} // verus!
