//! Mutual exclusion with a guard flag.
//!
//! A lock here is a value that owns the data it protects together with a
//! flag saying whether someone holds it. Whoever has the lock value in hand
//! (`&mut`) is the only one who can move the flag, so acquiring succeeds at
//! once: the waiting for other holders happens before a caller gets the
//! lock in hand. A single attempt, `try_lock`, reports whether the flag was
//! free. Releasing a lock that is not held is a programming error and is
//! excluded by the contracts.

use vstd::prelude::*;

verus! {

/// The interface shared by the lock kinds.
pub trait Mutex {
    type Data;

    /// Whether the lock is held.
    spec fn is_locked(&self) -> bool;

    /// Whether releasing the lock now is allowed.
    spec fn may_unlock(&self) -> bool;

    /// The protected value.
    spec fn value(&self) -> Self::Data;

    /// Whether the lock is held, as seen by executable code.
    fn is_held(&self) -> (r: bool)
        ensures
            r == self.is_locked(),
    ;

    /// One attempt at acquiring the lock: succeeds exactly when it was free.
    fn try_lock(&mut self) -> (r: bool)
        ensures
            r == !old(self).is_locked(),
            !r ==> final(self).is_locked(),
            final(self).value() == old(self).value(),
            r ==> final(self).may_unlock(),
    ;

    /// Releases the lock.
    fn unlock(&mut self)
        requires
            old(self).may_unlock(),
        ensures
            !final(self).is_locked(),
            final(self).value() == old(self).value(),
    ;

    /// Read access to the protected value.
    fn get_data(&self) -> (r: &Self::Data)
        ensures
            *r == self.value(),
    ;

    /// Write access to the protected value, for a holder of the lock.
    fn get_data_mut(&mut self) -> (r: &mut Self::Data)
        requires
            old(self).may_unlock(),
        ensures
            *r == old(self).value(),
            final(self).value() == *final(r),
            final(self).is_locked() == old(self).is_locked(),
            final(self).may_unlock(),
    ;
}

/// A lock whose flag moves from free to held only for the one caller that
/// finds it free.
pub struct SpinLock<T> {
    guard: bool,
    data: T,
}

impl<T> SpinLock<T> {
    /// Whether the guard flag is set.
    pub closed spec fn flag(&self) -> bool {
        self.guard
    }

    /// The value behind the lock.
    pub closed spec fn contents(&self) -> T {
        self.data
    }

    /// A free lock around `data`.
    pub fn new(data: T) -> (r: Self)
        ensures
            !r.is_locked(),
            r.value() == data,
    {
        SpinLock { guard: false, data }
    }

    /// Acquires the lock and hands out a guard that releases it when dropped,
    /// on every path out of the guarded scope, unwinding included.
    pub fn lock(&mut self) -> (r: Result<MutexGuard<'_, T>, ()>)
        requires
            !old(self).is_locked(),
        ensures
            r is Ok,
            r is Ok ==> r->Ok_0.lock().is_locked() && r->Ok_0.lock().value() == old(self).value(),
    {
        self.guard = true;
        Ok(MutexGuard::new(self))
    }
}

impl<T> Mutex for SpinLock<T> {
    type Data = T;

    open spec fn is_locked(&self) -> bool {
        self.flag()
    }

    open spec fn may_unlock(&self) -> bool {
        self.flag()
    }

    open spec fn value(&self) -> T {
        self.contents()
    }

    fn is_held(&self) -> (r: bool) {
        self.guard
    }

    fn try_lock(&mut self) -> (r: bool) {
        if self.guard {
            false
        } else {
            self.guard = true;
            true
        }
    }

    fn unlock(&mut self) {
        self.guard = false;
    }

    fn get_data(&self) -> (r: &T) {
        &self.data
    }

    fn get_data_mut(&mut self) -> (r: &mut T) {
        &mut self.data
    }
}

/// A lock that never excludes anyone. It keeps call sites uniform for state
/// that is never contended.
pub struct FakeLock<T> {
    data: T,
}

impl<T> FakeLock<T> {
    /// The value behind the lock.
    pub closed spec fn contents(&self) -> T {
        self.data
    }

    /// A lock around `data`.
    pub fn new(data: T) -> (r: Self)
        ensures
            r.value() == data,
    {
        FakeLock { data }
    }

    /// Hands out access at once: this lock is never contended, so there is
    /// nothing to release afterwards.
    pub fn lock(&mut self) -> (r: Result<&mut T, ()>)
        ensures
            r is Ok,
            r is Ok ==> *r->Ok_0 == old(self).value(),
            r is Ok ==> final(self).value() == *final(r->Ok_0),
    {
        Ok(&mut self.data)
    }
}

impl<T> Mutex for FakeLock<T> {
    type Data = T;

    open spec fn is_locked(&self) -> bool {
        false
    }

    open spec fn may_unlock(&self) -> bool {
        true
    }

    open spec fn value(&self) -> T {
        self.contents()
    }

    fn is_held(&self) -> (r: bool) {
        false
    }

    fn try_lock(&mut self) -> (r: bool) {
        true
    }

    fn unlock(&mut self) {
    }

    fn get_data(&self) -> (r: &T) {
        &self.data
    }

    fn get_data_mut(&mut self) -> (r: &mut T) {
        &mut self.data
    }
}

/// Scoped access to the data of a held [`SpinLock`]. Dropping the guard
/// releases the lock.
pub struct MutexGuard<'a, T> {
    inner: &'a mut SpinLock<T>,
}

impl<'a, T> MutexGuard<'a, T> {
    /// A guard over `inner`.
    pub fn new(inner: &'a mut SpinLock<T>) -> (r: Self)
        ensures
            *r.lock() == *old(inner),
    {
        MutexGuard { inner }
    }

    /// The lock this guard stands for.
    pub closed spec fn lock(&self) -> &SpinLock<T> {
        self.inner
    }

    /// Read access to the protected value.
    pub fn data(&self) -> (r: &T)
        ensures
            *r == self.lock().value(),
    {
        &self.inner.data
    }
}

impl<'a, T> Drop for MutexGuard<'a, T> {
    fn drop(&mut self)
        ensures
            !final(self).lock().is_locked(),
        opens_invariants none
        no_unwind
    {
        self.inner.guard = false;
    }
}

} // verus!
