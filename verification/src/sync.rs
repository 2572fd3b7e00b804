//! What this crate takes on trust from `std::sync`, and it is little: the
//! types are opaque, each function may be called, and nothing is claimed of
//! what a lock guards or of the state in which a wait ends. The blocking queue
//! relies on none of that: it tests the buffer itself, with the lock held,
//! before it reads or writes it.

use vstd::prelude::*;
use std::ops::DerefMut;
use std::sync::{Condvar, LockResult, Mutex, MutexGuard, PoisonError};

verus! {

/// `std::sync::Mutex`, as an opaque type.
#[verifier::external_type_specification]
#[verifier::external_body]
#[verifier::reject_recursive_types(T)]
pub struct ExMutex<T: ?Sized>(Mutex<T>);

/// `std::sync::MutexGuard`, as an opaque type.
#[verifier::external_type_specification]
#[verifier::external_body]
#[verifier::reject_recursive_types(T)]
pub struct ExMutexGuard<'a, T: ?Sized + 'a>(MutexGuard<'a, T>);

/// `std::sync::PoisonError`, as an opaque type.
#[verifier::external_type_specification]
#[verifier::external_body]
#[verifier::reject_recursive_types(T)]
pub struct ExPoisonError<T>(PoisonError<T>);

/// `std::sync::Condvar`, as an opaque type.
#[verifier::external_type_specification]
#[verifier::external_body]
pub struct ExCondvar(Condvar);

/// `Mutex::new` may be called with any value. Nothing is claimed of the mutex
/// it returns.
pub assume_specification<T>[ Mutex::<T>::new ](t: T) -> (m: Mutex<T>);

/// `Mutex::lock` may be called on any mutex. Nothing is claimed of whether it
/// returns the guard or the poison error, nor of what the guard protects.
pub assume_specification<T: ?Sized>[ Mutex::<T>::lock ](m: &Mutex<T>) -> (r: LockResult<
    MutexGuard<'_, T>,
>);

/// `Condvar::new` may always be called. Nothing is claimed of the condition
/// variable it returns.
pub assume_specification[ Condvar::new ]() -> (c: Condvar);

/// `Condvar::notify_one` may be called on any condition variable. It returns
/// nothing, and nothing is claimed of which waiting thread wakes.
pub assume_specification[ Condvar::notify_one ](c: &Condvar);

/// `Condvar::wait_while` calls `condition` on the guarded value, perhaps many
/// times, so `condition` must be callable on every value. Its documentation
/// says that the guard comes back once `condition` has returned `false`; that
/// is not claimed here, nor anything else of the guard or the poison error
/// that comes back.
pub assume_specification<'a, T, F>[ Condvar::wait_while ](
    c: &Condvar,
    guard: MutexGuard<'a, T>,
    condition: F,
) -> (r: LockResult<MutexGuard<'a, T>>) where F: FnMut(&mut T) -> bool
    requires
        forall|t: &mut T| #[trigger] condition.requires((t,)),
;

/// `MutexGuard`'s `deref_mut` may be called on any guard. Nothing is claimed
/// of the value that the reference it returns leads to.
pub assume_specification<'a, 'b, T: ?Sized>[ <MutexGuard<'a, T> as DerefMut>::deref_mut ](
    g: &'b mut MutexGuard<'a, T>,
) -> (r: &'b mut T);

} // verus!
