//! What was done to a value that a lock guards.

use vstd::prelude::*;
use vstd::rwlock::{RwLock, RwLockPredicate, WriteHandle};

verus! {

/// The lock gave out what it guards.
pub open spec fn was_taken<V, P: RwLockPredicate<V>>(
    lock: RwLock<V, P>,
    value: V,
    handle: WriteHandle<'_, V, P>,
) -> bool {
    call_ensures(RwLock::<V, P>::acquire_write, (&lock,), (value, handle))
}

/// What the lock guards was taken as it was before, and put back as it is
/// after.
pub open spec fn was_swapped<V, P: RwLockPredicate<V>>(
    lock: RwLock<V, P>,
    before: V,
    after: V,
) -> bool {
    exists|handle: WriteHandle<'_, V, P>| #[trigger]
        was_taken(lock, before, handle) && call_ensures(
            WriteHandle::<'_, V, P>::release_write,
            (handle, after),
            (),
        )
}

/// The lock was made around this value.
pub open spec fn was_made<V, P: RwLockPredicate<V>>(lock: RwLock<V, P>, value: V) -> bool {
    exists|bounds: Ghost<P>| #[trigger]
        call_ensures(RwLock::<V, P>::new, (value, bounds), lock)
}

} // verus!
