//! How a call ends: done, or refused with nothing changed.

use vstd::prelude::*;

verus! {

/// The call was refused for the reason `why`, and what it was made on is as
/// it was.
pub open spec fn refused<S, T, E>(before: S, now: S, r: Result<T, E>, why: E) -> bool {
    r == Err::<T, E>(why) && now == before
}

/// The call was done: it returned `value`, and what it was made on is now in
/// the state `after`.
pub open spec fn done<V, T, E>(now: V, r: Result<T, E>, after: V, value: T) -> bool {
    r == Ok::<T, E>(value) && now == after
}

} // verus!
