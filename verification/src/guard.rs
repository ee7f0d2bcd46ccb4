//! The admission guard: at most one running command per user.
//!
//! The guard keeps, for each user with a command under way, the moment at
//! which that command was admitted. A user whose record is younger than the
//! debounce window is refused; a record is removed when a command of that
//! user ends, whichever command wrote it.

use std::collections::HashMap;
use vstd::prelude::*;

verus! {

/// Length of the debounce window in milliseconds.
pub const DEBOUNCE_MILLIS: u64 = 4000;

/// Whether a record written at `since` is still inside the window at `now`.
/// A record from the future counts as fresh.
pub open spec fn within_window(since: u64, now: u64) -> bool {
    now - since < DEBOUNCE_MILLIS
}

/// Whether `user` is held back at `now` by the records `m`.
pub open spec fn executing(m: Map<u64, u64>, user: u64, now: u64) -> bool {
    m.contains_key(user) && within_window(m[user], now)
}

/// The records after a command of `user` was admitted at `now`.
pub open spec fn recorded(m: Map<u64, u64>, user: u64, now: u64) -> Map<u64, u64> {
    m.insert(user, now)
}

/// The records after a command of `user` ended.
pub open spec fn released(m: Map<u64, u64>, user: u64) -> Map<u64, u64> {
    m.remove(user)
}

/// For each user with a command under way, the time of its admission in
/// milliseconds on a clock that never runs backwards.
pub struct AdmissionGuard {
    started: HashMap<u64, u64>,
}

impl View for AdmissionGuard {
    type V = Map<u64, u64>;

    closed spec fn view(&self) -> Map<u64, u64> {
        self.started@
    }
}

impl AdmissionGuard {
    /// A guard that holds nobody back.
    pub fn new() -> (r: Self)
        ensures
            r@ == Map::<u64, u64>::empty(),
    {
        AdmissionGuard { started: HashMap::new() }
    }

    /// Whether a command of `user` was admitted less than the debounce window
    /// before `now` and has not ended since.
    pub fn check_executing(&self, user: u64, now: u64) -> (r: bool)
        ensures
            r == executing(self@, user, now),
    {
        broadcast use vstd::std_specs::hash::group_hash_axioms;

        match self.started.get(&user) {
            Some(since) => now < *since || now - *since < DEBOUNCE_MILLIS,
            None => false,
        }
    }

    /// Records that a command of `user` was admitted at `now`, in place of any
    /// earlier record of that user.
    pub fn set_executing(&mut self, user: u64, now: u64)
        ensures
            final(self)@ == recorded(old(self)@, user, now),
    {
        broadcast use vstd::std_specs::hash::group_hash_axioms;

        self.started.insert(user, now);
    }

    /// Removes the record of `user`, whichever command wrote it.
    pub fn drop_executing(&mut self, user: u64)
        ensures
            final(self)@ == released(old(self)@, user),
    {
        broadcast use vstd::std_specs::hash::group_hash_axioms;

        self.started.remove(&user);
    }
}

/// Single flight: once a command of `user` is admitted at `first`, a second
/// one that arrives inside the window is refused while the first runs. Once
/// the first has ended, the next one is admitted at whatever time it arrives,
/// inside the window too.
pub proof fn law_single_flight(m: Map<u64, u64>, user: u64, first: u64, second: u64, third: u64)
    requires
        within_window(first, second),
    ensures
        executing(recorded(m, user, first), user, second),
        !executing(released(recorded(m, user, first), user), user, third),
{
}

/// The release is blind: when two commands of one user run at once, the end of
/// either removes the record that the other relies on, and the user is
/// admitted again.
pub proof fn law_release_is_unconditional(
    m: Map<u64, u64>,
    user: u64,
    slow: u64,
    fast: u64,
    now: u64,
)
    ensures
        !executing(released(recorded(recorded(m, user, slow), user, fast), user), user, now),
{
}

/// The guard keeps users apart: admitting or releasing one user changes
/// nothing for another.
pub proof fn law_users_independent(m: Map<u64, u64>, user: u64, other: u64, at: u64, now: u64)
    requires
        user != other,
    ensures
        executing(recorded(m, user, at), other, now) == executing(m, other, now),
        executing(released(m, user), other, now) == executing(m, other, now),
{
}

} // verus!
