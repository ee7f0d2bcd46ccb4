//! Hooks: interceptors that run before a command and may stop it.

use vstd::prelude::*;

verus! {

/// What a hook decides.
#[derive(Clone, Copy, PartialEq, Eq, Structural, Debug)]
pub enum HookResult {
    /// Go on with the next hook, or with the command.
    Continue,
    /// Stop here: nothing more runs for this invocation.
    Halt,
}

/// A registered hook, known by its number alone. Two hooks are the same hook
/// exactly when their numbers agree.
#[derive(Clone, Copy, PartialEq, Eq, Structural, Debug)]
pub struct Hook {
    pub uuid: u128,
}

} // verus!
