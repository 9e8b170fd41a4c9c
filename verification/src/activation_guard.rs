//! One-shot flag that lets the next application activation skip the
//! "restore and show every window" step.

use vstd::prelude::*;

verus! {

/// Remembers whether the next activation edge should be swallowed.
#[derive(Clone, Copy, Debug)]
pub struct ActivationGuard {
    suppress_once: bool,
}

impl ActivationGuard {
    /// Whether a suppression is pending.
    pub closed spec fn pending(&self) -> bool {
        self.suppress_once
    }

    /// A guard with nothing pending.
    pub fn new() -> (guard: Self)
        ensures
            !guard.pending(),
    {
        ActivationGuard { suppress_once: false }
    }

    /// Reads the flag without consuming it.
    pub fn is_pending(&self) -> (pending: bool)
        ensures
            pending == self.pending(),
    {
        self.suppress_once
    }
}

impl Default for ActivationGuard {
    fn default() -> (guard: Self)
        ensures
            !guard.pending(),
    {
        ActivationGuard::new()
    }
}

/// Arms the guard: the next activation edge will not restore the windows.
pub fn suppress_next_activation_restore(guard: &mut ActivationGuard)
    ensures
        final(guard).pending(),
{
    guard.suppress_once = true;
}

/// Consumes the pending suppression, if any. A `true` result tells the caller
/// to skip restoring the windows this one time.
pub fn take_suppression(guard: &mut ActivationGuard) -> (suppressed: bool)
    ensures
        suppressed == old(guard).pending(),
        !final(guard).pending(),
{
    let was: bool = guard.suppress_once;
    guard.suppress_once = false;
    was
}

} // verus!
