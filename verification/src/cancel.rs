use vstd::prelude::*;

verus! {

/// The process-wide cancellation signal, modelled as a latch: it moves once
/// from "not cancelled" to "cancelled" and never resets. Tasks observe it
/// cooperatively at their blocking points.
#[derive(Clone, Copy, Debug, PartialEq, Eq, Structural)]
pub struct CancelFlag {
    pub cancelled: bool,
}

/// The state a cancellation signal has after `cancel`, whatever it held
/// before.
pub open spec fn after_cancel(f: CancelFlag) -> CancelFlag {
    CancelFlag { cancelled: true }
}

impl CancelFlag {
    /// Whether the signal has been raised.
    pub open spec fn spec_cancelled(&self) -> bool {
        self.cancelled
    }

    /// A fresh signal: not yet cancelled.
    pub fn new() -> (r: Self)
        ensures
            !r.spec_cancelled(),
    {
        CancelFlag { cancelled: false }
    }

    /// Raises the signal. The new state is `after_cancel` of the old one,
    /// so the outcome does not depend on how often this is called.
    pub fn cancel(&mut self)
        ensures
            *final(self) == after_cancel(*old(self)),
            final(self).spec_cancelled(),
    {
        self.cancelled = true;
    }

    /// Reads the signal.
    pub fn is_cancelled(&self) -> (r: bool)
        ensures
            r == self.spec_cancelled(),
    {
        self.cancelled
    }
}

/// Cancellation is idempotent: signalling twice leaves the signal exactly
/// as signalling once does, so tasks observe the same state either way.
pub proof fn lemma_cancel_idempotent(f: CancelFlag)
    ensures
        after_cancel(after_cancel(f)) == after_cancel(f),
        after_cancel(f).spec_cancelled(),
{
}

} // verus!
