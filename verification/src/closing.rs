use vstd::prelude::*;

use crate::errors::SyncError;

verus! {

/// Process-wide shutdown token, owned explicitly by the caller and passed by
/// reference into every fetch entry point. Once set it is never cleared.
pub struct ClosingFlag {
    closed: bool,
}

impl ClosingFlag {
    /// Whether the process has been asked to shut down.
    pub closed spec fn is_closed(&self) -> bool {
        self.closed
    }

    /// A fresh token: not yet closed.
    pub fn new() -> (r: ClosingFlag)
        ensures
            !r.is_closed(),
    {
        ClosingFlag { closed: false }
    }
}

/// Fails fast with `Closed` exactly when the token has been set, so that no
/// new network operation is started during shutdown.
pub fn err_if_closed(flag: &ClosingFlag) -> (r: Result<(), SyncError>)
    ensures
        r is Ok <==> !flag.is_closed(),
        r is Err ==> r->Err_0 is Closed,
{
    if flag.closed {
        Err(SyncError::Closed)
    } else {
        Ok(())
    }
}

/// Sets the token; returns true only for the first close, so the caller can
/// run once-only shutdown work (and escalate on a second request).
pub fn close(flag: &mut ClosingFlag) -> (r: bool)
    ensures
        final(flag).is_closed(),
        r == !old(flag).is_closed(),
{
    let was = flag.closed;
    flag.closed = true;
    !was
}

} // verus!
