//! The host's menu view, as a plugin may drive it.
//!
//! A plugin can ask the view to reload its entries when more information
//! has become available.  Reloading is lazy: requests only raise a flag,
//! several requests coalesce, and the host clears the flag when it
//! performs the reload.

use vstd::prelude::*;

verus! {

/// The reload state of the menu view.
pub struct RofiViewState {
    /// Whether a reload was requested and not yet performed.
    pub reload_pending: bool,
}

impl RofiViewState {
    /// A view with no reload pending.
    pub fn new() -> (r: Self)
        ensures
            !r.reload_pending,
    {
        RofiViewState { reload_pending: false }
    }

    /// Asks the view to reload its data.  Requests coalesce: asking any
    /// number of times leaves one pending reload.
    pub fn reload(&mut self)
        ensures
            final(self).reload_pending,
    {
        self.reload_pending = true;
    }

    /// The host takes the pending request, if any, and clears it.
    pub fn take_reload(&mut self) -> (r: bool)
        ensures
            r == old(self).reload_pending,
            !final(self).reload_pending,
    {
        let r = self.reload_pending;
        self.reload_pending = false;
        r
    }
}

} // verus!
