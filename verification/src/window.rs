//! The top-level window handle. The interactive frame loop, raw-mode
//! terminal setup and input polling live outside the library; this type is
//! the anchor they hang off.
use vstd::prelude::*;

verus! {

/// A handle for one interactive rendering session.
pub struct Window {}

impl Window {
    /// Creates the default window handle.
    pub fn default() -> (w: Self)
        ensures
            w == (Window {  }),
    {
        Window {  }
    }
}

} // verus!
