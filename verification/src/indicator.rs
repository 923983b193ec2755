//! The sign that a conversion runs, as the platform shows it.

use vstd::prelude::*;

verus! {

/// The sign that a conversion runs; it is shown anew only where it changes.
#[derive(Debug, Clone, Copy, PartialEq, Eq, Structural)]
pub struct PlatformIndicator {
    /// What is shown, once something is.
    pub converting: Option<bool>,
}

impl Default for PlatformIndicator {
    fn default() -> (r: Self)
        ensures
            r == (PlatformIndicator { converting: None }),
    {
        PlatformIndicator { converting: None }
    }
}

impl PlatformIndicator {
    /// Notes whether a conversion runs, and says whether the sign has to be shown anew.
    pub fn set_converting(&mut self, converting: bool) -> (r: bool)
        ensures
            *final(self) == (PlatformIndicator { converting: Some(converting) }),
            r == (old(self).converting != Some(converting)),
    {
        let shown = match self.converting {
            Some(shown) => shown == converting,
            None => false,
        };
        self.converting = Some(converting);
        !shown
    }
}

} // verus!
