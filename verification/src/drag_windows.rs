//! Dragging windows by their outlines while a session is viewed.
use vstd::prelude::*;

verus! {

/// How a wait for the desktop ended.
#[derive(Debug, Clone, Copy, PartialEq, Eq, Structural)]
pub enum WaitResult {
    Acquired,
    /// Its owner died; it is taken over.
    Abandoned,
    TimedOut,
    Failed,
}

/// Whether the desktop is owned after a wait for it.
pub fn owns_desktop(result: WaitResult) -> (owns: bool)
    ensures
        owns == (result == WaitResult::Acquired || result == WaitResult::Abandoned),
{
    match result {
        WaitResult::Acquired => true,
        WaitResult::Abandoned => true,
        _ => false,
    }
}

/// The setting to bring back when the session ends.
#[derive(Debug, Clone, Copy, PartialEq, Eq, Structural)]
pub struct OutlineDragging {
    pub original: bool,
}

impl OutlineDragging {
    /// Keeps what was set and turns full windows off. The setting is read only
    /// after the desktop is owned, so that no other helper's is kept.
    pub fn new(setting: &mut bool) -> (dragging: Self)
        ensures
            dragging.original == *old(setting),
            !*final(setting),
    {
        let original = *setting;
        *setting = false;
        OutlineDragging { original }
    }

    /// Brings back what was set.
    pub fn restore(self, setting: &mut bool)
        ensures
            *final(setting) == self.original,
    {
        *setting = self.original;
    }
}

} // verus!
