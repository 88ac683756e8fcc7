//! Coalescing of save requests: many requests while a save is pending lead to a
//! single save.
use vstd::prelude::*;

verus! {

/// Whether a save has been requested and not yet taken by a saver.
#[derive(Debug)]
pub struct SaveCoalescer {
    pending: bool,
}

impl View for SaveCoalescer {
    type V = bool;

    closed spec fn view(&self) -> bool {
        self.pending
    }
}

impl SaveCoalescer {
    /// No save pending.
    pub fn new() -> (c: SaveCoalescer)
        ensures
            !c@,
    {
        SaveCoalescer { pending: false }
    }

    /// Registers a save request. Tells whether the caller must start a saver:
    /// only when no save was pending already.
    pub fn request(&mut self) -> (start_saver: bool)
        ensures
            final(self)@,
            start_saver == !old(self)@,
    {
        let was = self.pending;
        self.pending = true;
        !was
    }

    /// A saver takes the pending request: tells whether there was one to save, and
    /// leaves none pending.
    pub fn take(&mut self) -> (must_save: bool)
        ensures
            !final(self)@,
            must_save == old(self)@,
    {
        let was = self.pending;
        self.pending = false;
        was
    }

    /// Whether a save is pending.
    pub fn is_pending(&self) -> (b: bool)
        ensures
            b == self@,
    {
        self.pending
    }
}

} // verus!
