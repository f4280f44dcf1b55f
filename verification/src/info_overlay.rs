//! The help overlay: shown to new players (or on request from the
//! host's system menu) and dismissed by any input.

use vstd::prelude::*;

verus! {

#[derive(Debug)]
pub struct InfoOverlay {
    visible: bool,
}

impl InfoOverlay {
    pub closed spec fn spec_visible(&self) -> bool {
        self.visible
    }

    pub fn new(visible_initially: bool) -> (r: InfoOverlay)
        ensures
            r.spec_visible() == visible_initially,
    {
        InfoOverlay { visible: visible_initially }
    }

    pub fn show(&mut self)
        ensures
            final(self).spec_visible(),
    {
        self.visible = true;
    }

    /// Any input while visible hides the overlay.
    pub fn update(&mut self, any_input: bool)
        ensures
            final(self).spec_visible() == (old(self).spec_visible() && !any_input),
    {
        if self.visible {
            if any_input {
                self.visible = false;
            }
        }
    }
}

} // verus!
