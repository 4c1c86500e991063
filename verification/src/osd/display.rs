//! When the volume display shows and hides: each new level shows it and
//! restarts the timer that hides it.

use vstd::prelude::*;

verus! {

/// Whether the display is up, and the hide timer that runs (by its id).
#[derive(Debug, Clone, Copy, PartialEq, Eq, Structural)]
pub struct DisplayState {
    pub visible: bool,
    pub hide_timer: Option<u32>,
}

/// What to do when a new level comes.
#[derive(Debug, Clone, Copy, PartialEq, Eq, Structural)]
pub struct ShowSteps {
    /// Bring the window up: it was hidden.
    pub present: bool,
    /// Cancel this hide timer before starting a new one.
    pub cancel: Option<u32>,
}

impl DisplayState {
    /// Hidden, with no timer.
    pub fn new() -> (r: Self)
        ensures
            r == (DisplayState { visible: false, hide_timer: None }),
    {
        DisplayState { visible: false, hide_timer: None }
    }

    /// A new level came: the window comes up if it was hidden, and the
    /// running hide timer is cancelled.
    pub fn level_received(&mut self) -> (r: ShowSteps)
        ensures
            r == (ShowSteps { present: !old(self).visible, cancel: old(self).hide_timer }),
            *final(self) == (DisplayState { visible: true, hide_timer: None }),
    {
        let steps = ShowSteps { present: !self.visible, cancel: self.hide_timer };
        self.visible = true;
        self.hide_timer = None;
        steps
    }

    /// The new hide timer started.
    pub fn timer_started(&mut self, id: u32)
        ensures
            *final(self) == (DisplayState { hide_timer: Some(id), ..*old(self) }),
    {
        self.hide_timer = Some(id);
    }

    /// The hide timer fired: the window goes.
    pub fn timer_fired(&mut self)
        ensures
            *final(self) == (DisplayState { visible: false, hide_timer: None }),
    {
        self.visible = false;
        self.hide_timer = None;
    }
}

} // verus!
