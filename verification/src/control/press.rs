//! The bluetooth toggle's press handling: a short click switches the radio,
//! a press held long enough opens the device panel instead.

use vstd::prelude::*;

verus! {

/// How long a press must have lasted, in milliseconds, when the check runs
/// (500 ms after it began), to count as a long press.
pub const LONG_PRESS_MS: u64 = 450;

/// What a press event leads to.
#[derive(Debug, Clone, Copy, PartialEq, Eq, Structural)]
pub enum PressOutcome {
    Nothing,
    /// Open the bluetooth device panel.
    ShowPanel,
    /// Switch bluetooth on or off.
    Toggle,
}

/// When the current press began (in milliseconds on a monotonic clock),
/// and whether it turned into a long press.
#[derive(Debug, Clone, Copy, PartialEq, Eq, Structural)]
pub struct PressTracker {
    pub start: Option<u64>,
    pub long_press: bool,
}

/// The tracker after a press began at `now`.
pub open spec fn after_press(now: u64) -> PressTracker {
    PressTracker { start: Some(now), long_press: false }
}

/// The tracker and the outcome when the long-press check runs at `now`: a
/// press still held for at least `LONG_PRESS_MS` becomes a long press and
/// opens the panel.
pub open spec fn after_check(t: PressTracker, now: u64) -> (PressTracker, PressOutcome) {
    match t.start {
        Some(s) => if now >= s && now - s >= LONG_PRESS_MS {
            (PressTracker { long_press: true, ..t }, PressOutcome::ShowPanel)
        } else {
            (t, PressOutcome::Nothing)
        },
        None => (t, PressOutcome::Nothing),
    }
}

/// The tracker and the outcome of a click (the button's release): the
/// press ends, and it switches bluetooth unless it was a long press.
pub open spec fn after_click(t: PressTracker) -> (PressTracker, PressOutcome) {
    (PressTracker { start: None, ..t }, if t.long_press { PressOutcome::Nothing } else { PressOutcome::Toggle })
}

impl PressTracker {
    /// No press under way.
    pub fn new() -> (r: Self)
        ensures
            r == (PressTracker { start: None, long_press: false }),
    {
        PressTracker { start: None, long_press: false }
    }

    /// A press began at `now`.
    pub fn pressed(&mut self, now: u64)
        ensures
            *final(self) == after_press(now),
    {
        self.start = Some(now);
        self.long_press = false;
    }

    /// The long-press check, run at `now`.
    pub fn check(&mut self, now: u64) -> (r: PressOutcome)
        ensures
            (*final(self), r) == after_check(*old(self), now),
    {
        match self.start {
            Some(s) => {
                if now >= s && now - s >= LONG_PRESS_MS {
                    self.long_press = true;
                    PressOutcome::ShowPanel
                } else {
                    PressOutcome::Nothing
                }
            },
            None => PressOutcome::Nothing,
        }
    }

    /// The button was clicked.
    pub fn clicked(&mut self) -> (r: PressOutcome)
        ensures
            (*final(self), r) == after_click(*old(self)),
    {
        let was_long = self.long_press;
        self.start = None;
        if was_long {
            PressOutcome::Nothing
        } else {
            PressOutcome::Toggle
        }
    }
}

/// A short click switches bluetooth: a press whose check finds it shorter
/// than a long press, then a click, toggles.
pub proof fn lemma_short_click_toggles(start: u64, check_at: u64)
    requires
        check_at < start + LONG_PRESS_MS,
    ensures
        after_click(after_check(after_press(start), check_at).0).1 == PressOutcome::Toggle,
{
}

/// A long press opens the panel and the click that ends it does not
/// switch bluetooth.
pub proof fn lemma_long_press_opens_panel(start: u64, check_at: u64)
    requires
        check_at >= start + LONG_PRESS_MS,
    ensures
        after_check(after_press(start), check_at).1 == PressOutcome::ShowPanel,
        after_click(after_check(after_press(start), check_at).0).1 == PressOutcome::Nothing,
{
}

} // verus!
