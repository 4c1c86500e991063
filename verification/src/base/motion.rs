//! The slide animations of the widget windows: their direction, the edge
//! they move along, where they start or end, and their timing. The easing
//! curve itself is computed in floating point by the caller.

use vstd::prelude::*;
use crate::text::str_eq;

verus! {

/// The number of frames of a slide.
pub const ANIMATION_STEPS: u32 = 30;

/// The direction a window slides in.
#[derive(Debug, Clone, Copy, PartialEq, Eq, Structural)]
pub enum Direction {
    Down,
    Up,
    Left,
    Right,
}

/// A window edge.
#[derive(Debug, Clone, Copy, PartialEq, Eq, Structural)]
pub enum Edge {
    Top,
    Bottom,
    Left,
    Right,
}

/// The direction a window opens in, from the configured name: `up`, `left`
/// where the widget slides sideways, else down.
pub open spec fn opening(name: Seq<char>, sideways: bool) -> Direction {
    if name == "up"@ {
        Direction::Up
    } else if sideways && name == "left"@ {
        Direction::Left
    } else {
        Direction::Down
    }
}

/// The direction a window closes in: a window that came down goes back
/// up; one that came from the left goes back left where the widget slides
/// sideways; others go down.
pub open spec fn closing(name: Seq<char>, sideways: bool) -> Direction {
    if name == "down"@ {
        Direction::Up
    } else if sideways && name == "left"@ {
        Direction::Left
    } else {
        Direction::Down
    }
}

/// The opening direction for a configured name.
pub fn opening_direction(name: &str, sideways: bool) -> (r: Direction)
    ensures
        r == opening(name@, sideways),
{
    if str_eq(name, "up") {
        Direction::Up
    } else if sideways && str_eq(name, "left") {
        Direction::Left
    } else {
        Direction::Down
    }
}

/// The closing direction for a configured name.
pub fn closing_direction(name: &str, sideways: bool) -> (r: Direction)
    ensures
        r == closing(name@, sideways),
{
    if str_eq(name, "down") {
        Direction::Up
    } else if sideways && str_eq(name, "left") {
        Direction::Left
    } else {
        Direction::Down
    }
}

/// The edge a window slides in from, and the margin it starts at, off
/// screen.
pub fn slide_in_start(direction: Direction) -> (r: (Edge, i32))
    ensures
        r == (match direction {
            Direction::Down => (Edge::Top, -400i32),
            Direction::Up => (Edge::Bottom, -400i32),
            Direction::Left => (Edge::Left, -400i32),
            Direction::Right => (Edge::Right, -400i32),
        }),
{
    match direction {
        Direction::Down => (Edge::Top, -400),
        Direction::Up => (Edge::Bottom, -400),
        Direction::Left => (Edge::Left, -400),
        Direction::Right => (Edge::Right, -400),
    }
}

/// The edge a window slides out along, and the margin it ends at.
pub fn slide_out_end(direction: Direction) -> (r: (Edge, i32))
    ensures
        r == (match direction {
            Direction::Down => (Edge::Top, 400i32),
            Direction::Up => (Edge::Top, -400i32),
            Direction::Left => (Edge::Left, -400i32),
            Direction::Right => (Edge::Left, 400i32),
        }),
{
    match direction {
        Direction::Down => (Edge::Top, 400),
        Direction::Up => (Edge::Top, -400),
        Direction::Left => (Edge::Left, -400),
        Direction::Right => (Edge::Left, 400),
    }
}

/// The time between two frames of a slide lasting `duration_ms`.
pub fn step_duration(duration_ms: u64) -> (r: u64)
    ensures
        r == duration_ms / (ANIMATION_STEPS as u64),
{
    duration_ms / (ANIMATION_STEPS as u64)
}

/// Whether the frame just drawn (counting from 0) is the last one.
pub fn is_last_frame(frame: u32) -> (r: bool)
    ensures
        r == (frame + 1 >= ANIMATION_STEPS),
{
    frame >= ANIMATION_STEPS - 1
}

/// Where the top margin of a popup that only slides up or down starts:
/// above the screen when it comes down, below it when it comes up.
pub fn vertical_slide_in_start(up: bool) -> (r: i32)
    ensures
        r == (if up { 300i32 } else { -300i32 }),
{
    if up {
        300
    } else {
        -300
    }
}

/// Where the top margin of such a popup ends when it slides out: above the
/// screen when it goes up, below it when it goes down.
pub fn vertical_slide_out_end(up: bool) -> (r: i32)
    ensures
        r == (if up { -300i32 } else { 300i32 }),
{
    if up {
        -300
    } else {
        300
    }
}

/// A slide along the top edge: its number of frames and the margins it
/// goes from and to.
#[derive(Debug, Clone, Copy, PartialEq, Eq, Structural)]
pub struct Slide {
    pub frames: u32,
    pub from: i32,
    pub to: i32,
}

/// The notification panel comes down from 200 above the screen in 20
/// frames.
pub fn panel_slide_in(final_margin: i32) -> (r: Slide)
    ensures
        r == (Slide { frames: 20, from: -200i32, to: final_margin }),
{
    Slide { frames: 20, from: -200, to: final_margin }
}

/// The notification panel goes back up to 200 above the screen in 15
/// frames.
pub fn panel_slide_out(start: i32) -> (r: Slide)
    ensures
        r == (Slide { frames: 15, from: start, to: -200i32 }),
{
    Slide { frames: 15, from: start, to: -200 }
}

/// A popup comes down from 100 above the screen in 20 frames.
pub fn popup_slide_in(final_margin: i32) -> (r: Slide)
    ensures
        r == (Slide { frames: 20, from: -100i32, to: final_margin }),
{
    Slide { frames: 20, from: -100, to: final_margin }
}

/// A popup drops by 50 as it fades, in 15 frames.
pub fn popup_slide_out(start: i32) -> (r: Slide)
    requires
        start + 50 <= i32::MAX,
    ensures
        r == (Slide { frames: 15, from: start, to: (start + 50) as i32 }),
{
    Slide { frames: 15, from: start, to: start + 50 }
}

/// The time between frames of a slide of `frames` frames lasting
/// `duration_ms`.
pub fn frame_interval(duration_ms: u64, frames: u32) -> (r: u64)
    requires
        frames > 0,
    ensures
        r == duration_ms / (frames as u64),
{
    duration_ms / (frames as u64)
}

/// Whether frame `frame` (counting from 0) ends a slide of `frames`
/// frames.
pub fn ends_slide(frame: u32, frames: u32) -> (r: bool)
    ensures
        r == (frame + 1 >= frames),
{
    frame >= frames || frames - frame <= 1
}

} // verus!
