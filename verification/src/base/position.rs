//! Screen positions of widgets and the layer-shell edges they anchor to.

use vstd::prelude::*;
use crate::text::{lowercase, str_eq, to_lowercase};

verus! {

/// Widget positioning on screen.
#[derive(Debug, Clone, Copy, PartialEq, Eq, Structural)]
pub enum Position {
    TopLeft,
    TopCenter,
    TopRight,
    BottomLeft,
    BottomCenter,
    BottomRight,
    Center,
    CenterLeft,
    CenterRight,
}

impl Default for Position {
    fn default() -> (r: Self)
        ensures
            r == Position::TopRight,
    {
        Position::TopRight
    }
}

/// The position a lower-cased name stands for; top right for any other.
pub open spec fn position_named(s: Seq<char>) -> Position {
    if s == "top-left"@ || s == "topleft"@ {
        Position::TopLeft
    } else if s == "top-center"@ || s == "topcenter"@ || s == "top"@ {
        Position::TopCenter
    } else if s == "top-right"@ || s == "topright"@ {
        Position::TopRight
    } else if s == "bottom-left"@ || s == "bottomleft"@ {
        Position::BottomLeft
    } else if s == "bottom-center"@ || s == "bottomcenter"@ || s == "bottom"@ {
        Position::BottomCenter
    } else if s == "bottom-right"@ || s == "bottomright"@ {
        Position::BottomRight
    } else if s == "center"@ {
        Position::Center
    } else if s == "center-left"@ || s == "centerleft"@ || s == "left"@ {
        Position::CenterLeft
    } else if s == "center-right"@ || s == "centerright"@ || s == "right"@ {
        Position::CenterRight
    } else {
        Position::TopRight
    }
}

/// The layer-shell edges a window is anchored to.
#[derive(Debug, Clone, Copy, PartialEq, Eq, Structural)]
pub struct Anchors {
    pub top: bool,
    pub bottom: bool,
    pub left: bool,
    pub right: bool,
}

/// The anchors with the given edges set.
pub open spec fn edges(top: bool, bottom: bool, left: bool, right: bool) -> Anchors {
    Anchors { top, bottom, left, right }
}

/// The edges a position anchors to; the centre anchors to none.
pub open spec fn position_edges(p: Position) -> Anchors {
    match p {
        Position::TopLeft => edges(true, false, true, false),
        Position::TopCenter => edges(true, false, false, false),
        Position::TopRight => edges(true, false, false, true),
        Position::BottomLeft => edges(false, true, true, false),
        Position::BottomCenter => edges(false, true, false, false),
        Position::BottomRight => edges(false, true, false, true),
        Position::Center => edges(false, false, false, false),
        Position::CenterLeft => edges(false, false, true, false),
        Position::CenterRight => edges(false, false, false, true),
    }
}

impl Position {
    /// The position named by a lower-cased name.
    pub fn from_lowercase(s: &str) -> (r: Position)
        ensures
            r == position_named(s@),
    {
        if str_eq(s, "top-left") || str_eq(s, "topleft") {
            Position::TopLeft
        } else if str_eq(s, "top-center") || str_eq(s, "topcenter") || str_eq(s, "top") {
            Position::TopCenter
        } else if str_eq(s, "top-right") || str_eq(s, "topright") {
            Position::TopRight
        } else if str_eq(s, "bottom-left") || str_eq(s, "bottomleft") {
            Position::BottomLeft
        } else if str_eq(s, "bottom-center") || str_eq(s, "bottomcenter") || str_eq(s, "bottom") {
            Position::BottomCenter
        } else if str_eq(s, "bottom-right") || str_eq(s, "bottomright") {
            Position::BottomRight
        } else if str_eq(s, "center") {
            Position::Center
        } else if str_eq(s, "center-left") || str_eq(s, "centerleft") || str_eq(s, "left") {
            Position::CenterLeft
        } else if str_eq(s, "center-right") || str_eq(s, "centerright") || str_eq(s, "right") {
            Position::CenterRight
        } else {
            Position::TopRight
        }
    }

    /// The position a name stands for, in any letter case; top right for
    /// an unknown name.
    pub fn from_str(s: &str) -> (r: Position)
        ensures
            r == position_named(lowercase(s@)),
    {
        let lower = to_lowercase(s);
        Position::from_lowercase(lower.as_str())
    }

    /// The edges this position anchors a window to.
    pub fn anchors(&self) -> (r: Anchors)
        ensures
            r == position_edges(*self),
    {
        match self {
            Position::TopLeft => Anchors { top: true, bottom: false, left: true, right: false },
            Position::TopCenter => Anchors { top: true, bottom: false, left: false, right: false },
            Position::TopRight => Anchors { top: true, bottom: false, left: false, right: true },
            Position::BottomLeft => Anchors { top: false, bottom: true, left: true, right: false },
            Position::BottomCenter => Anchors { top: false, bottom: true, left: false, right: false },
            Position::BottomRight => Anchors { top: false, bottom: true, left: false, right: true },
            Position::Center => Anchors { top: false, bottom: false, left: false, right: false },
            Position::CenterLeft => Anchors { top: false, bottom: false, left: true, right: false },
            Position::CenterRight => Anchors { top: false, bottom: false, left: false, right: true },
        }
    }
}

/// The edges a configured anchor name selects in a widget's window: the
/// six corner and edge names always; `center` (no edge) where the widget
/// accepts it; `center-left` and `center-right` where it accepts those;
/// the widget's own fallback for any other name.
pub open spec fn anchor_edges(name: Seq<char>, accepts_center: bool, accepts_sides: bool, fallback: Anchors) -> Anchors {
    if name == "top-left"@ {
        edges(true, false, true, false)
    } else if name == "top-center"@ {
        edges(true, false, false, false)
    } else if name == "top-right"@ {
        edges(true, false, false, true)
    } else if name == "bottom-left"@ {
        edges(false, true, true, false)
    } else if name == "bottom-center"@ {
        edges(false, true, false, false)
    } else if name == "bottom-right"@ {
        edges(false, true, false, true)
    } else if accepts_center && name == "center"@ {
        edges(false, false, false, false)
    } else if accepts_sides && name == "center-left"@ {
        edges(false, false, true, false)
    } else if accepts_sides && name == "center-right"@ {
        edges(false, false, false, true)
    } else {
        fallback
    }
}

/// The edges for a configured anchor name.
pub fn edges_for_anchor(name: &str, accepts_center: bool, accepts_sides: bool, fallback: Anchors) -> (r:
    Anchors)
    ensures
        r == anchor_edges(name@, accepts_center, accepts_sides, fallback),
{
    if str_eq(name, "top-left") {
        Anchors { top: true, bottom: false, left: true, right: false }
    } else if str_eq(name, "top-center") {
        Anchors { top: true, bottom: false, left: false, right: false }
    } else if str_eq(name, "top-right") {
        Anchors { top: true, bottom: false, left: false, right: true }
    } else if str_eq(name, "bottom-left") {
        Anchors { top: false, bottom: true, left: true, right: false }
    } else if str_eq(name, "bottom-center") {
        Anchors { top: false, bottom: true, left: false, right: false }
    } else if str_eq(name, "bottom-right") {
        Anchors { top: false, bottom: true, left: false, right: true }
    } else if accepts_center && str_eq(name, "center") {
        Anchors { top: false, bottom: false, left: false, right: false }
    } else if accepts_sides && str_eq(name, "center-left") {
        Anchors { top: false, bottom: false, left: true, right: false }
    } else if accepts_sides && str_eq(name, "center-right") {
        Anchors { top: false, bottom: false, left: false, right: true }
    } else {
        fallback
    }
}


/// The name a position has in the configuration files (kebab case).
pub open spec fn config_name(p: Position) -> Seq<char> {
    match p {
        Position::TopLeft => "top-left"@,
        Position::TopCenter => "top-center"@,
        Position::TopRight => "top-right"@,
        Position::BottomLeft => "bottom-left"@,
        Position::BottomCenter => "bottom-center"@,
        Position::BottomRight => "bottom-right"@,
        Position::Center => "center"@,
        Position::CenterLeft => "center-left"@,
        Position::CenterRight => "center-right"@,
    }
}

/// Each position's configuration name, which is lower case already, is
/// read back as that position.
pub proof fn lemma_config_name_round_trip(p: Position)
    ensures
        position_named(config_name(p)) == p,
{
    reveal_strlit("top-left");
    reveal_strlit("topleft");
    reveal_strlit("top-center");
    reveal_strlit("topcenter");
    reveal_strlit("top");
    reveal_strlit("top-right");
    reveal_strlit("topright");
    reveal_strlit("bottom-left");
    reveal_strlit("bottomleft");
    reveal_strlit("bottom-center");
    reveal_strlit("bottomcenter");
    reveal_strlit("bottom");
    reveal_strlit("bottom-right");
    reveal_strlit("bottomright");
    reveal_strlit("center");
    reveal_strlit("center-left");
    reveal_strlit("centerleft");
    reveal_strlit("left");
    reveal_strlit("center-right");
    reveal_strlit("centerright");
    reveal_strlit("right");
    assert("top-left"@.len() == 8);
    assert("topleft"@.len() == 7);
    assert("top-center"@.len() == 10);
    assert("topcenter"@.len() == 9);
    assert("top"@.len() == 3);
    assert("top-right"@.len() == 9);
    assert("topright"@.len() == 8);
    assert("bottom-left"@.len() == 11);
    assert("bottomleft"@.len() == 10);
    assert("bottom-center"@.len() == 13);
    assert("bottomcenter"@.len() == 12);
    assert("bottom"@.len() == 6);
    assert("bottom-right"@.len() == 12);
    assert("bottomright"@.len() == 11);
    assert("center"@.len() == 6);
    assert("center-left"@.len() == 11);
    assert("centerleft"@.len() == 10);
    assert("left"@.len() == 4);
    assert("center-right"@.len() == 12);
    assert("centerright"@.len() == 11);
    assert("right"@.len() == 5);
    let n = config_name(p);
    match p {
        Position::TopRight => {
            assert(n[3] != "topcenter"@[3]);
            assert(n != "topcenter"@);
            assert("top-center"@.len() == 10);
            assert(n.len() == 9);
            assert(n != "top-center"@);
            assert(n != "top-left"@);
            assert(n != "topleft"@);
            assert(n != "top"@);
            assert(n == "top-right"@);
            assert(position_named(n) == Position::TopRight);
        },
        Position::BottomRight => {
            assert(n[6] != "bottomcenter"@[6]);
        },
        Position::Center => {
            assert(n[0] != "bottom"@[0]);
        },
        Position::CenterLeft => {
            assert(n[0] != "bottom-left"@[0]);
            assert(n[0] != "bottomright"@[0]);
        },
        Position::CenterRight => {
            assert(n[0] != "bottomcenter"@[0]);
            assert(n[0] != "bottom-right"@[0]);
        },
        Position::TopLeft => {},
        Position::TopCenter => {
            assert(n != "top-left"@ && n != "topleft"@);
        },
        Position::BottomLeft => {
            assert(n.len() == 11);
            assert(n != "top-left"@ && n != "topleft"@ && n != "top-center"@ && n != "topcenter"@ && n != "top"@);
            assert(n != "top-right"@ && n != "topright"@);
        },
        Position::BottomCenter => {
            assert(n.len() == 13);
            assert(n != "top-left"@ && n != "topleft"@ && n != "top-center"@ && n != "topcenter"@ && n != "top"@);
            assert(n != "top-right"@ && n != "topright"@ && n != "bottom-left"@ && n != "bottomleft"@);
        },
    }
    assert(position_named(n) == p);
}
} // verus!
