//! State attached to windows and displays, and global flags of the window
//! manager, as plain values.
use vstd::prelude::*;
use crate::text::{signed_decimal_string, spec_signed_decimal};

verus! {

/// Why a window is outside the tiling layout.
#[derive(Clone, Copy, Debug, PartialEq, Eq, Structural)]
pub enum Unmanaged {
    /// The window is floating and not part of the tiling layout.
    Floating,
    /// The window is minimized.
    Minimized,
    /// The window is hidden.
    Hidden,
}

/// Where the Dock sits on a display, with its size in pixels.
#[derive(Clone, Copy, Debug, PartialEq, Eq, Structural)]
pub enum DockPosition {
    Bottom(i32),
    Left(i32),
    Right(i32),
    Hidden,
}

/// Whether window reshuffling should be skipped.
#[derive(Clone, Copy, Debug, PartialEq, Eq, Structural)]
pub struct SkipReshuffle(pub bool);

/// Whether Mission Control is currently active.
#[derive(Clone, Copy, Debug, PartialEq, Eq, Structural)]
pub struct MissionControlActive(pub bool);

/// Present while the window manager is still gathering the existing
/// processes and windows.
#[derive(Clone, Copy, Debug, PartialEq, Eq, Structural)]
pub struct Initializing;

/// The Dock's position as text: `bottom(N)`, `left(N)`, `right(N)` or `hidden`.
pub open spec fn spec_dock_label(d: DockPosition) -> Seq<char> {
    match d {
        DockPosition::Bottom(px) => "bottom("@ + spec_signed_decimal(px as int) + ")"@,
        DockPosition::Left(px) => "left("@ + spec_signed_decimal(px as int) + ")"@,
        DockPosition::Right(px) => "right("@ + spec_signed_decimal(px as int) + ")"@,
        DockPosition::Hidden => "hidden"@,
    }
}

fn labelled(name: &str, px: i32) -> (s: String)
    ensures
        s@ == name@ + spec_signed_decimal(px as int) + ")"@,
{
    let mut s = String::from_str(name);
    let n = signed_decimal_string(px as i64);
    s.append(n.as_str());
    s.append(")");
    s
}

impl DockPosition {
    /// The Dock's position as text, as the state snapshot reports it.
    pub fn label(&self) -> (s: String)
        ensures
            s@ == spec_dock_label(*self),
    {
        match self {
            DockPosition::Bottom(px) => labelled("bottom(", *px),
            DockPosition::Left(px) => labelled("left(", *px),
            DockPosition::Right(px) => labelled("right(", *px),
            DockPosition::Hidden => String::from_str("hidden"),
        }
    }
}

} // verus!
