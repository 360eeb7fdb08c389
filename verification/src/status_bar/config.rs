//! Status bar settings that decide visibility and stacking.
use vstd::prelude::*;
use crate::text::str_eq;

verus! {

/// Bar edge position.
#[derive(Clone, Copy, Debug, Default, PartialEq, Eq, Structural)]
pub enum BarEdge {
    #[default]
    Top,
    Bottom,
}

/// Topmost mode: a flag, or `"window"` (above the focused window only).
#[derive(Clone, Debug)]
pub enum TopmostMode {
    Bool(bool),
    Window(String),
}

/// Hidden mode: a flag, or `"current"` (hidden on the focused display only).
#[derive(Clone, Debug)]
pub enum HiddenMode {
    Bool(bool),
    Current(String),
}

impl TopmostMode {
    /// Whether the mode is the word `"window"`.
    pub open spec fn spec_is_window_mode(&self) -> bool {
        match self {
            TopmostMode::Bool(_) => false,
            TopmostMode::Window(s) => s@ == "window"@,
        }
    }

    /// Whether the bar is kept above windows: the flag, or the `"window"` word.
    pub open spec fn spec_is_topmost(&self) -> bool {
        match self {
            TopmostMode::Bool(b) => *b,
            TopmostMode::Window(s) => s@ == "window"@,
        }
    }

    /// Whether the bar is kept above windows.
    pub fn is_topmost(&self) -> (r: bool)
        ensures
            r == self.spec_is_topmost(),
    {
        match self {
            TopmostMode::Bool(b) => *b,
            TopmostMode::Window(s) => str_eq(s.as_str(), "window"),
        }
    }

    /// Whether the bar is only above the focused window.
    pub fn is_window_mode(&self) -> (r: bool)
        ensures
            r == self.spec_is_window_mode(),
    {
        match self {
            TopmostMode::Bool(_) => false,
            TopmostMode::Window(s) => str_eq(s.as_str(), "window"),
        }
    }
}

impl Default for TopmostMode {
    fn default() -> (r: Self)
        ensures
            r matches TopmostMode::Bool(false),
    {
        TopmostMode::Bool(false)
    }
}

impl HiddenMode {
    /// Whether the mode is the word `"current"`.
    pub open spec fn spec_is_current_mode(&self) -> bool {
        match self {
            HiddenMode::Bool(_) => false,
            HiddenMode::Current(s) => s@ == "current"@,
        }
    }

    /// Whether the bar is hidden: the flag, or the `"current"` word.
    pub open spec fn spec_is_hidden(&self) -> bool {
        match self {
            HiddenMode::Bool(b) => *b,
            HiddenMode::Current(s) => s@ == "current"@,
        }
    }

    /// Whether the bar is hidden.
    pub fn is_hidden(&self) -> (r: bool)
        ensures
            r == self.spec_is_hidden(),
    {
        match self {
            HiddenMode::Bool(b) => *b,
            HiddenMode::Current(s) => str_eq(s.as_str(), "current"),
        }
    }

    /// Whether the bar is hidden on the focused display only.
    pub fn is_current_mode(&self) -> (r: bool)
        ensures
            r == self.spec_is_current_mode(),
    {
        match self {
            HiddenMode::Bool(_) => false,
            HiddenMode::Current(s) => str_eq(s.as_str(), "current"),
        }
    }
}

impl Default for HiddenMode {
    fn default() -> (r: Self)
        ensures
            r matches HiddenMode::Bool(false),
    {
        HiddenMode::Bool(false)
    }
}

/// Law: the window mode implies topmost, and the current-display mode
/// implies hidden.
pub proof fn lemma_modes_imply_flags(t: TopmostMode, h: HiddenMode)
    ensures
        t.spec_is_window_mode() ==> t.spec_is_topmost(),
        h.spec_is_current_mode() ==> h.spec_is_hidden(),
{
}

} // verus!
