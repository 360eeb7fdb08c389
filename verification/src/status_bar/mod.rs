//! The status bar: configuration modes, items and built-in widgets.
use vstd::prelude::*;

pub mod builtins;
pub mod components;
pub mod config;

verus! {

/// Mouse button of a click on a bar item.
#[derive(Clone, Copy, Debug, PartialEq, Eq, Structural)]
pub enum MouseButton {
    Left,
    Right,
    Other,
}

/// A click on a status bar item.
#[derive(Clone, Debug)]
pub struct StatusBarItemClicked {
    pub item_id: String,
    pub button: MouseButton,
}

} // verus!
