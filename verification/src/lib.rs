use vstd::prelude::*;

pub mod drag;
pub mod ecs;
pub mod errors;
pub mod bar_layout;
pub mod clipboard;
pub mod color;
pub mod commands;
pub mod config;
pub mod defaults;
pub mod geometry;
pub mod gestures;
pub mod handlers;
pub mod ipc;
pub mod json;
pub mod keys;
pub mod layout;
pub mod mcp;
pub mod notification;
pub mod overlay;
pub mod rules;
pub mod snap;
pub mod snapshot;
pub mod state;
pub mod status_bar;
pub mod strip;
pub mod text;
pub mod wallpaper;
pub mod swipe;

verus! {
} // verus!
