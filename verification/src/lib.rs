//! A small local screenshot utility: the verified core of rectangle parsing,
//! pixel redaction, capture geometry, history, preview layout and settings.
use vstd::prelude::*;

pub mod text;
pub mod rect;
pub mod pixels;
pub mod capture;
pub mod history;
pub mod file_action;
pub mod cli;
pub mod startup;
pub mod interactive;
pub mod config;
pub mod tray;
pub mod preview;
pub mod paths;
pub mod editor;

verus! {
} // verus!
