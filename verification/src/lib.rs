//! The platform-independent core of a terminal emulator with tabs.
//!
//! - [`screen`], [`grid`]: what a terminal screen is, as a model and as a buffer of cells.
//! - [`vt`], [`parser`]: shell output, split into events by `vte` and acted on.
//! - [`input`], [`text`], [`utf16`]: keys and text to bytes.
//! - [`chrome`], [`cells`], [`render`]: where things are in the window and how they are drawn.
//! - [`config`], [`shells`]: settings, and the shells there are.
//! - [`state`], [`window`]: what the window holds, as a model and as the state that events change.
//! - [`spike`]: the verdict of the pseudoconsole probe.
//!
//! The modules named `*_laws` state what holds of these: what an operation does to each cell, line,
//! tab or byte, and how operations go together.

use vstd::prelude::*;

mod buffer;
pub mod cells;
pub mod chrome;
pub mod chunk_laws;
pub mod colors;
pub mod config;
pub mod edit_laws;
pub mod event_laws;
pub mod grid;
pub mod input;
pub mod parser;
pub mod picture_laws;
pub mod print_laws;
pub mod render;
pub mod render_laws;
pub mod screen;
pub mod screen_laws;
pub mod sequence_laws;
pub mod sgr_laws;
pub mod shells;
pub mod spike;
pub mod state;
pub mod term_laws;
pub mod text;
pub mod utf16;
pub mod view_laws;
pub mod vt;
pub mod window;
pub mod window_laws;

verus! {

} // verus!
