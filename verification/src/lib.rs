//! The view side of a text editor whose document lives in another process,
//! the editing core.
//!
//! The core sends updates, one JSON object to a line; [`update`] decodes
//! them. [`viewport`] holds what the view knows of the document: the lines
//! last reported, where they start, and how far the view is scrolled.
//! [`scroll`] moves the view to a line, [`layout`] places glyphs and cursors,
//! and [`command`] writes what the view asks of the core. [`session`] maps
//! the events of a window to all of this.
//!
//! Nothing here reads a font, a pipe or a window: glyph measurements come in
//! as numbers (see [`metrics`]), text comes in and goes out as strings.

pub mod command;
pub mod json;
pub mod layout;
pub mod metrics;
pub mod scroll;
pub mod session;
pub mod update;
pub mod viewport;
