//! A small real-time rendering and input-handling core.
//!
//! The crate holds the verified logic of a windowing layer: the bitmap-font
//! scanner that turns a specially laid-out image into a character-to-glyph
//! table, the font table itself, a FIFO queue of normalized input events, a
//! frame-pacing clock, and the session state machine that a caller drives
//! once per frame. The graphics backend, the native event source, the timer
//! and the image decoder are collaborators outside this crate: they hand the
//! core plain values (pixel bytes, tick counts, normalized events) and take
//! plain values back (draw lists, rectangles, decisions).

pub mod shape;
pub mod event;
pub mod clock;
pub mod scanner;
pub mod font;
pub mod session;
