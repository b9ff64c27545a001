//! Decoding of captured network frames, layer by layer, and rendering of
//! one-line packet summaries.

pub mod model;
pub mod protocols;
pub mod source;
pub mod text;
pub mod ui;
pub mod wire;
