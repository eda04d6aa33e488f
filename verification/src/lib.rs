//! A terminal "digital rain" renderer: every frame fills the terminal grid
//! with random printable characters, except for the cells of a fixed symbol
//! silhouette, which stay blank. The symbol is parsed from a multi-line
//! piece of ASCII art into a mask of filled coordinates; the silhouette is
//! centered on screen by a bounding-box overlap test.
//!
//! This crate holds the verified logic: mask construction, the overlap
//! test, the character palette, and the per-frame plan of draw operations.
//! Terminal I/O (cursor moves, raw mode, the interrupt handler) lives in
//! the surrounding binary, which executes the plans this crate produces.

pub mod frame;
pub mod geometry;
pub mod mask;
pub mod symbol;

pub use frame::palette;
pub use frame::render_frame;
pub use frame::DrawOp;
pub use geometry::is_inside_symbol;
pub use geometry::DIM_LIMIT;
pub use mask::build_mask;
pub use mask::mask_member;
pub use mask::Mask;
pub use symbol::MARKER;
pub use symbol::SYMBOL_ART;
