//! Rendering core: a scanline gradient renderer over a flat RGB8 buffer and
//! the checks and encoding that stand between that buffer and an image file.
pub mod error;
pub mod output;
pub mod render;
