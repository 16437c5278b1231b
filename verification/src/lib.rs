//! A driver core for a fixed 25 x 80 memory-mapped text-mode display: a
//! packed color code, a two-byte character cell, a grid of volatile cells,
//! and a writer that turns a byte stream into cell writes with line wrap and
//! scrolling, each operation specified against a mathematical grid model.

pub mod buffer;
pub mod color;
pub mod writer;
