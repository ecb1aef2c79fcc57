//! In-memory screen-buffer model of a terminal emulator: lazily materialized
//! rows of cells, the cell representation with its zero-width overflow, and
//! the indexed color palette.

pub mod ansi;
pub mod index;
pub mod cell;
pub mod grid;
pub mod config;
pub mod color;
pub mod extra_chars;
