//! Buffers that hold what a tile's symbol layers draw.
pub mod symbol_bucket;
