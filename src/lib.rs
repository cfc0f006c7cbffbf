//! Repacking of densely packed bit-fields from one container width to another.

pub mod laws;
pub mod repack;
pub mod stream;
pub mod word;

pub use repack::{repack, RepackError};
pub use word::BitWord;
