//! Page bookkeeping, export planning and image post-processing for a
//! Skia-backed canvas: the parts of page output that do not need the
//! graphics engine itself.

pub mod dpi;
pub mod export;
pub mod recorder;
pub mod sequence;
