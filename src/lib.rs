//! Grammar rewriting (L-systems) and turtle interpretation of the expanded
//! symbol stream into line-segment geometry.
pub mod lsystems;
pub mod turtle;
pub mod geometry;
pub mod utils;
