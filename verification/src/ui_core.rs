//! Core value types: widget identity, color channels and the shared
//! platform cells.

pub mod color;
pub mod geometry;
pub mod id;
