//! Vexo: the retained-mode core of a UI framework — element identity and
//! tree registry, dirty tracking for rebuild/layout/paint, the frame ticker,
//! component plumbing and the shared platform cells read during rendering.

pub mod animation;
pub mod build_owner;
pub mod child_ops;
pub mod component;
pub mod demo;
pub mod ui_core;
pub mod dirty;
pub mod element;
pub mod id;
pub mod im;
