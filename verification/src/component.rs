//! Component system for reusable UI building blocks.
//!
//! Components provide:
//! - Local state that persists across view tree rebuilds
//! - Message isolation (each component has its own message type)
//! - Auto-scoped WidgetIds to prevent collisions

pub mod context;
pub mod storage;
pub mod widget;

pub use context::{ComponentContext, KeyPath};
pub use storage::ComponentStateStorage;
pub use widget::{Component, ComponentWidget};
