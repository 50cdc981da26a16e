//! The interactive browser's state and key bindings.

pub mod app;
pub mod keys;
