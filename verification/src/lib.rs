//! Mesh loading for indexed rendering, and keyboard state.

pub mod input;
pub mod obj;
