//! Registering, storing and restoring changes made to terminal state.

pub mod commands;
pub mod laws;
pub mod state_manager;
