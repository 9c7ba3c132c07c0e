//! The handle to the current screen, over the backend that suits the
//! platform.

pub mod backend;
pub mod laws;
pub mod memory;
pub mod screen_manager;
