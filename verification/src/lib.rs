//! State and surface layer of a terminal control library.
//!
//! [`manager`] holds the screen surface: one handle over whichever backend
//! the platform calls for. [`state`] holds the registry of reversible
//! changes to terminal state.

pub mod manager;
pub mod state;
