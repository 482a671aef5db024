//! The Sway compositor.

pub mod compositor;
pub mod event;
pub mod ipc;
pub mod laws;
