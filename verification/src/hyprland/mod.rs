//! The Hyprland compositor.

pub mod cache;
pub mod compositor;
pub mod event_socket;
pub mod hyprctl;
pub mod laws;
pub mod wayland;
