//! Desktop automation core.

pub mod a11y;
pub mod appearance;
pub mod audio;
pub mod clipboard;
pub mod hyprland;
pub mod json;
pub mod kwin;
pub mod mutter;
pub mod sway;
pub mod text;
pub mod types;
pub mod wayland_core;
