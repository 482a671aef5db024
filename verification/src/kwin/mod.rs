//! The KWin compositor.

pub mod compositor;
pub mod dbus_bridge;
pub mod error;
pub mod event_ewmh;
pub mod event_native;
pub mod event_script;
pub mod event_source;
pub mod laws;
pub mod layout;
pub mod native;
pub mod rendering;
pub mod script_laws;
pub mod scripts;
pub mod version;
pub mod wayland;
pub mod x11;
