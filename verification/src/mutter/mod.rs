//! The GNOME compositor: its two window channels, its monitors and the shell
//! extension that the second channel needs.

pub mod compositor;
pub mod display_config;
pub mod error;
pub mod eval;
pub mod extension;
pub mod install;
pub mod laws;
pub mod parse;
pub mod version;
