//! The accessibility component: the tree of applications, windows and elements,
//! how an element is found in it, and what can be done with one.

pub mod action;
pub mod atspi_bridge;
pub mod component;
pub mod laws;
pub mod semantic_locator;
pub mod tree;
