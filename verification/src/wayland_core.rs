//! What all compositors of a Wayland session share: the connection to the display
//! server.

use vstd::prelude::*;

verus! {

/// A connection to the display server.
#[derive(Clone, Copy, Debug, PartialEq, Eq, Structural)]
pub struct WaylandDisplayServer {
    /// How many interfaces the server announces.
    pub globals: usize,
}

impl WaylandDisplayServer {
    /// How many interfaces the server announces.
    pub fn global_count(&self) -> (r: usize)
        ensures
            r == self.globals,
    {
        self.globals
    }
}

/// A compositor of a Wayland session.
pub trait WaylandCompositor {
    /// The connection, where there is one.
    spec fn connection(&self) -> Option<WaylandDisplayServer>;

    /// The connection; it must be there.
    fn display_server(&self) -> (r: &WaylandDisplayServer)
        requires
            self.connection() is Some,
        ensures
            self.connection() == Some(*r),
    ;
}

} // verus!
