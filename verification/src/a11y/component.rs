//! The accessibility component as a whole.

use vstd::prelude::*;

use crate::a11y::tree::ApplicationNode;
use crate::text::cat;
use crate::types::{AgentShellError, ComponentHealth, HealthView};

verus! {

/// The name of the component.
pub const COMPONENT_NAME: &'static str = "atspi-a11y";

/// The accessibility component.
#[derive(Debug)]
pub struct AtSpiComponent {}

impl AtSpiComponent {
    /// How well the component works: by whether the bus is there, and by what came of
    /// listing the applications. That there are none is no fault.
    pub fn health(bus_available: bool, applications: Result<Vec<ApplicationNode>, AgentShellError>) -> (r:
        ComponentHealth)
        ensures
            r@ == (if !bus_available {
                HealthView::Unavailable
            } else {
                match applications {
                    Ok(_) => HealthView::Healthy,
                    Err(e) => HealthView::Degraded("tree query failed: "@ + e@.message()),
                }
            }),
    {
        if !bus_available {
            return ComponentHealth::Unavailable;
        }
        match applications {
            Ok(_) => ComponentHealth::Healthy,
            Err(e) => {
                let m = e.message();
                ComponentHealth::Degraded(cat("tree query failed: ", m.as_str()))
            },
        }
    }

    /// The component, or none where it could not be connected.
    pub fn probe<C>(connected: Result<C, AgentShellError>) -> (r: Option<C>)
        ensures
            match connected {
                Ok(c) => r == Some(c),
                Err(_) => r is None,
            },
    {
        match connected {
            Ok(c) => Some(c),
            Err(_) => None,
        }
    }
}

} // verus!
