//! What is bound of Hyprland's private Wayland protocols.

use vstd::prelude::*;

use crate::kwin::wayland::{count, failure_views};
use crate::text::owned;

verus! {

/// Usable versions of the window export protocol.
pub const TOPLEVEL_EXPORT: (u32, u32) = (1, 2);

/// Usable versions of the focus grab protocol.
pub const FOCUS_GRAB: (u32, u32) = (1, 1);

/// Usable versions of the global shortcuts protocol.
pub const GLOBAL_SHORTCUTS: (u32, u32) = (1, 1);

/// Usable versions of the window mapping protocol.
pub const TOPLEVEL_MAPPING: (u32, u32) = (1, 1);

/// The state of the private protocol queue: no protocol event is consumed.
#[derive(Debug)]
pub struct HyprlandState;

/// The private protocols as far as they are bound.
#[derive(Debug)]
pub struct HyprlandBindings {
    pub toplevel_export: bool,
    pub focus_grab: bool,
    pub global_shortcuts: bool,
    pub toplevel_mapping: bool,
    /// Which protocols could not be bound, and why.
    pub bind_failures: Vec<(String, String)>,
}

impl Default for HyprlandBindings {
    fn default() -> (r: HyprlandBindings)
        ensures
            r.bound() == 0,
            r.bind_failures@.len() == 0,
    {
        HyprlandBindings {
            toplevel_export: false,
            focus_grab: false,
            global_shortcuts: false,
            toplevel_mapping: false,
            bind_failures: Vec::new(),
        }
    }
}

/// The failures of one binding behind those before it.
pub open spec fn add_failure(
    before: Seq<(Seq<char>, Seq<char>)>,
    name: Seq<char>,
    failed: Option<String>,
) -> Seq<(Seq<char>, Seq<char>)> {
    match failed {
        Some(e) => before.push((name, e@)),
        None => before,
    }
}

fn note(failures: &mut Vec<(String, String)>, name: &str, failed: Option<String>)
    ensures
        failure_views(final(failures)@) == add_failure(
            failure_views(old(failures)@),
            name@,
            failed,
        ),
{
    let ghost before = failure_views(failures@);
    if let Some(e) = failed {
        let ghost why = e@;
        failures.push((owned(name), e));
        assert(failure_views(failures@) =~= before.push((name@, why)));
    }
}

impl HyprlandBindings {
    /// What four attempts at binding amount to, each given as the reason why it
    /// failed, if it did. No failure is fatal.
    pub fn from_bindings(
        export: Option<String>,
        grab: Option<String>,
        shortcuts: Option<String>,
        mapping: Option<String>,
    ) -> (r: HyprlandBindings)
        ensures
            r.toplevel_export == (export is None),
            r.focus_grab == (grab is None),
            r.global_shortcuts == (shortcuts is None),
            r.toplevel_mapping == (mapping is None),
            failure_views(r.bind_failures@) == add_failure(
                add_failure(
                    add_failure(
                        add_failure(
                            Seq::empty(),
                            "hyprland_toplevel_export_manager_v1"@,
                            export,
                        ),
                        "hyprland_focus_grab_manager_v1"@,
                        grab,
                    ),
                    "hyprland_global_shortcuts_manager_v1"@,
                    shortcuts,
                ),
                "hyprland_toplevel_mapping_manager_v1"@,
                mapping,
            ),
    {
        let mut failures: Vec<(String, String)> = Vec::new();
        assert(failure_views(failures@) =~= Seq::<(Seq<char>, Seq<char>)>::empty());
        let toplevel_export = export.is_none();
        let focus_grab = grab.is_none();
        let global_shortcuts = shortcuts.is_none();
        let toplevel_mapping = mapping.is_none();
        note(&mut failures, "hyprland_toplevel_export_manager_v1", export);
        note(&mut failures, "hyprland_focus_grab_manager_v1", grab);
        note(&mut failures, "hyprland_global_shortcuts_manager_v1", shortcuts);
        note(&mut failures, "hyprland_toplevel_mapping_manager_v1", mapping);
        HyprlandBindings {
            toplevel_export,
            focus_grab,
            global_shortcuts,
            toplevel_mapping,
            bind_failures: failures,
        }
    }

    /// How many of the four protocols are bound.
    pub open spec fn bound(self) -> nat {
        count(self.toplevel_export) + count(self.focus_grab) + count(self.global_shortcuts) + count(
            self.toplevel_mapping,
        )
    }

    /// How many of the four protocols are bound.
    pub fn bound_count(&self) -> (r: usize)
        ensures
            r == self.bound(),
    {
        let mut n: usize = 0;
        if self.toplevel_export {
            n = n + 1;
        }
        if self.focus_grab {
            n = n + 1;
        }
        if self.global_shortcuts {
            n = n + 1;
        }
        if self.toplevel_mapping {
            n = n + 1;
        }
        n
    }
}

} // verus!
