//! What is bound of KWin's private Wayland protocols.
//!
//! A protocol that is missing, too old or taken by another client is no error:
//! it is recorded, and the operations that need it take another way.

use vstd::prelude::*;

use crate::kwin::error::{KWinError, KWinErrorView};
use crate::text::{owned, texts};
use crate::types::AgentShellError;

verus! {

/// Oldest usable version of window management: windows are addressed by uuid.
pub const WINDOW_MANAGEMENT_MIN: u32 = 12;

/// Newest known version of window management.
pub const WINDOW_MANAGEMENT_MAX: u32 = 18;

/// Oldest usable version of fake input: keys can be injected.
pub const FAKE_INPUT_MIN: u32 = 4;

/// Newest known version of fake input.
pub const FAKE_INPUT_MAX: u32 = 5;

/// Oldest usable version of virtual desktop management.
pub const VIRTUAL_DESKTOP_MIN: u32 = 1;

/// Newest known version of virtual desktop management.
pub const VIRTUAL_DESKTOP_MAX: u32 = 2;

/// Version of window management from which the stacking order can be read.
pub const STACKING_ORDER_SINCE: u32 = 17;

/// The state of the private protocol queue: no protocol event is consumed.
#[derive(Debug)]
pub struct KWinWaylandState;

/// Window management, bound in some version.
#[derive(Debug, Clone, Copy)]
pub struct WindowManagement {
    pub advertised_version: u32,
}

impl WindowManagement {
    /// Whether the stacking order can be read.
    pub fn has_stacking_order(&self) -> (r: bool)
        ensures
            r == (self.advertised_version >= STACKING_ORDER_SINCE),
    {
        self.advertised_version >= STACKING_ORDER_SINCE
    }
}

/// A request to change one state bit: which bits to touch, and what they become.
/// It assigns, it does not toggle; all other bits stay.
pub fn state_request(bit: u32, on: bool) -> (r: (u32, u32))
    ensures
        r.0 == bit,
        r.1 == (if on {
            bit
        } else {
            0
        }),
{
    if on {
        (bit, bit)
    } else {
        (bit, 0)
    }
}

/// The input injection protocol. Its purpose must be declared before anything
/// is injected.
#[derive(Debug)]
pub struct FakeInput {
    authenticated: bool,
}

impl FakeInput {
    /// Whether the purpose was declared.
    pub closed spec fn declared(self) -> bool {
        self.authenticated
    }

    /// Bound, with the purpose not yet declared.
    pub fn new() -> (r: FakeInput)
        ensures
            !r.declared(),
    {
        FakeInput { authenticated: false }
    }

    /// Records that the purpose was declared.
    pub fn authenticate(&mut self)
        ensures
            final(self).declared(),
    {
        self.authenticated = true;
    }

    /// Whether the purpose was declared.
    pub fn is_authenticated(&self) -> (r: bool)
        ensures
            r == self.declared(),
    {
        self.authenticated
    }

    /// Refuses injection until the purpose was declared.
    pub fn ensure_authenticated(&self) -> (r: Result<(), AgentShellError>)
        ensures
            match r {
                Ok(_) => self.declared(),
                Err(e) => !self.declared() && e@
                    == KWinErrorView::FakeInputNotAuthenticated.shell_error(),
            },
    {
        if self.authenticated {
            Ok(())
        } else {
            Err(KWinError::FakeInputNotAuthenticated.to_shell_error())
        }
    }
}

/// The private protocols as far as they are bound.
#[derive(Debug)]
pub struct KWinProtocols {
    /// Only one client can bind it.
    pub window_mgmt: Option<WindowManagement>,
    pub fake_input: Option<FakeInput>,
    /// Whether virtual desktop management is bound.
    pub vd_mgmt: bool,
    /// Which protocols could not be bound, and why.
    pub failures: Vec<(String, String)>,
}

/// What came of binding one protocol.
pub enum Binding {
    /// Bound in this version.
    Bound(u32),
    /// Not bound, with the reason.
    Failed(String),
}

/// 1 for true, 0 for false.
pub open spec fn count(b: bool) -> nat {
    if b {
        1
    } else {
        0
    }
}

/// The failures among the three bindings, in their order.
pub open spec fn failed_bindings(wm: Binding, fi: Binding, vd: Binding) -> Seq<
    (Seq<char>, Seq<char>),
> {
    let a = match wm {
        Binding::Failed(e) => seq![("org_kde_plasma_window_management"@, e@)],
        _ => Seq::empty(),
    };
    let b = match fi {
        Binding::Failed(e) => a.push(("org_kde_kwin_fake_input"@, e@)),
        _ => a,
    };
    match vd {
        Binding::Failed(e) => b.push(("org_kde_plasma_virtual_desktop_management"@, e@)),
        _ => b,
    }
}

/// The views of a list of failures.
pub open spec fn failure_views(v: Seq<(String, String)>) -> Seq<(Seq<char>, Seq<char>)> {
    Seq::new(v.len(), |i: int| (v[i].0@, v[i].1@))
}

impl KWinProtocols {
    /// What three attempts at binding amount to. No failure is fatal.
    pub fn from_bindings(wm: Binding, fi: Binding, vd: Binding) -> (r: KWinProtocols)
        ensures
            match wm {
                Binding::Bound(v) => r.window_mgmt == Some(
                    (WindowManagement { advertised_version: v }),
                ),
                Binding::Failed(_) => r.window_mgmt is None,
            },
            match fi {
                Binding::Bound(_) => r.fake_input is Some && !r.fake_input->0.declared(),
                Binding::Failed(_) => r.fake_input is None,
            },
            r.vd_mgmt == (vd is Bound),
            failure_views(r.failures@) == failed_bindings(wm, fi, vd),
    {
        let ghost expected = failed_bindings(wm, fi, vd);
        let mut failures: Vec<(String, String)> = Vec::new();
        let window_mgmt = match wm {
            Binding::Bound(v) => Some(WindowManagement { advertised_version: v }),
            Binding::Failed(e) => {
                failures.push((owned("org_kde_plasma_window_management"), e));
                None
            },
        };
        let fake_input = match fi {
            Binding::Bound(_) => Some(FakeInput::new()),
            Binding::Failed(e) => {
                failures.push((owned("org_kde_kwin_fake_input"), e));
                None
            },
        };
        let vd_mgmt = match vd {
            Binding::Bound(_) => true,
            Binding::Failed(e) => {
                failures.push((owned("org_kde_plasma_virtual_desktop_management"), e));
                false
            },
        };
        assert(failure_views(failures@) =~= expected);
        KWinProtocols { window_mgmt, fake_input, vd_mgmt, failures }
    }

    /// How many of the three protocols are bound.
    pub open spec fn bound(self) -> nat {
        count(self.window_mgmt is Some) + count(self.fake_input is Some) + count(self.vd_mgmt)
    }

    /// How many of the three protocols are bound.
    pub fn bound_count(&self) -> (r: usize)
        ensures
            r == self.bound(),
    {
        let mut n: usize = 0;
        if self.window_mgmt.is_some() {
            n = n + 1;
        }
        if self.fake_input.is_some() {
            n = n + 1;
        }
        if self.vd_mgmt {
            n = n + 1;
        }
        n
    }

    /// Which protocols could not be bound, and why.
    pub fn bind_failures(&self) -> (r: &Vec<(String, String)>)
        ensures
            *r == self.failures,
    {
        &self.failures
    }

    /// Whether input can be injected: bound, and the purpose declared.
    pub fn can_inject(&self) -> (r: bool)
        ensures
            r == (self.fake_input is Some && self.fake_input->0.declared()),
    {
        match &self.fake_input {
            Some(f) => f.is_authenticated(),
            None => false,
        }
    }
}

/// Each protocol is either bound or among the failures.
pub proof fn law_bound_or_failed(p: KWinProtocols, wm: Binding, fi: Binding, vd: Binding)
    requires
        p.window_mgmt is Some == wm is Bound,
        p.fake_input is Some == fi is Bound,
        p.vd_mgmt == vd is Bound,
        failure_views(p.failures@) == failed_bindings(wm, fi, vd),
    ensures
        p.bound() + p.failures@.len() == 3,
{
    assert(failure_views(p.failures@).len() == p.failures@.len());
}

/// The stacking order as it is being read: the uuids from the bottom of the
/// stack to its top, and whether the list is complete.
#[derive(Debug)]
pub struct StackingOrderReader {
    uuids: Vec<String>,
    done: bool,
}

impl StackingOrderReader {
    /// The uuids that were read.
    pub closed spec fn read(self) -> Seq<Seq<char>> {
        texts(self.uuids@)
    }

    /// Whether the list is complete.
    pub closed spec fn complete(self) -> bool {
        self.done
    }

    /// Nothing was read yet.
    pub fn new() -> (r: StackingOrderReader)
        ensures
            r.read().len() == 0,
            !r.complete(),
    {
        StackingOrderReader { uuids: Vec::new(), done: false }
    }

    /// The next window came.
    pub fn window(&mut self, uuid: String)
        ensures
            final(self).read() == old(self).read().push(uuid@),
            final(self).complete() == old(self).complete(),
    {
        broadcast use crate::text::lemma_texts_push;

        self.uuids.push(uuid);
    }

    /// The list is complete.
    pub fn finish(&mut self)
        ensures
            final(self).read() == old(self).read(),
            final(self).complete(),
    {
        self.done = true;
    }

    /// The uuids that were read, from the bottom of the stack to its top.
    pub fn uuids(&self) -> (r: &Vec<String>)
        ensures
            texts(r@) == self.read(),
    {
        &self.uuids
    }

    /// Whether the list is complete.
    pub fn done(&self) -> (r: bool)
        ensures
            r == self.complete(),
    {
        self.done
    }
}

} // verus!
