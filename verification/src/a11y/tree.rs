//! The nodes of the accessibility tree.

use vstd::prelude::*;

use crate::text::{chars_of, lower, lower_char, same};
use crate::types::{half, Rect};

verus! {

/// A set of states, one bit each.
#[derive(Clone, Copy, Debug, PartialEq, Eq, Structural)]
pub struct AtspiState(pub u64);

impl AtspiState {
    /// The active window.
    pub const ACTIVE: u64 = 0x2;

    /// The object is gone.
    pub const DEFUNCT: u64 = 0x40;

    /// The object can be edited.
    pub const EDITABLE: u64 = 0x80;

    /// The object can take the keyboard focus.
    pub const FOCUSABLE: u64 = 0x800;

    /// The object has the keyboard focus.
    pub const FOCUSED: u64 = 0x1000;

    /// The object is shown on the screen.
    pub const SHOWING: u64 = 0x200_0000;

    /// The object is visible, though it may be covered.
    pub const VISIBLE: u64 = 0x4000_0000;

    /// All states of `s` are among these.
    pub open spec fn includes(self, s: u64) -> bool {
        self.0 & s == s
    }

    /// The states in the two words in which they are transmitted.
    pub open spec fn of_pair(low: u32, high: u32) -> u64 {
        (low as u64) | ((high as u64) << 32)
    }

    /// The states in the two words in which they are transmitted.
    pub fn from_pair(low: u32, high: u32) -> (r: AtspiState)
        ensures
            r.0 == AtspiState::of_pair(low, high),
    {
        AtspiState((low as u64) | ((high as u64) << 32))
    }

    /// Whether all states of `state` are among these.
    pub fn contains(&self, state: AtspiState) -> (r: bool)
        ensures
            r == self.includes(state.0),
    {
        self.0 & state.0 == state.0
    }
}

/// State number `n` is bit `n` of the first word, or bit `n - 32` of the second.
pub proof fn law_pair_keeps_every_state(low: u32, high: u32, n: u32)
    requires
        n < 64,
    ensures
        AtspiState(AtspiState::of_pair(low, high)).includes(1u64 << n) == (if n < 32 {
            low & (1u32 << n) != 0
        } else {
            high & (1u32 << ((n - 32) as u32)) != 0
        }),
{
    if n < 32 {
        assert((((low as u64) | ((high as u64) << 32)) & (1u64 << n) == (1u64 << n)) == (low & (1u32
            << n) != 0)) by (bit_vector)
            requires
                n < 32,
        ;
    } else {
        let m: u32 = (n - 32) as u32;
        assert((((low as u64) | ((high as u64) << 32)) & (1u64 << n) == (1u64 << n)) == (high & (
        1u32 << m) != 0)) by (bit_vector)
            requires
                32 <= n < 64,
                m == n - 32,
        ;
    }
}

/// A role: its number and its name.
#[derive(Debug, PartialEq, Eq)]
pub struct AtspiRole {
    pub code: u32,
    pub name: String,
}

/// What a role says.
#[verifier::ext_equal]
pub struct RoleView {
    pub code: u32,
    pub name: Seq<char>,
}

impl View for AtspiRole {
    type V = RoleView;

    open spec fn view(&self) -> RoleView {
        RoleView { code: self.code, name: self.name@ }
    }
}

impl Clone for AtspiRole {
    fn clone(&self) -> (r: AtspiRole)
        ensures
            r@ == self@,
    {
        AtspiRole { code: self.code, name: self.name.clone() }
    }
}

/// A character that only separates the words of a role's name.
pub open spec fn separates(c: char) -> bool {
    c == ' ' || c == '-' || c == '_'
}

/// A role's name without case and separators.
pub open spec fn normal_name(s: Seq<char>) -> Seq<char>
    decreases s.len(),
{
    if s.len() == 0 {
        Seq::empty()
    } else if separates(s.last()) {
        normal_name(s.drop_last())
    } else {
        normal_name(s.drop_last()).push(lower(s.last()))
    }
}

/// Two names that toolkits give to one role.
pub open spec fn alias(a: Seq<char>, b: Seq<char>) -> bool {
    ||| a == "button"@ && b == "pushbutton"@
    ||| a == "checkbox"@ && b == "checkbutton"@
    ||| a == "combobox"@ && b == "dropdownlistbox"@
    ||| a == "entry"@ && b == "textbox"@
    ||| a == "text"@ && b == "label"@
}

/// Both names are of one role.
pub open spec fn same_role(a: Seq<char>, b: Seq<char>) -> bool {
    let x = normal_name(a);
    let y = normal_name(b);
    x == y || alias(x, y) || alias(y, x)
}

fn normalized(s: &str) -> (r: String)
    ensures
        r@ == normal_name(s@),
{
    let v = chars_of(s);
    let mut out = String::new();
    let mut i: usize = 0;
    while i < v.len()
        invariant
            i <= v.len(),
            v@ == s@,
            out@ == normal_name(s@.take(i as int)),
        decreases v.len() - i,
    {
        assert(s@.take(i as int + 1).drop_last() =~= s@.take(i as int));
        let c = v[i];
        if !(c == ' ' || c == '-' || c == '_') {
            out.push(lower_char(c));
        }
        i = i + 1;
    }
    assert(s@.take(i as int) =~= s@);
    out
}

fn is_alias(a: &str, b: &str) -> (r: bool)
    ensures
        r == alias(a@, b@),
{
    (same(a, "button") && same(b, "pushbutton")) || (same(a, "checkbox") && same(b, "checkbutton"))
        || (same(a, "combobox") && same(b, "dropdownlistbox")) || (same(a, "entry") && same(
        b,
        "textbox",
    )) || (same(a, "text") && same(b, "label"))
}

impl AtspiRole {
    /// Whether this is the role called `wanted`, by any of the names that it goes
    /// by; case and separators do not count.
    pub fn matches_name(&self, wanted: &str) -> (r: bool)
        ensures
            r == same_role(self@.name, wanted@),
    {
        let a = normalized(self.name.as_str());
        let b = normalized(wanted);
        same(a.as_str(), b.as_str()) || is_alias(a.as_str(), b.as_str()) || is_alias(
            b.as_str(),
            a.as_str(),
        )
    }
}

/// Every name is of the role that it names, and of two names of one role either
/// can be asked for by the other.
pub proof fn law_role_names(a: Seq<char>, b: Seq<char>)
    ensures
        same_role(a, a),
        same_role(a, b) == same_role(b, a),
{
}

/// How a name is written, with or without separators and in which case, does not
/// matter.
pub proof fn law_spelling_does_not_matter(a: Seq<char>, b: Seq<char>, c: Seq<char>)
    requires
        normal_name(a) == normal_name(b),
    ensures
        same_role(a, c) == same_role(b, c),
{
}

/// An application.
#[derive(Debug, PartialEq, Eq)]
pub struct ApplicationNode {
    pub bus_name: String,
    pub path: String,
    pub name: String,
    pub pid: Option<u32>,
}

/// What is known of an application.
#[verifier::ext_equal]
pub struct ApplicationView {
    pub bus_name: Seq<char>,
    pub path: Seq<char>,
    pub name: Seq<char>,
    pub pid: Option<u32>,
}

impl View for ApplicationNode {
    type V = ApplicationView;

    open spec fn view(&self) -> ApplicationView {
        ApplicationView {
            bus_name: self.bus_name@,
            path: self.path@,
            name: self.name@,
            pid: self.pid,
        }
    }
}

impl Clone for ApplicationNode {
    fn clone(&self) -> (r: ApplicationNode)
        ensures
            r@ == self@,
    {
        ApplicationNode {
            bus_name: self.bus_name.clone(),
            path: self.path.clone(),
            name: self.name.clone(),
            pid: self.pid,
        }
    }
}

/// A window of an application.
#[derive(Debug, PartialEq, Eq)]
pub struct WindowNode {
    pub bus_name: String,
    pub path: String,
    pub name: String,
    pub states: AtspiState,
}

/// What is known of a window.
#[verifier::ext_equal]
pub struct WindowNodeView {
    pub bus_name: Seq<char>,
    pub path: Seq<char>,
    pub name: Seq<char>,
    pub states: AtspiState,
}

impl View for WindowNode {
    type V = WindowNodeView;

    open spec fn view(&self) -> WindowNodeView {
        WindowNodeView {
            bus_name: self.bus_name@,
            path: self.path@,
            name: self.name@,
            states: self.states,
        }
    }
}

impl Clone for WindowNode {
    fn clone(&self) -> (r: WindowNode)
        ensures
            r@ == self@,
    {
        WindowNode {
            bus_name: self.bus_name.clone(),
            path: self.path.clone(),
            name: self.name.clone(),
            states: self.states,
        }
    }
}

/// Any object inside a window, and the window itself.
#[derive(Debug, PartialEq, Eq)]
pub struct ElementNode {
    pub bus_name: String,
    pub path: String,
    pub name: String,
    pub role: AtspiRole,
    pub states: AtspiState,
}

/// What is known of an element.
#[verifier::ext_equal]
pub struct ElementView {
    pub bus_name: Seq<char>,
    pub path: Seq<char>,
    pub name: Seq<char>,
    pub role: RoleView,
    pub states: AtspiState,
}

impl View for ElementNode {
    type V = ElementView;

    open spec fn view(&self) -> ElementView {
        ElementView {
            bus_name: self.bus_name@,
            path: self.path@,
            name: self.name@,
            role: self.role@,
            states: self.states,
        }
    }
}

impl Clone for ElementNode {
    fn clone(&self) -> (r: ElementNode)
        ensures
            r@ == self@,
    {
        ElementNode {
            bus_name: self.bus_name.clone(),
            path: self.path.clone(),
            name: self.name.clone(),
            role: self.role.clone(),
            states: self.states,
        }
    }
}

impl ElementNode {
    /// The middle of an element with these extents.
    pub fn center_of(extents: Rect) -> (r: (i32, i32))
        requires
            extents.center_fits(),
        ensures
            r.0 == extents.x + half(extents.width as int),
            r.1 == extents.y + half(extents.height as int),
    {
        extents.center()
    }
}

} // verus!
