//! What is done with an element: clicking, focusing, reading and writing text.
//!
//! Each operation is a sequence of calls on the accessibility bus in which every
//! answer decides the next call.

use vstd::prelude::*;

use crate::a11y::tree::{AtspiState, ElementNode};
use crate::text::{cat, cat3, owned};
use crate::types::{half, unit_view, AgentShellError, ErrorView, Rect};

verus! {

/// The interface of elements that can be acted on.
pub const ACTION_IFACE: &'static str = "org.a11y.atspi.Action";

/// The interface of elements with text.
pub const TEXT_IFACE: &'static str = "org.a11y.atspi.Text";

/// The interface of elements whose text can be changed.
pub const EDITABLE_TEXT_IFACE: &'static str = "org.a11y.atspi.EditableText";

/// The number of an element's main action.
pub const MAIN_ACTION: i32 = 0;

/// A button of the pointer.
#[derive(Clone, Copy, Debug, PartialEq, Eq, Structural)]
pub enum MouseButton {
    Left,
    Middle,
    Right,
}

/// A way to move the pointer and press its buttons.
pub trait PointerInput {
    fn mouse_move(&self, x: i32, y: i32) -> Result<(), AgentShellError>;

    fn mouse_click(&self, button: MouseButton) -> Result<(), AgentShellError>;
}

/// Stands in where there is no way to the pointer: it always says so.
#[derive(Debug)]
pub struct NoPointerInput;

/// The error where there is no way to the pointer.
pub open spec fn no_pointer() -> ErrorView {
    ErrorView::NotImplemented("pointer input backend not assembled (TSI-2315)"@)
}

impl PointerInput for NoPointerInput {
    fn mouse_move(&self, _x: i32, _y: i32) -> (r: Result<(), AgentShellError>)
        ensures
            unit_view(r) == Err::<(), ErrorView>(no_pointer()),
    {
        Err(
            AgentShellError::NotImplemented(
                owned("pointer input backend not assembled (TSI-2315)"),
            ),
        )
    }

    fn mouse_click(&self, _button: MouseButton) -> (r: Result<(), AgentShellError>)
        ensures
            unit_view(r) == Err::<(), ErrorView>(no_pointer()),
    {
        Err(
            AgentShellError::NotImplemented(
                owned("pointer input backend not assembled (TSI-2315)"),
            ),
        )
    }
}

/// A call that an operation makes next, or its end.
#[derive(Debug)]
pub enum Step {
    /// Does the element have the interface for actions?
    HasAction,
    /// How many actions does it have?
    ActionCount,
    /// Have it perform its main action.
    DoAction,
    /// Have it take the focus.
    GrabFocus,
    /// Where is it?
    Extents,
    /// Move the pointer.
    MoveTo(i32, i32),
    /// Press a button of the pointer.
    Press(MouseButton),
    /// The operation is over.
    Done(Result<(), AgentShellError>),
}

/// A call that an operation makes next, or its end.
#[verifier::ext_equal]
pub enum StepView {
    HasAction,
    ActionCount,
    DoAction,
    GrabFocus,
    Extents,
    MoveTo(int, int),
    Press(MouseButton),
    Done(Result<(), ErrorView>),
}

impl View for Step {
    type V = StepView;

    open spec fn view(&self) -> StepView {
        match *self {
            Step::HasAction => StepView::HasAction,
            Step::ActionCount => StepView::ActionCount,
            Step::DoAction => StepView::DoAction,
            Step::GrabFocus => StepView::GrabFocus,
            Step::Extents => StepView::Extents,
            Step::MoveTo(x, y) => StepView::MoveTo(x as int, y as int),
            Step::Press(b) => StepView::Press(b),
            Step::Done(r) => StepView::Done(unit_view(r)),
        }
    }
}

/// The end with an error.
pub open spec fn failed(e: ErrorView) -> StepView {
    StepView::Done(Err(e))
}

/// The end without one.
pub open spec fn succeeded() -> StepView {
    StepView::Done(Ok(()))
}

/// What can be done with an element. The bus is driven by the caller, step by step.
#[derive(Debug)]
pub struct ElementActions {}

impl ElementActions {
    /// A click begins with the question whether the element can be acted on.
    pub fn click() -> (r: Step)
        ensures
            r@ == StepView::HasAction,
    {
        Step::HasAction
    }

    /// Clicking, after the question whether the element can be acted on: if not, the
    /// pointer has to do.
    pub fn click_has_action(has_action: bool) -> (r: Step)
        ensures
            r@ == (if has_action {
                StepView::ActionCount
            } else {
                StepView::Extents
            }),
    {
        if has_action {
            Step::ActionCount
        } else {
            Step::Extents
        }
    }

    /// Clicking, after the number of actions was read.
    pub fn click_action_count(count: Result<i32, String>) -> (r: Step)
        ensures
            r@ == (match count {
                Err(e) => failed(ErrorView::DBus("Action.NActions: "@ + e@)),
                Ok(n) => if n > 0 {
                    StepView::DoAction
                } else {
                    StepView::Extents
                },
            }),
    {
        match count {
            Err(e) => Step::Done(Err(AgentShellError::DBus(cat("Action.NActions: ", e.as_str())))),
            Ok(n) => if n > 0 {
                Step::DoAction
            } else {
                Step::Extents
            },
        }
    }

    /// Clicking, after the main action: where it was refused, the pointer has to do.
    pub fn click_action_done(done: Result<bool, AgentShellError>) -> (r: Step)
        ensures
            r@ == (match done {
                Err(e) => failed(e@),
                Ok(true) => succeeded(),
                Ok(false) => StepView::Extents,
            }),
    {
        match done {
            Err(e) => Step::Done(Err(e)),
            Ok(true) => Step::Done(Ok(())),
            Ok(false) => Step::Extents,
        }
    }

    /// Clicking, after the element's place was read: the pointer goes to its middle.
    pub fn click_extents(extents: Result<Rect, AgentShellError>) -> (r: Step)
        requires
            extents matches Ok(rect) ==> rect.center_fits(),
        ensures
            r@ == (match extents {
                Err(e) => failed(e@),
                Ok(rect) => StepView::MoveTo(
                    rect.x + half(rect.width as int),
                    rect.y + half(rect.height as int),
                ),
            }),
    {
        match extents {
            Err(e) => Step::Done(Err(e)),
            Ok(rect) => {
                let (x, y) = ElementNode::center_of(rect);
                Step::MoveTo(x, y)
            },
        }
    }

    /// Clicking, after the pointer was moved.
    pub fn click_moved(moved: Result<(), AgentShellError>) -> (r: Step)
        ensures
            r@ == (match moved {
                Err(e) => failed(e@),
                Ok(_) => StepView::Press(MouseButton::Left),
            }),
    {
        match moved {
            Err(e) => Step::Done(Err(e)),
            Ok(_) => Step::Press(MouseButton::Left),
        }
    }

    /// Focusing begins with the element's own way to take the focus.
    pub fn focus() -> (r: Step)
        ensures
            r@ == StepView::GrabFocus,
    {
        Step::GrabFocus
    }

    /// Focusing, after the element was asked to take the focus: where it refused, its
    /// main action may do.
    pub fn focus_grabbed(grabbed: Result<bool, AgentShellError>) -> (r: Step)
        ensures
            r@ == (match grabbed {
                Err(e) => failed(e@),
                Ok(true) => succeeded(),
                Ok(false) => StepView::HasAction,
            }),
    {
        match grabbed {
            Err(e) => Step::Done(Err(e)),
            Ok(true) => Step::Done(Ok(())),
            Ok(false) => Step::HasAction,
        }
    }

    /// Focusing, after the question whether the element can be acted on.
    pub fn focus_has_action(element: &ElementNode, has_action: bool) -> (r: Step)
        ensures
            r@ == (if has_action {
                StepView::DoAction
            } else {
                failed(ErrorView::DBus("GrabFocus unsupported for "@ + element@.path))
            }),
    {
        if has_action {
            Step::DoAction
        } else {
            Step::Done(
                Err(AgentShellError::DBus(cat("GrabFocus unsupported for ", element.path.as_str()))),
            )
        }
    }

    /// Focusing, after the main action.
    pub fn focus_action_done(done: Result<bool, AgentShellError>) -> (r: Step)
        ensures
            r@ == (match done {
                Err(e) => failed(e@),
                Ok(true) => succeeded(),
                Ok(false) => failed(ErrorView::DBus("focus fallback failed"@)),
            }),
    {
        match done {
            Err(e) => Step::Done(Err(e)),
            Ok(true) => Step::Done(Ok(())),
            Ok(false) => Step::Done(Err(AgentShellError::DBus(owned("focus fallback failed")))),
        }
    }

    /// The range of characters that is the whole text, from the number of characters.
    pub fn get_text(count: Result<i32, String>) -> (r: Result<(i32, i32), AgentShellError>)
        ensures
            match count {
                Err(e) => r matches Err(x) && x@ == ErrorView::DBus("Text.CharacterCount: "@ + e@),
                Ok(n) => r == Ok::<(i32, i32), AgentShellError>((0, n)),
            },
    {
        match count {
            Err(e) => Err(AgentShellError::DBus(cat("Text.CharacterCount: ", e.as_str()))),
            Ok(n) => Ok((0, n)),
        }
    }

    /// Whether it has to be asked if the element's text can be changed; without the
    /// state there is no need to.
    pub fn may_be_editable(element: &ElementNode) -> (r: bool)
        ensures
            r == element@.states.includes(AtspiState::EDITABLE),
    {
        element.states.contains(AtspiState(AtspiState::EDITABLE))
    }

    /// Whether the element's text can be changed.
    pub fn is_editable(element: &ElementNode, has_interface: bool) -> (r: bool)
        ensures
            r == (element@.states.includes(AtspiState::EDITABLE) && has_interface),
    {
        ElementActions::may_be_editable(element) && has_interface
    }

    /// Whether a text may be written into the element, or why not.
    pub fn set_text(element: &ElementNode, has_interface: bool) -> (r: Result<(), AgentShellError>)
        ensures
            unit_view(r) == (if element@.states.includes(AtspiState::EDITABLE) && has_interface {
                Ok::<(), ErrorView>(())
            } else {
                Err::<(), ErrorView>(
                    ErrorView::BackendUnavailable(
                        "element "@ + element@.path
                            + " is not editable (missing EditableText or EDITABLE state)"@,
                    ),
                )
            }),
    {
        if ElementActions::is_editable(element, has_interface) {
            Ok(())
        } else {
            Err(
                AgentShellError::BackendUnavailable(
                    cat3(
                        "element ",
                        element.path.as_str(),
                        " is not editable (missing EditableText or EDITABLE state)",
                    ),
                ),
            )
        }
    }

    /// The outcome of writing a text.
    pub fn set_text_done(done: Result<bool, AgentShellError>) -> (r: Result<(), AgentShellError>)
        ensures
            unit_view(r) == (match done {
                Err(e) => Err::<(), ErrorView>(e@),
                Ok(true) => Ok::<(), ErrorView>(()),
                Ok(false) => Err::<(), ErrorView>(ErrorView::DBus("SetTextContents returned false"@)),
            }),
    {
        match done {
            Err(e) => Err(e),
            Ok(true) => Ok(()),
            Ok(false) => Err(AgentShellError::DBus(owned("SetTextContents returned false"))),
        }
    }
}

} // verus!
