//! Normal / hovered / pressed state machine shared by clickable elements.
//!
//! Whether the pointer lies inside the element is decided by the geometry
//! layer and handed in as `inside`.

use vstd::prelude::*;

use crate::event::{PointerKind, UiEvent};

verus! {

/// Visual state of a clickable element.
#[derive(Clone, Copy, Debug, PartialEq, Eq, Structural)]
pub enum InteractiveState {
    Normal,
    Hovered,
    Pressed,
}

impl Default for InteractiveState {
    fn default() -> (r: Self)
        ensures
            r == InteractiveState::Normal,
    {
        InteractiveState::Normal
    }
}

/// What an event did to a clickable element.
#[derive(Clone, Copy, Debug, PartialEq, Eq, Structural)]
pub enum InteractiveResult {
    /// The state changed visually and needs a redraw.
    StateChanged,
    /// A press and a release both landed inside the element.
    Clicked,
    /// Nothing happened.
    Nothing,
}

/// The state the pointer's position alone calls for, a held press kept.
pub open spec fn hover_target(s: InteractiveState, inside: bool) -> InteractiveState {
    if inside && s == InteractiveState::Pressed {
        InteractiveState::Pressed
    } else if inside {
        InteractiveState::Hovered
    } else {
        InteractiveState::Normal
    }
}

/// Move to `new`, reporting a change only when there is one.
pub open spec fn settle(s: InteractiveState, new: InteractiveState) -> (
    InteractiveState,
    InteractiveResult,
) {
    if new != s {
        (new, InteractiveResult::StateChanged)
    } else {
        (s, InteractiveResult::Nothing)
    }
}

/// Next state and result for `event`, the pointer being `inside` or not.
pub open spec fn interactive_step(s: InteractiveState, event: UiEvent, inside: bool) -> (
    InteractiveState,
    InteractiveResult,
) {
    match event {
        UiEvent::Pointer(PointerKind::MouseMove) => settle(s, hover_target(s, inside)),
        UiEvent::Pointer(PointerKind::MousePress) => if inside {
            settle(s, InteractiveState::Pressed)
        } else {
            (s, InteractiveResult::Nothing)
        },
        UiEvent::Pointer(PointerKind::MouseRelease) => if s == InteractiveState::Pressed && inside {
            (InteractiveState::Hovered, InteractiveResult::Clicked)
        } else {
            settle(
                s,
                if inside {
                    InteractiveState::Hovered
                } else {
                    InteractiveState::Normal
                },
            )
        },
        _ => (s, InteractiveResult::Nothing),
    }
}

impl InteractiveState {
    /// Processes `event`; `inside` says whether its position lies within the
    /// element's bounds.
    pub fn handle(&mut self, event: &UiEvent, inside: bool) -> (r: InteractiveResult)
        ensures
            (*final(self), r) == interactive_step(*old(self), *event, inside),
    {
        let s = *self;
        match event {
            UiEvent::Pointer(PointerKind::MouseMove) => {
                let new = if inside && s == InteractiveState::Pressed {
                    InteractiveState::Pressed
                } else if inside {
                    InteractiveState::Hovered
                } else {
                    InteractiveState::Normal
                };
                if new != s {
                    *self = new;
                    InteractiveResult::StateChanged
                } else {
                    InteractiveResult::Nothing
                }
            },
            UiEvent::Pointer(PointerKind::MousePress) => {
                if inside && s != InteractiveState::Pressed {
                    *self = InteractiveState::Pressed;
                    InteractiveResult::StateChanged
                } else {
                    InteractiveResult::Nothing
                }
            },
            UiEvent::Pointer(PointerKind::MouseRelease) => {
                if s == InteractiveState::Pressed && inside {
                    *self = InteractiveState::Hovered;
                    InteractiveResult::Clicked
                } else {
                    let new = if inside {
                        InteractiveState::Hovered
                    } else {
                        InteractiveState::Normal
                    };
                    if new != s {
                        *self = new;
                        InteractiveResult::StateChanged
                    } else {
                        InteractiveResult::Nothing
                    }
                }
            },
            _ => InteractiveResult::Nothing,
        }
    }

    /// Whether the element is drawn highlighted (hovered or pressed).
    pub fn is_hovered(&self) -> (r: bool)
        ensures
            r == (*self != InteractiveState::Normal),
    {
        match self {
            InteractiveState::Normal => false,
            _ => true,
        }
    }
}

/// A press inside followed by a release inside is a click, whatever the
/// state before, and leaves the element hovered; the press asks for a redraw
/// only when the element was not already pressed.
pub proof fn lemma_press_then_release_inside_clicks(s: InteractiveState)
    ensures
        ({
            let (s1, r1) = interactive_step(s, UiEvent::Pointer(PointerKind::MousePress), true);
            let (s2, r2) = interactive_step(s1, UiEvent::Pointer(PointerKind::MouseRelease), true);
            &&& r1 == (if s == InteractiveState::Pressed {
                InteractiveResult::Nothing
            } else {
                InteractiveResult::StateChanged
            })
            &&& r2 == InteractiveResult::Clicked
            &&& s2 == InteractiveState::Hovered
        }),
{
}

/// An event reports nothing exactly when the state stays as it was, and a
/// click always leaves the element hovered.
pub proof fn lemma_change_reported_iff_changed(s: InteractiveState, event: UiEvent, inside: bool)
    ensures
        ({
            let (s1, r) = interactive_step(s, event, inside);
            &&& (r == InteractiveResult::Nothing) <==> (s1 == s)
            &&& r == InteractiveResult::Clicked ==> s1 == InteractiveState::Hovered
        }),
{
}

/// A release never reports a click unless the element was pressed and the
/// release lands inside it.
pub proof fn lemma_click_needs_press_and_inside(
    s: InteractiveState,
    event: UiEvent,
    inside: bool,
)
    ensures
        interactive_step(s, event, inside).1 == InteractiveResult::Clicked ==> (s
            == InteractiveState::Pressed && inside && event == UiEvent::Pointer(
            PointerKind::MouseRelease,
        )),
{
}

/// Leaving the element always returns it to normal on a move or a release.
pub proof fn lemma_outside_pointer_resets(s: InteractiveState)
    ensures
        interactive_step(s, UiEvent::Pointer(PointerKind::MouseMove), false).0
            == InteractiveState::Normal,
        interactive_step(s, UiEvent::Pointer(PointerKind::MouseRelease), false).0
            == InteractiveState::Normal,
{
}

} // verus!
