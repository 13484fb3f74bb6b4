//! Keyboard and pointer model of the invitation dialog (copy link, copy
//! code, cancel).

use vstd::prelude::*;

use crate::event::{key_is, PointerKind, UiEvent};
use crate::i18n::{msg_text, t, Msg};
use crate::text::owned;

verus! {

pub struct InvitationModal {
    pub code: String,
    pub link: String,
    pub focused: usize,
}

#[derive(Clone, Copy, Debug, PartialEq, Eq, Structural)]
pub enum InvitationModalResult {
    Consumed,
    Close,
    CopyLink,
    CopyCode,
}

/// Where a pointer press landed, as the geometry layer found it.
#[derive(Clone, Copy, Debug, PartialEq, Eq, Structural)]
pub enum InvitationTarget {
    /// Outside the dialog card.
    Outside,
    /// On the card, on none of its buttons.
    Card,
    /// On button `index` (0: copy link, 1: copy code, 2: cancel).
    Button(usize),
}

/// Answer of activating button `index`.
pub open spec fn button_result(index: int) -> InvitationModalResult {
    if index == 0 {
        InvitationModalResult::CopyLink
    } else if index == 1 {
        InvitationModalResult::CopyCode
    } else {
        InvitationModalResult::Close
    }
}

/// Whether stepping focus index `focused` for `event` overflows: one step
/// forward from the largest index, or two (a step back) from the two
/// largest.
pub open spec fn focus_step_overflows(focused: usize, event: UiEvent) -> bool {
    let forward = match event {
        UiEvent::KeyInput { text } => text@ == "\t"@,
        UiEvent::FocusNext | UiEvent::CursorDown => true,
        _ => false,
    };
    let backward = match event {
        UiEvent::KeyInput { text } => text@ == "\u{b}"@,
        UiEvent::FocusPrevious | UiEvent::CursorUp => true,
        _ => false,
    };
    (forward && focused == usize::MAX) || (backward && focused >= usize::MAX - 1)
}

/// Focus after `event`, and the dialog's answer.
pub open spec fn invitation_step(focused: int, event: UiEvent, target: InvitationTarget) -> (
    int,
    InvitationModalResult,
) {
    match event {
        UiEvent::KeyInput { text } => if text@ == "\x1b"@ {
            (focused, InvitationModalResult::Close)
        } else if text@ == "\t"@ {
            ((focused + 1) % 3, InvitationModalResult::Consumed)
        } else if text@ == "\u{b}"@ {
            ((focused + 2) % 3, InvitationModalResult::Consumed)
        } else if text@ == "\r"@ || text@ == "\n"@ || text@ == " "@ {
            (focused, button_result(focused))
        } else {
            (focused, InvitationModalResult::Consumed)
        },
        UiEvent::FocusNext | UiEvent::CursorDown => ((focused + 1) % 3, InvitationModalResult::Consumed),
        UiEvent::FocusPrevious | UiEvent::CursorUp => ((focused + 2) % 3, InvitationModalResult::Consumed),
        UiEvent::Pointer(PointerKind::MousePress) | UiEvent::Pointer(PointerKind::DoubleClick) => match target {
            InvitationTarget::Outside => (focused, InvitationModalResult::Close),
            InvitationTarget::Button(index) => if index < 3 {
                (index as int, button_result(index as int))
            } else {
                (focused, InvitationModalResult::Consumed)
            },
            InvitationTarget::Card => (focused, InvitationModalResult::Consumed),
        },
        _ => (focused, InvitationModalResult::Consumed),
    }
}

impl InvitationModal {
    pub fn new(code: &str, link: &str) -> (r: Self)
        ensures
            r.code@ == code@,
            r.link@ == link@,
            r.focused == 0,
    {
        InvitationModal { code: owned(code), link: owned(link), focused: 0 }
    }

    /// What a screen reader announces for the focused button.
    pub fn keyboard_focus_label(&self) -> (r: String)
        ensures
            r@ == msg_text(if self.focused == 0 {
                Msg::InviteCopyLink
            } else if self.focused == 1 {
                Msg::InviteCopyCode
            } else {
                Msg::ConnectCancel
            }),
    {
        if self.focused == 0 {
            owned(t(Msg::InviteCopyLink))
        } else if self.focused == 1 {
            owned(t(Msg::InviteCopyCode))
        } else {
            owned(t(Msg::ConnectCancel))
        }
    }

    /// Handles one event; `target` tells where a pointer press landed. The
    /// focus index may be any value that stepping it does not overflow.
    pub fn handle_event(&mut self, event: &UiEvent, target: InvitationTarget) -> (r: InvitationModalResult)
        requires
            !focus_step_overflows(old(self).focused, *event),
        ensures
            (final(self).focused as int, r) == invitation_step(old(self).focused as int, *event, target),
            old(self).focused < 3 ==> final(self).focused < 3,
            final(self).code == old(self).code,
            final(self).link == old(self).link,
    {
        match event {
            UiEvent::KeyInput { text } => {
                if key_is(text, "\x1b") {
                    InvitationModalResult::Close
                } else if key_is(text, "\t") {
                    self.focused = (self.focused + 1) % 3;
                    InvitationModalResult::Consumed
                } else if key_is(text, "\u{b}") {
                    self.focused = (self.focused + 2) % 3;
                    InvitationModalResult::Consumed
                } else if key_is(text, "\r") || key_is(text, "\n") || key_is(text, " ") {
                    self.activate()
                } else {
                    InvitationModalResult::Consumed
                }
            },
            UiEvent::FocusNext | UiEvent::CursorDown => {
                self.focused = (self.focused + 1) % 3;
                InvitationModalResult::Consumed
            },
            UiEvent::FocusPrevious | UiEvent::CursorUp => {
                self.focused = (self.focused + 2) % 3;
                InvitationModalResult::Consumed
            },
            UiEvent::Pointer(PointerKind::MousePress) | UiEvent::Pointer(PointerKind::DoubleClick) => {
                match target {
                    InvitationTarget::Outside => InvitationModalResult::Close,
                    InvitationTarget::Button(index) => {
                        if index < 3 {
                            self.focused = index;
                            self.activate()
                        } else {
                            InvitationModalResult::Consumed
                        }
                    },
                    InvitationTarget::Card => InvitationModalResult::Consumed,
                }
            },
            _ => InvitationModalResult::Consumed,
        }
    }

    fn activate(&self) -> (r: InvitationModalResult)
        ensures
            r == button_result(self.focused as int),
    {
        if self.focused == 0 {
            InvitationModalResult::CopyLink
        } else if self.focused == 1 {
            InvitationModalResult::CopyCode
        } else {
            InvitationModalResult::Close
        }
    }
}

/// Tab then Shift+Tab (or the reverse) leaves the focus where it was,
/// and three Tabs go all the way round.
pub proof fn lemma_invitation_focus_cycle(focused: int)
    requires
        0 <= focused < 3,
    ensures
        ((focused + 1) % 3 + 2) % 3 == focused,
        ((focused + 2) % 3 + 1) % 3 == focused,
        (((focused + 1) % 3 + 1) % 3 + 1) % 3 == focused,
{
}

} // verus!
