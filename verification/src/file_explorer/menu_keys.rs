//! Keyboard handling of the file tree's context menu and its submenu.
//!
//! The menu's position on screen belongs to the drawing layer; here it is
//! the row it was opened on, the highlighted entry and the open submenu.

use vstd::prelude::*;

use crate::event::{
    is_activation_spec, is_keyboard_event, is_keyboard_spec, keyboard_activation, key_is,
    AccessibilityEvent, EventResponse, UiAction, UiEvent,
};
use crate::i18n::{msg_text, Msg};
use crate::text::owned;

use super::data::FileTreeData;
use super::rows::RowId;
use super::{
    collapse_event, context_menu_items, context_menu_spec, items_match, selection_event,
    submenu_items, submenu_spec, MenuEntry, MenuItem, SubmenuKind,
};

verus! {

/// The open context menu: the row it acts on, the highlighted entry, and
/// the open submenu with its highlighted entry.
#[derive(Clone, Copy, Debug, PartialEq, Eq, Structural)]
pub struct MenuState {
    pub target: RowId,
    pub index: usize,
    pub submenu: Option<SubmenuKind>,
    pub submenu_index: usize,
}

/// Label of entry `i` of `entries`, empty past the end.
pub open spec fn entry_label(entries: Seq<MenuEntry>, i: int) -> Seq<char> {
    if 0 <= i < entries.len() {
        entries[i].label
    } else {
        Seq::empty()
    }
}

/// What choosing entry `i` answers: its action when enabled, nothing
/// otherwise (nor past the end).
pub open spec fn entry_answer(entries: Seq<MenuEntry>, i: int) -> EventResponse {
    if 0 <= i < entries.len() && entries[i].enabled {
        entries[i].action
    } else {
        EventResponse::Consumed
    }
}

/// One step up, stopping at the first entry.
pub open spec fn step_up(i: int) -> int {
    if i > 0 {
        i - 1
    } else {
        0
    }
}

/// One step down, stopping at the last of `count` entries.
pub open spec fn step_down(i: int, count: int) -> int {
    let last = if count > 0 {
        count - 1
    } else {
        0
    };
    if i + 1 < last {
        i + 1
    } else {
        last
    }
}

/// The response announces `label` as the new selection.
pub open spec fn announces(r: Option<EventResponse>, label: Seq<char>) -> bool {
    r matches Some(EventResponse::Action(UiAction::Accessibility(AccessibilityEvent::Selection { label: l })))
        && l@ == label
}

/// The response announces that the menu collapsed.
pub open spec fn announces_collapse(r: Option<EventResponse>) -> bool {
    r matches Some(EventResponse::Action(UiAction::Accessibility(AccessibilityEvent::Collapsed { label })))
        && label@ == msg_text(Msg::FileTreeTitle)
}

/// The menu after keyboard `event` while submenu `kind` is open, and the
/// response (`None` when the answer is an announcement, see
/// [`submenu_key_announcement`]).
pub open spec fn submenu_key_step(m: MenuState, kind: SubmenuKind, event: UiEvent, data: FileTreeData) -> (
    Option<MenuState>,
    Option<EventResponse>,
) {
    let sub = submenu_spec(kind, data, m.target);
    if is_activation_spec(&event) {
        (None, Some(entry_answer(sub, m.submenu_index as int)))
    } else {
        match event {
            UiEvent::CursorUp | UiEvent::FocusPrevious => (
                Some(MenuState { submenu_index: step_up(m.submenu_index as int) as usize, ..m }),
                None,
            ),
            UiEvent::CursorDown | UiEvent::FocusNext => (
                Some(
                    MenuState {
                        submenu_index: step_down(m.submenu_index as int, sub.len() as int) as usize,
                        ..m
                    },
                ),
                None,
            ),
            UiEvent::KeyInput { text } => if text@ == "\x1b"@ {
                (Some(MenuState { submenu: None, submenu_index: 0, ..m }), None)
            } else {
                (Some(m), Some(EventResponse::Consumed))
            },
            _ => (Some(m), Some(EventResponse::Consumed)),
        }
    }
}

/// The menu after keyboard `event` with no submenu open, and the response
/// (`None` when the answer is an announcement).
pub open spec fn menu_key_step(m: MenuState, event: UiEvent, data: FileTreeData) -> (
    Option<MenuState>,
    Option<EventResponse>,
) {
    let items = context_menu_spec(m.target, data);
    let i = m.index as int;
    if is_activation_spec(&event) {
        if i >= items.len() {
            (None, Some(EventResponse::Consumed))
        } else if items[i].submenu is Some {
            (
                Some(MenuState { submenu: items[i].submenu, submenu_index: 0, ..m }),
                Some(EventResponse::Consumed),
            )
        } else {
            (None, Some(entry_answer(items, i)))
        }
    } else {
        match event {
            UiEvent::CursorUp | UiEvent::FocusPrevious => (
                Some(MenuState { index: step_up(i) as usize, ..m }),
                None,
            ),
            UiEvent::CursorDown | UiEvent::FocusNext => (
                Some(MenuState { index: step_down(i, items.len() as int) as usize, ..m }),
                None,
            ),
            UiEvent::KeyInput { text } => if text@ == "\x1b"@ {
                (None, None)
            } else {
                (Some(m), Some(EventResponse::Consumed))
            },
            UiEvent::CursorRight => if i < items.len() && items[i].submenu is Some {
                (Some(MenuState { submenu: items[i].submenu, submenu_index: 0, ..m }), None)
            } else {
                (Some(m), Some(EventResponse::Consumed))
            },
            _ => (Some(m), Some(EventResponse::Consumed)),
        }
    }
}

/// The announcement a step answers with when `menu_key_step` or
/// `submenu_key_step` leaves the response to it: the newly highlighted
/// entry's label, or the collapse of the menu.
pub open spec fn key_announcement_ok(
    m: MenuState,
    event: UiEvent,
    data: FileTreeData,
    after: Option<MenuState>,
    r: Option<EventResponse>,
) -> bool {
    match m.submenu {
        Some(kind) => {
            let sub = submenu_spec(kind, data, m.target);
            match event {
                UiEvent::KeyInput { .. } => announces_collapse(r),
                _ => announces(r, entry_label(sub, after->0.submenu_index as int)),
            }
        },
        None => {
            let items = context_menu_spec(m.target, data);
            match event {
                UiEvent::KeyInput { .. } => announces_collapse(r),
                UiEvent::CursorRight => announces(
                    r,
                    entry_label(submenu_spec(after->0.submenu->0, data, m.target), 0),
                ),
                _ => announces(r, entry_label(items, after->0.index as int)),
            }
        },
    }
}

/// Copy of the label of entry `i`, empty past the end.
pub(crate) fn label_at(items: &Vec<MenuItem>, Ghost(entries): Ghost<Seq<MenuEntry>>, i: usize) -> (r: String)
    requires
        items_match(items@, entries),
    ensures
        r@ == entry_label(entries, i as int),
{
    if i < items.len() {
        owned(items[i].label.as_str())
    } else {
        String::new()
    }
}

/// Answer of entry `i`.
pub(crate) fn answer_at(items: Vec<MenuItem>, Ghost(entries): Ghost<Seq<MenuEntry>>, i: usize) -> (r: EventResponse)
    requires
        items_match(items@, entries),
    ensures
        r == entry_answer(entries, i as int),
{
    if i < items.len() && items[i].enabled {
        let mut items = items;
        let chosen = items.remove(i);
        chosen.action
    } else {
        EventResponse::Consumed
    }
}

/// Handles a keyboard event while the context menu is open. Returns `None`
/// (and leaves the menu) when no menu is open or the event is not from
/// the keyboard; otherwise the menu moves its highlight, opens or closes
/// its submenu, or is chosen from and closes.
pub fn handle_menu_keyboard(menu: &mut Option<MenuState>, event: &UiEvent, data: &FileTreeData) -> (r: Option<EventResponse>)
    ensures
        (*old(menu) is None || !is_keyboard_spec(event)) ==> (*final(menu) == *old(menu) && r is None),
        (*old(menu) is Some && is_keyboard_spec(event)) ==> {
            let m = (*old(menu))->0;
            let (after, resp) = match m.submenu {
                Some(kind) => submenu_key_step(m, kind, *event, *data),
                None => menu_key_step(m, *event, *data),
            };
            &&& *final(menu) == after
            &&& match resp {
                Some(x) => r == Some(x),
                None => key_announcement_ok(m, *event, *data, after, r),
            }
        },
{
    let m = match menu {
        Some(m) => *m,
        None => return None,
    };
    if !is_keyboard_event(event) {
        return None;
    }
    let items = context_menu_items(m.target, data);
    let ghost entries = context_menu_spec(m.target, *data);
    match m.submenu {
        Some(kind) => {
            let sub = submenu_items(kind, data, m.target);
            let ghost sub_entries = submenu_spec(kind, *data, m.target);
            if keyboard_activation(event) {
                *menu = None;
                return Some(answer_at(sub, Ghost(sub_entries), m.submenu_index));
            }
            match event {
                UiEvent::CursorUp | UiEvent::FocusPrevious => {
                    let next = if m.submenu_index > 0 {
                        m.submenu_index - 1
                    } else {
                        0
                    };
                    *menu = Some(MenuState { submenu_index: next, ..m });
                    Some(selection_event(label_at(&sub, Ghost(sub_entries), next)))
                },
                UiEvent::CursorDown | UiEvent::FocusNext => {
                    let last = if sub.len() > 0 {
                        sub.len() - 1
                    } else {
                        0
                    };
                    let next = if m.submenu_index < last {
                        m.submenu_index + 1
                    } else {
                        last
                    };
                    *menu = Some(MenuState { submenu_index: next, ..m });
                    Some(selection_event(label_at(&sub, Ghost(sub_entries), next)))
                },
                UiEvent::KeyInput { text } => {
                    if key_is(text, "\x1b") {
                        *menu = Some(MenuState { submenu: None, submenu_index: 0, ..m });
                        Some(collapse_event())
                    } else {
                        Some(EventResponse::Consumed)
                    }
                },
                _ => Some(EventResponse::Consumed),
            }
        },
        None => {
            if keyboard_activation(event) {
                if m.index >= items.len() {
                    *menu = None;
                    return Some(EventResponse::Consumed);
                }
                match items[m.index].submenu {
                    Some(kind) => {
                        *menu = Some(MenuState { submenu: Some(kind), submenu_index: 0, ..m });
                        return Some(EventResponse::Consumed);
                    },
                    None => {
                        *menu = None;
                        return Some(answer_at(items, Ghost(entries), m.index));
                    },
                }
            }
            match event {
                UiEvent::CursorUp | UiEvent::FocusPrevious => {
                    let next = if m.index > 0 {
                        m.index - 1
                    } else {
                        0
                    };
                    *menu = Some(MenuState { index: next, ..m });
                    Some(selection_event(label_at(&items, Ghost(entries), next)))
                },
                UiEvent::CursorDown | UiEvent::FocusNext => {
                    let last = if items.len() > 0 {
                        items.len() - 1
                    } else {
                        0
                    };
                    let next = if m.index < last {
                        m.index + 1
                    } else {
                        last
                    };
                    *menu = Some(MenuState { index: next, ..m });
                    Some(selection_event(label_at(&items, Ghost(entries), next)))
                },
                UiEvent::KeyInput { text } => {
                    if key_is(text, "\x1b") {
                        *menu = None;
                        Some(collapse_event())
                    } else {
                        Some(EventResponse::Consumed)
                    }
                },
                UiEvent::CursorRight => {
                    if m.index < items.len() {
                        match items[m.index].submenu {
                            Some(kind) => {
                                let sub = submenu_items(kind, data, m.target);
                                let ghost sub_entries = submenu_spec(kind, *data, m.target);
                                let first = label_at(&sub, Ghost(sub_entries), 0);
                                *menu = Some(MenuState { submenu: Some(kind), submenu_index: 0, ..m });
                                Some(selection_event(first))
                            },
                            None => Some(EventResponse::Consumed),
                        }
                    } else {
                        Some(EventResponse::Consumed)
                    }
                },
                _ => Some(EventResponse::Consumed),
            }
        },
    }
}

} // verus!
