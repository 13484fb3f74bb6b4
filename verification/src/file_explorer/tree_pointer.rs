//! Presses on the file tree's rows and on its open context menu.
//!
//! The drawing layer finds the row under the pointer, and the entry of the
//! context menu or of its submenu; here those are turned into the tree's
//! new state and its answer.

use vstd::prelude::*;

use crate::event::EventResponse;

use super::data::FileTreeData;
use super::menu_keys::{answer_at, entry_answer, MenuState};
use super::rows::{AudioRowId, RowId};
use super::rows::flatten;
use super::tree_keys::{activation, expand_event_ok, nav_rows, toggled_group, TreeNav};
use super::{context_menu_items, context_menu_spec, submenu_items, submenu_spec};

verus! {

/// What a press on a row asks of the tree's owner.
#[derive(Clone, Debug, PartialEq, Eq)]
pub struct RowPress {
    pub response: EventResponse,
    /// The row may be dragged from here.
    pub arm_drag: bool,
}

/// `nav` with row `id` selected and focused.
pub open spec fn pressed(nav: TreeNav, id: RowId) -> TreeNav {
    TreeNav { selected: Some(id), focused: Some(id), ..nav }
}

/// The context menu opened on row `id`: none when the row has no entries.
pub open spec fn opened_menu(id: RowId, data: FileTreeData) -> Option<MenuState> {
    if context_menu_spec(id, data).len() == 0 {
        None
    } else {
        Some(MenuState { target: id, index: 0, submenu: None, submenu_index: 0 })
    }
}

/// Pointer events the context menu answers.
#[derive(Clone, Copy, Debug, PartialEq, Eq, Structural)]
pub enum MenuPointer {
    Move,
    Press,
}

/// Entries under the pointer: in the open submenu and in the menu, counted
/// from the top of each panel.
#[derive(Clone, Copy, Debug, PartialEq, Eq, Structural)]
pub struct MenuHit {
    pub submenu_row: Option<usize>,
    pub menu_row: Option<usize>,
}

/// `i`, but not past the last of `count` entries.
pub open spec fn clamp_entry(i: usize, count: int) -> usize {
    let last = if count > 0 { count - 1 } else { 0 };
    if i <= last { i } else { last as usize }
}

/// The menu after a pointer move or press at `hit`, and the answer (`None`
/// when the event is not the menu's). Moving highlights the entry under the
/// pointer; pressing a submenu entry or a plain entry chooses it and closes
/// the menu; pressing an entry with a submenu opens it; pressing elsewhere
/// closes the menu.
pub open spec fn menu_pointer_step(
    m: MenuState,
    pointer: MenuPointer,
    hit: MenuHit,
    data: FileTreeData,
) -> (Option<MenuState>, Option<EventResponse>) {
    let items = context_menu_spec(m.target, data);
    let in_submenu = m.submenu is Some && hit.submenu_row is Some;
    match pointer {
        MenuPointer::Move => if in_submenu {
            let sub = submenu_spec(m.submenu->0, data, m.target);
            (
                Some(MenuState { submenu_index: clamp_entry(hit.submenu_row->0, sub.len() as int), ..m }),
                Some(EventResponse::Consumed),
            )
        } else {
            match hit.menu_row {
                Some(i) => (
                    Some(MenuState { index: clamp_entry(i, items.len() as int), ..m }),
                    Some(EventResponse::Consumed),
                ),
                None => (Some(m), None),
            }
        },
        MenuPointer::Press => if in_submenu {
            (
                None,
                Some(
                    entry_answer(
                        submenu_spec(m.submenu->0, data, m.target),
                        hit.submenu_row->0 as int,
                    ),
                ),
            )
        } else {
            match hit.menu_row {
                Some(i) => if i >= items.len() {
                    (None, Some(EventResponse::Consumed))
                } else if items[i as int].submenu is Some {
                    (
                        Some(MenuState { submenu: items[i as int].submenu, submenu_index: 0, ..m }),
                        Some(EventResponse::Consumed),
                    )
                } else {
                    (None, Some(entry_answer(items, i as int)))
                },
                None => (None, Some(EventResponse::Consumed)),
            }
        },
    }
}

impl TreeNav {
    /// A press on row `id`: the row is selected and focused; a group opens
    /// or closes and announces it; a band other than the active one is
    /// loaded; element rows may then be dragged, the root and the original
    /// video's audio may not.
    pub fn press_row(&mut self, id: RowId, data: &FileTreeData) -> (r: RowPress)
        ensures
            match id {
                RowId::Group(kind) => {
                    &&& *final(self) == toggled_group(pressed(*old(self), id), kind)
                    &&& !r.arm_drag
                    &&& expand_event_ok(*final(self), kind, *data, r.response)
                },
                RowId::Root | RowId::Audio(AudioRowId::OriginalVideo) => {
                    &&& *final(self) == pressed(*old(self), id)
                    &&& !r.arm_drag
                    &&& r.response == EventResponse::Consumed
                },
                RowId::Band(_) => {
                    &&& *final(self) == activation(pressed(*old(self), id), id, *data).0
                    &&& r.arm_drag
                    &&& Some(r.response) == activation(pressed(*old(self), id), id, *data).1
                },
                _ => {
                    &&& *final(self) == pressed(*old(self), id)
                    &&& r.arm_drag
                    &&& r.response == EventResponse::Consumed
                },
            },
    {
        self.selected = Some(id);
        self.focused = Some(id);
        match id {
            RowId::Group(_) => RowPress { response: self.activate_row(id, data), arm_drag: false },
            RowId::Root | RowId::Audio(AudioRowId::OriginalVideo) => RowPress {
                response: EventResponse::Consumed,
                arm_drag: false,
            },
            RowId::Band(_) => RowPress { response: self.activate_row(id, data), arm_drag: true },
            _ => RowPress { response: EventResponse::Consumed, arm_drag: true },
        }
    }

    /// A wheel notch over the tree: the first row shown moves up one, or
    /// down one while rows remain below the `visible` ones.
    pub fn scroll_wheel(&mut self, up: bool, visible: usize, data: &FileTreeData)
        ensures
            ({
                let count = nav_rows(*old(self), *data).len() as int;
                let max = if count > visible { count - visible } else { 0 };
                let s = old(self).scroll as int;
                *final(self) == TreeNav {
                    scroll: (if up {
                        if s > 0 { s - 1 } else { 0 }
                    } else if s + 1 <= max {
                        s + 1
                    } else {
                        max
                    }) as usize,
                    ..*old(self)
                }
            }),
    {
        let rows = flatten(data, &self.expanded);
        let max = if rows.len() > visible { rows.len() - visible } else { 0 };
        if up {
            self.scroll = if self.scroll > 0 { self.scroll - 1 } else { 0 };
        } else {
            let down = self.scroll.saturating_add(1);
            self.scroll = if down <= max { down } else { max };
        }
    }

    /// A secondary press on row `id`: the row is selected and focused and
    /// its context menu opens, when it has entries.
    pub fn context_press(&mut self, id: RowId, data: &FileTreeData) -> (r: Option<MenuState>)
        ensures
            *final(self) == pressed(*old(self), id),
            r == opened_menu(id, *data),
    {
        self.selected = Some(id);
        self.focused = Some(id);
        let items = context_menu_items(id, data);
        if items.len() == 0 {
            None
        } else {
            Some(MenuState { target: id, index: 0, submenu: None, submenu_index: 0 })
        }
    }
}

/// Handles a pointer move or press while the context menu is open (see
/// `menu_pointer_step`); nothing without a menu.
pub fn handle_menu_pointer(
    menu: &mut Option<MenuState>,
    pointer: MenuPointer,
    hit: MenuHit,
    data: &FileTreeData,
) -> (r: Option<EventResponse>)
    ensures
        match *old(menu) {
            None => *final(menu) is None && r is None,
            Some(m) => (*final(menu), r) == menu_pointer_step(m, pointer, hit, *data),
        },
{
    let m = match menu {
        Some(m) => *m,
        None => return None,
    };
    let items = context_menu_items(m.target, data);
    let ghost entries = context_menu_spec(m.target, *data);
    if let (Some(kind), Some(i)) = (m.submenu, hit.submenu_row) {
        let sub = submenu_items(kind, data, m.target);
        let ghost sub_entries = submenu_spec(kind, *data, m.target);
        match pointer {
            MenuPointer::Move => {
                let last = if sub.len() > 0 { sub.len() - 1 } else { 0 };
                let index = if i <= last { i } else { last };
                *menu = Some(MenuState { submenu_index: index, ..m });
                return Some(EventResponse::Consumed);
            },
            MenuPointer::Press => {
                *menu = None;
                return Some(answer_at(sub, Ghost(sub_entries), i));
            },
        }
    }
    match pointer {
        MenuPointer::Move => match hit.menu_row {
            Some(i) => {
                let last = if items.len() > 0 { items.len() - 1 } else { 0 };
                let index = if i <= last { i } else { last };
                *menu = Some(MenuState { index, ..m });
                Some(EventResponse::Consumed)
            },
            None => None,
        },
        MenuPointer::Press => match hit.menu_row {
            Some(i) => {
                if i >= items.len() {
                    *menu = None;
                    return Some(EventResponse::Consumed);
                }
                match items[i].submenu {
                    Some(kind) => {
                        *menu = Some(MenuState { submenu: Some(kind), submenu_index: 0, ..m });
                        Some(EventResponse::Consumed)
                    },
                    None => {
                        *menu = None;
                        Some(answer_at(items, Ghost(entries), i))
                    },
                }
            },
            None => {
                *menu = None;
                Some(EventResponse::Consumed)
            },
        },
    }
}

} // verus!
