//! A dropdown list with optional submenus, driven by keyboard and pointer.
//!
//! The widget decides; its owner acts. Choosing an option or a submenu
//! item is reported as a [`DropdownOutcome`] for the owner to run the
//! matching callback, and where the pointer is (which option, which
//! submenu item, inside which panel) is found by the drawing layer and
//! handed in as a [`DropdownHit`].

use vstd::prelude::*;

use crate::event::{key_is, AccessibilityEvent, EventResponse, PointerKind, UiAction, UiEvent};
use crate::text::owned;

verus! {

/// Visual state of the trigger button.
#[derive(Clone, Copy, Debug, PartialEq, Eq, Structural)]
pub enum DropdownState {
    Normal,
    Hovered,
    Pressed,
}

/// A submenu opened from option `trigger_index`.
#[derive(Clone, Debug)]
pub struct SubmenuState {
    pub trigger_index: usize,
    pub items: Vec<String>,
    /// Items can be removed (the submenu has a remove callback).
    pub removable: bool,
    pub open: bool,
    pub hovered: Option<usize>,
    pub hovered_remove: bool,
}

/// A submenu, as values.
pub struct SubmenuView {
    pub trigger_index: usize,
    pub items: Seq<Seq<char>>,
    pub removable: bool,
    pub open: bool,
    pub hovered: Option<usize>,
    pub hovered_remove: bool,
}

/// The views of a list of strings, in order.
pub open spec fn string_views(v: Seq<String>) -> Seq<Seq<char>> {
    Seq::new(v.len(), |i: int| v[i]@)
}

impl View for SubmenuState {
    type V = SubmenuView;

    open spec fn view(&self) -> SubmenuView {
        SubmenuView {
            trigger_index: self.trigger_index,
            items: string_views(self.items@),
            removable: self.removable,
            open: self.open,
            hovered: self.hovered,
            hovered_remove: self.hovered_remove,
        }
    }
}

/// The dropdown's state, as values.
pub struct DropdownView {
    pub options: Seq<Seq<char>>,
    pub selected: usize,
    pub open: bool,
    pub hovered_option: Option<usize>,
    pub trigger_state: DropdownState,
    pub disabled: Seq<bool>,
    pub submenus: Seq<SubmenuView>,
}

/// A dropdown list.
pub struct Dropdown {
    options: Vec<String>,
    selected: usize,
    open: bool,
    hovered_option: Option<usize>,
    trigger_state: DropdownState,
    disabled_items: Vec<bool>,
    submenus: Vec<SubmenuState>,
}

impl View for Dropdown {
    type V = DropdownView;

    closed spec fn view(&self) -> DropdownView {
        DropdownView {
            options: string_views(self.options@),
            selected: self.selected,
            open: self.open,
            hovered_option: self.hovered_option,
            trigger_state: self.trigger_state,
            disabled: self.disabled_items@,
            submenus: Seq::new(self.submenus@.len(), |i: int| self.submenus@[i]@),
        }
    }
}

/// What the owner is asked to do after an event.
#[derive(Clone, Debug, PartialEq, Eq)]
pub enum DropdownOutcome {
    /// Answer with this response.
    Respond(EventResponse),
    /// Run the select callback for option `index`.
    Select(usize),
    /// Run the select callback of submenu `sub` for item `item`.
    SubmenuSelect(usize, usize),
    /// Run the remove callback of submenu `sub` for item `item`.
    SubmenuRemove(usize, usize),
}

/// Item `item` of submenu `sub`.
#[derive(Clone, Copy, Debug, PartialEq, Eq, Structural)]
pub struct SubmenuPos {
    pub sub: usize,
    pub item: usize,
}

/// Where the pointer is, as the drawing layer found it.
#[derive(Clone, Copy, Debug, PartialEq, Eq, Structural)]
pub struct DropdownHit {
    /// On the trigger button.
    pub in_bounds: bool,
    /// On the option panel (open dropdown).
    pub in_panel: bool,
    /// On option `n` of the panel.
    pub option: Option<usize>,
    /// On an open submenu's panel.
    pub in_submenu_panel: bool,
    /// On an item of an open submenu.
    pub submenu_item: Option<SubmenuPos>,
    /// Within the remove button's strip at the right of a submenu.
    pub in_remove_zone: bool,
}

/// Option `i` is disabled.
pub open spec fn disabled_at(d: DropdownView, i: int) -> bool {
    0 <= i < d.disabled.len() && d.disabled[i]
}

/// First enabled option at or after `k`.
pub open spec fn first_enabled_from(d: DropdownView, k: int) -> Option<usize>
    decreases d.options.len() - k,
{
    if k < 0 || k >= d.options.len() {
        None
    } else if !disabled_at(d, k) {
        Some(k as usize)
    } else {
        first_enabled_from(d, k + 1)
    }
}

/// Last enabled option before `k`.
pub open spec fn last_enabled_before(d: DropdownView, k: int) -> Option<usize>
    decreases k,
{
    if k <= 0 || k > d.options.len() {
        None
    } else if !disabled_at(d, k - 1) {
        Some((k - 1) as usize)
    } else {
        last_enabled_before(d, k - 1)
    }
}

/// Index of the first open submenu at or after `k`, or the count.
pub open spec fn open_sub_from(subs: Seq<SubmenuView>, k: int) -> int
    decreases subs.len() - k,
{
    if k < 0 || k >= subs.len() {
        subs.len() as int
    } else if subs[k].open {
        k
    } else {
        open_sub_from(subs, k + 1)
    }
}

/// Index of the first submenu opened from option `index` at or after `k`,
/// or the count.
pub open spec fn sub_for_from(subs: Seq<SubmenuView>, index: usize, k: int) -> int
    decreases subs.len() - k,
{
    if k < 0 || k >= subs.len() {
        subs.len() as int
    } else if subs[k].trigger_index == index {
        k
    } else {
        sub_for_from(subs, index, k + 1)
    }
}

/// A submenu closed, with nothing hovered.
pub open spec fn closed_sub(s: SubmenuView) -> SubmenuView {
    SubmenuView { open: false, hovered: None, hovered_remove: false, ..s }
}

/// The dropdown closed: panel, hover and every submenu.
pub open spec fn closed(d: DropdownView) -> DropdownView {
    DropdownView {
        open: false,
        hovered_option: None,
        submenus: Seq::new(d.submenus.len(), |i: int| closed_sub(d.submenus[i])),
        ..d
    }
}

/// The submenu of the hovered option opened, its first item hovered; the
/// flag says whether there was one.
pub open spec fn with_hovered_submenu(d: DropdownView) -> (DropdownView, bool) {
    match d.hovered_option {
        None => (d, false),
        Some(index) => {
            let k = sub_for_from(d.submenus, index, 0);
            if k < d.submenus.len() {
                let s = d.submenus[k];
                (
                    DropdownView {
                        submenus: d.submenus.update(
                            k,
                            SubmenuView {
                                open: true,
                                hovered: if s.items.len() > 0 {
                                    Some(0usize)
                                } else {
                                    None
                                },
                                ..s
                            },
                        ),
                        ..d
                    },
                    true,
                )
            } else {
                (d, false)
            }
        },
    }
}

impl Dropdown {
    /// Hovered entries lie within their lists.
    pub open spec fn wf(&self) -> bool {
        &&& (self@.hovered_option matches Some(h) ==> h < self@.options.len())
        &&& forall|i: int|
            0 <= i < self@.submenus.len() ==> ((#[trigger] self@.submenus[i]).hovered matches Some(h)
                ==> h < self@.submenus[i].items.len())
        &&& self@.options.len() < usize::MAX
        &&& forall|i: int| 0 <= i < self@.submenus.len() ==> (#[trigger] self@.submenus[i]).items.len() < usize::MAX
    }

    /// A closed dropdown over `options` with the first one selected.
    pub fn new(options: Vec<String>) -> (r: Self)
        requires
            options@.len() < usize::MAX,
        ensures
            r.wf(),
            r@.options == string_views(options@),
            r@.selected == 0,
            !r@.open,
            r@.hovered_option is None,
            r@.trigger_state == DropdownState::Normal,
            r@.disabled.len() == 0,
            r@.submenus.len() == 0,
    {
        let r = Dropdown {
            options,
            selected: 0,
            open: false,
            hovered_option: None,
            trigger_state: DropdownState::Normal,
            disabled_items: Vec::new(),
            submenus: Vec::new(),
        };
        assert(r@.submenus =~= Seq::<SubmenuView>::empty());
        r
    }

    /// The same dropdown with `disabled[i]` disabling option `i`.
    pub fn with_disabled_items(self, disabled: Vec<bool>) -> (r: Self)
        requires
            self.wf(),
        ensures
            r.wf(),
            r@ == (DropdownView { disabled: disabled@, ..self@ }),
    {
        Dropdown { disabled_items: disabled, ..self }
    }

    /// The same dropdown with a submenu of `items` opened from option
    /// `trigger_index`; `removable` when it has a remove callback.
    pub fn with_submenu(self, trigger_index: usize, items: Vec<String>, removable: bool) -> (r: Self)
        requires
            self.wf(),
            items@.len() < usize::MAX,
        ensures
            r.wf(),
            r@ == (DropdownView {
                submenus: self@.submenus.push(
                    SubmenuView {
                        trigger_index,
                        items: string_views(items@),
                        removable,
                        open: false,
                        hovered: None,
                        hovered_remove: false,
                    },
                ),
                ..self@
            }),
    {
        let mut d = self;
        let ghost before = d@.submenus;
        d.submenus.push(
            SubmenuState { trigger_index, items, removable, open: false, hovered: None, hovered_remove: false },
        );
        assert(d@.submenus =~= before.push(d.submenus@.last()@));
        d
    }

    /// Whether the panel is open.
    pub fn is_open(&self) -> (r: bool)
        ensures
            r == self@.open,
    {
        self.open
    }

    /// The selected option.
    pub fn selected(&self) -> (r: usize)
        ensures
            r == self@.selected,
    {
        self.selected
    }

    /// The option under the keyboard or pointer.
    pub fn hovered_option(&self) -> (r: Option<usize>)
        ensures
            r == self@.hovered_option,
    {
        self.hovered_option
    }

    /// The trigger's visual state.
    pub fn trigger_state(&self) -> (r: DropdownState)
        ensures
            r == self@.trigger_state,
    {
        self.trigger_state
    }

    /// The options.
    pub fn options(&self) -> (r: &Vec<String>)
        ensures
            string_views(r@) == self@.options,
    {
        &self.options
    }

    /// The submenus.
    pub fn submenus(&self) -> (r: &Vec<SubmenuState>)
        ensures
            Seq::new(r@.len(), |i: int| r@[i]@) == self@.submenus,
    {
        &self.submenus
    }

    /// Whether option `index` is disabled.
    pub fn is_disabled(&self, index: usize) -> (r: bool)
        ensures
            r == disabled_at(self@, index as int),
    {
        index < self.disabled_items.len() && self.disabled_items[index]
    }

    fn first_enabled(&self) -> (r: Option<usize>)
        requires
            self.wf(),
        ensures
            r == first_enabled_from(self@, 0),
            r matches Some(i) ==> i < self@.options.len(),
    {
        let mut i: usize = 0;
        while i < self.options.len()
            invariant
                i <= self@.options.len(),
                self@.options.len() == self.options@.len(),
                first_enabled_from(self@, 0) == first_enabled_from(self@, i as int),
            decreases self.options@.len() - i,
        {
            if !self.is_disabled(i) {
                return Some(i);
            }
            i = i + 1;
        }
        None
    }

    fn last_enabled(&self) -> (r: Option<usize>)
        requires
            self.wf(),
        ensures
            r == last_enabled_before(self@, self@.options.len() as int),
            r matches Some(i) ==> i < self@.options.len(),
    {
        let mut k: usize = self.options.len();
        while k > 0
            invariant
                k <= self@.options.len(),
                self@.options.len() == self.options@.len(),
                last_enabled_before(self@, self@.options.len() as int) == last_enabled_before(
                    self@,
                    k as int,
                ),
            decreases k,
        {
            if !self.is_disabled(k - 1) {
                return Some(k - 1);
            }
            k = k - 1;
        }
        None
    }

    fn open_sub(&self) -> (r: usize)
        ensures
            r == open_sub_from(self@.submenus, 0),
            r <= self@.submenus.len(),
            r < self@.submenus.len() ==> self@.submenus[r as int].open,
    {
        let mut i: usize = 0;
        while i < self.submenus.len()
            invariant
                i <= self@.submenus.len(),
                self@.submenus.len() == self.submenus@.len(),
                open_sub_from(self@.submenus, 0) == open_sub_from(self@.submenus, i as int),
            decreases self.submenus@.len() - i,
        {
            if self.submenus[i].open {
                return i;
            }
            i = i + 1;
        }
        i
    }

    fn close(&mut self)
        requires
            old(self).wf(),
        ensures
            final(self).wf(),
            final(self)@ == closed(old(self)@),
    {
        self.open = false;
        self.hovered_option = None;
        let ghost start = old(self)@;
        let mut i: usize = 0;
        while i < self.submenus.len()
            invariant
                i <= self.submenus@.len(),
                self.submenus@.len() == start.submenus.len(),
                string_views(self.options@) == start.options,
                self.selected == start.selected,
                !self.open,
                self.hovered_option is None,
                self.trigger_state == start.trigger_state,
                self.disabled_items@ == start.disabled,
                forall|j: int| 0 <= j < i ==> #[trigger] self.submenus@[j]@ == closed_sub(start.submenus[j]),
                forall|j: int| i <= j < self.submenus@.len() ==> #[trigger] self.submenus@[j]@ == start.submenus[j],
                start.options.len() < usize::MAX,
                forall|j: int| 0 <= j < start.submenus.len() ==> (#[trigger] start.submenus[j]).items.len() < usize::MAX,
            decreases self.submenus@.len() - i,
        {
            let ghost before = self.submenus@;
            let mut sub = self.submenus.remove(i);
            sub.open = false;
            sub.hovered = None;
            sub.hovered_remove = false;
            let ghost sv = sub;
            assert(before[i as int]@ == start.submenus[i as int]);
            assert(sv.items == before[i as int].items);
            assert(sv@ =~= closed_sub(start.submenus[i as int]));
            self.submenus.insert(i, sub);
            assert(self.submenus@ =~= before.update(i as int, sv));
            i = i + 1;
        }
        assert(self@.submenus =~= closed(start).submenus);
    }
}

pub(crate) proof fn lemma_step_back(cur: int, n: int)
    requires
        0 <= cur < n,
    ensures
        (cur + n - 1) % n == if cur == 0 {
            n - 1
        } else {
            cur - 1
        },
{
    if cur == 0 {
        vstd::arithmetic::div_mod::lemma_small_mod((n - 1) as nat, n as nat);
    } else {
        vstd::arithmetic::div_mod::lemma_mod_add_multiples_vanish(cur - 1, n);
        vstd::arithmetic::div_mod::lemma_small_mod((cur - 1) as nat, n as nat);
    }
}

/// A submenu closed, keeping its remove-button hover.
pub open spec fn unhovered_sub(s: SubmenuView) -> SubmenuView {
    SubmenuView { open: false, hovered: None, ..s }
}

/// The next enabled option after `cur`, trying at most `steps` options,
/// going round the list forwards or backwards.
pub open spec fn scan_enabled(d: DropdownView, cur: int, forward: bool, steps: int) -> Option<usize>
    decreases steps,
{
    if steps <= 0 || d.options.len() == 0 {
        None
    } else {
        let n = d.options.len() as int;
        let c = if forward {
            (cur + 1) % n
        } else {
            (cur + n - 1) % n
        };
        if !disabled_at(d, c) {
            Some(c as usize)
        } else {
            scan_enabled(d, c, forward, steps - 1)
        }
    }
}

/// The dropdown after an arrow key: inside the open submenu the hover
/// moves round its items; otherwise it moves round the enabled options
/// and every submenu closes.
pub open spec fn moved(d: DropdownView, forward: bool) -> DropdownView {
    let k = open_sub_from(d.submenus, 0);
    if k < d.submenus.len() {
        let s = d.submenus[k];
        let len = s.items.len() as int;
        if len == 0 {
            d
        } else {
            let cur = match s.hovered {
                Some(h) => h as int,
                None => if forward {
                    len - 1
                } else {
                    0
                },
            };
            let next = if forward {
                (cur + 1) % len
            } else if cur == 0 {
                len - 1
            } else {
                cur - 1
            };
            DropdownView {
                submenus: d.submenus.update(
                    k,
                    SubmenuView { hovered: Some(next as usize), hovered_remove: false, ..s },
                ),
                ..d
            }
        }
    } else if d.options.len() == 0 {
        d
    } else {
        let n = d.options.len() as int;
        let cur = match d.hovered_option {
            Some(h) => h as int,
            None => if forward {
                n - 1
            } else {
                0
            },
        };
        DropdownView {
            hovered_option: match scan_enabled(d, cur, forward, n) {
                Some(c) => Some(c),
                None => d.hovered_option,
            },
            submenus: Seq::new(d.submenus.len(), |i: int| unhovered_sub(d.submenus[i])),
            ..d
        }
    }
}

/// Label of the entry the keyboard is on: the open submenu's hovered item,
/// or the hovered option.
pub open spec fn announced_label(d: DropdownView) -> Option<Seq<char>> {
    let k = open_sub_from(d.submenus, 0);
    if k < d.submenus.len() {
        let s = d.submenus[k];
        match s.hovered {
            Some(h) => if h < s.items.len() {
                Some(s.items[h as int])
            } else {
                None
            },
            None => None,
        }
    } else {
        match d.hovered_option {
            Some(h) => if h < d.options.len() {
                Some(d.options[h as int])
            } else {
                None
            },
            None => None,
        }
    }
}

/// The response announcing the entry the keyboard is on.
pub open spec fn announces(d: DropdownView, r: DropdownOutcome) -> bool {
    match announced_label(d) {
        Some(l) => r matches DropdownOutcome::Respond(
            EventResponse::Action(UiAction::Accessibility(AccessibilityEvent::Selection { label })),
        ) && label@ == l,
        None => r == DropdownOutcome::Respond(EventResponse::Consumed),
    }
}

/// Enter or Activate: open the panel, choose the hovered submenu item,
/// open the hovered option's submenu, or choose the hovered option.
pub open spec fn activated(d: DropdownView) -> (DropdownView, DropdownOutcome) {
    let k = open_sub_from(d.submenus, 0);
    if !d.open {
        (
            DropdownView { open: true, hovered_option: first_enabled_from(d, 0), ..d },
            DropdownOutcome::Respond(EventResponse::Consumed),
        )
    } else if k < d.submenus.len() {
        let item = match d.submenus[k].hovered {
            Some(h) => h,
            None => 0usize,
        };
        if item < d.submenus[k].items.len() {
            (closed(d), DropdownOutcome::SubmenuSelect(k as usize, item))
        } else {
            (d, DropdownOutcome::Respond(EventResponse::Consumed))
        }
    } else {
        let index = match d.hovered_option {
            Some(h) => Some(h),
            None => first_enabled_from(d, 0),
        };
        match index {
            None => (d, DropdownOutcome::Respond(EventResponse::Consumed)),
            Some(i) => if with_hovered_submenu(d).1 {
                (with_hovered_submenu(d).0, DropdownOutcome::Respond(EventResponse::Consumed))
            } else if disabled_at(d, i as int) {
                (d, DropdownOutcome::Respond(EventResponse::Consumed))
            } else {
                (closed(DropdownView { selected: i, ..d }), DropdownOutcome::Select(i))
            },
        }
    }
}

/// Delete: remove the open submenu's hovered item, when it can be removed.
pub open spec fn removed(d: DropdownView) -> (DropdownView, DropdownOutcome) {
    let k = open_sub_from(d.submenus, 0);
    if k >= d.submenus.len() {
        (d, DropdownOutcome::Respond(EventResponse::Consumed))
    } else {
        let s = d.submenus[k];
        let item = match s.hovered {
            Some(h) => h,
            None => 0usize,
        };
        if item >= s.items.len() || !s.removable {
            (d, DropdownOutcome::Respond(EventResponse::Consumed))
        } else {
            (closed(d), DropdownOutcome::SubmenuRemove(k as usize, item))
        }
    }
}

/// Home or End: the first or last item of the open submenu, or the first
/// or last enabled option.
pub open spec fn to_edge(d: DropdownView, last: bool) -> DropdownView {
    let k = open_sub_from(d.submenus, 0);
    if k < d.submenus.len() {
        let s = d.submenus[k];
        let h = if s.items.len() == 0 {
            None
        } else if last {
            Some((s.items.len() - 1) as usize)
        } else {
            Some(0usize)
        };
        DropdownView { submenus: d.submenus.update(k, SubmenuView { hovered: h, ..s }), ..d }
    } else {
        DropdownView {
            hovered_option: if last {
                last_enabled_before(d, d.options.len() as int)
            } else {
                first_enabled_from(d, 0)
            },
            ..d
        }
    }
}

/// Left arrow: close the open submenu, or the whole dropdown.
pub open spec fn backed_out(d: DropdownView) -> DropdownView {
    let k = open_sub_from(d.submenus, 0);
    if k < d.submenus.len() {
        DropdownView { submenus: d.submenus.update(k, unhovered_sub(d.submenus[k])), ..d }
    } else {
        closed(d)
    }
}

impl Dropdown {
    fn replace_sub(&mut self, k: usize, sub: SubmenuState)
        requires
            k < old(self)@.submenus.len(),
        ensures
            final(self)@ == (DropdownView { submenus: old(self)@.submenus.update(k as int, sub@), ..old(self)@ }),
    {
        let ghost before = self.submenus@;
        let ghost sv = sub;
        self.submenus.remove(k);
        self.submenus.insert(k, sub);
        assert(self.submenus@ =~= before.update(k as int, sv));
        assert(self@.submenus =~= old(self)@.submenus.update(k as int, sv@));
    }

    fn take_sub(&mut self, k: usize) -> (r: SubmenuState)
        requires
            k < old(self)@.submenus.len(),
        ensures
            r@ == old(self)@.submenus[k as int],
            final(self).submenus@ == old(self).submenus@.remove(k as int),
            final(self).options == old(self).options,
            final(self).selected == old(self).selected,
            final(self).open == old(self).open,
            final(self).hovered_option == old(self).hovered_option,
            final(self).trigger_state == old(self).trigger_state,
            final(self).disabled_items == old(self).disabled_items,
    {
        self.submenus.remove(k)
    }

    fn put_sub(&mut self, k: usize, sub: SubmenuState)
        requires
            k <= old(self).submenus@.len(),
        ensures
            final(self).submenus@ == old(self).submenus@.insert(k as int, sub),
            final(self).options == old(self).options,
            final(self).selected == old(self).selected,
            final(self).open == old(self).open,
            final(self).hovered_option == old(self).hovered_option,
            final(self).trigger_state == old(self).trigger_state,
            final(self).disabled_items == old(self).disabled_items,
    {
        self.submenus.insert(k, sub);
    }

    fn unhover_all(&mut self)
        ensures
            final(self)@ == (DropdownView {
                submenus: Seq::new(old(self)@.submenus.len(), |i: int| unhovered_sub(old(self)@.submenus[i])),
                ..old(self)@
            }),
    {
        let ghost start = old(self)@;
        let mut i: usize = 0;
        while i < self.submenus.len()
            invariant
                i <= self.submenus@.len(),
                self.submenus@.len() == start.submenus.len(),
                string_views(self.options@) == start.options,
                self.selected == start.selected,
                self.open == start.open,
                self.hovered_option == start.hovered_option,
                self.trigger_state == start.trigger_state,
                self.disabled_items@ == start.disabled,
                forall|j: int| 0 <= j < i ==> #[trigger] self.submenus@[j]@ == unhovered_sub(start.submenus[j]),
                forall|j: int| i <= j < self.submenus@.len() ==> #[trigger] self.submenus@[j]@ == start.submenus[j],
            decreases self.submenus@.len() - i,
        {
            let ghost before = self.submenus@;
            let mut sub = self.submenus.remove(i);
            sub.open = false;
            sub.hovered = None;
            let ghost sv = sub;
            assert(before[i as int]@ == start.submenus[i as int]);
            assert(sv.items == before[i as int].items);
            assert(sv@ =~= unhovered_sub(start.submenus[i as int]));
            self.submenus.insert(i, sub);
            assert(self.submenus@ =~= before.update(i as int, sv));
            i = i + 1;
        }
        assert(self@.submenus =~= Seq::new(start.submenus.len(), |i: int| unhovered_sub(start.submenus[i])));
    }

    fn sub_for(&self, index: usize) -> (r: usize)
        ensures
            r == sub_for_from(self@.submenus, index, 0),
            r <= self@.submenus.len(),
            r < self@.submenus.len() ==> self@.submenus[r as int].trigger_index == index,
    {
        let mut i: usize = 0;
        while i < self.submenus.len()
            invariant
                i <= self@.submenus.len(),
                self@.submenus.len() == self.submenus@.len(),
                sub_for_from(self@.submenus, index, 0) == sub_for_from(self@.submenus, index, i as int),
            decreases self.submenus@.len() - i,
        {
            if self.submenus[i].trigger_index == index {
                return i;
            }
            i = i + 1;
        }
        i
    }

    fn open_hovered_submenu(&mut self) -> (r: bool)
        requires
            old(self).wf(),
        ensures
            final(self).wf(),
            (final(self)@, r) == with_hovered_submenu(old(self)@),
    {
        let index = match self.hovered_option {
            Some(i) => i,
            None => return false,
        };
        let k = self.sub_for(index);
        if k >= self.submenus.len() {
            return false;
        }
        let mut sub = self.take_sub(k);
        sub.open = true;
        sub.hovered = if sub.items.len() > 0 {
            Some(0)
        } else {
            None
        };
        self.put_sub(k, sub);
        proof {
            assert(self.submenus@ =~= old(self).submenus@.update(k as int, sub));
            assert(self@.submenus =~= with_hovered_submenu(old(self)@).0.submenus);
        }
        true
    }
}

impl Dropdown {
    fn move_keyboard(&mut self, forward: bool)
        requires
            old(self).wf(),
        ensures
            final(self).wf(),
            final(self)@ == moved(old(self)@, forward),
    {
        let k = self.open_sub();
        if k < self.submenus.len() {
            let len = self.submenus[k].items.len();
            if len == 0 {
                return;
            }
            let mut sub = self.take_sub(k);
            let cur = match sub.hovered {
                Some(h) => h,
                None => if forward {
                    len - 1
                } else {
                    0
                },
            };
            assert(cur < len);
            let next = if forward {
                (cur + 1) % len
            } else if cur == 0 {
                len - 1
            } else {
                cur - 1
            };
            proof {
                lemma_step_back(cur as int, len as int);
            }
            sub.hovered = Some(next);
            sub.hovered_remove = false;
            self.put_sub(k, sub);
            proof {
                assert(self.submenus@ =~= old(self).submenus@.update(k as int, sub));
                assert(self@.submenus =~= moved(old(self)@, forward).submenus);
            }
            return;
        }
        let n = self.options.len();
        if n == 0 {
            return;
        }
        let mut cur = match self.hovered_option {
            Some(h) => h,
            None => if forward {
                n - 1
            } else {
                0
            },
        };
        let mut steps: usize = n;
        let mut found: Option<usize> = None;
        let ghost c0 = cur as int;
        while steps > 0 && found.is_none()
            invariant
                self.wf(),
                self@ == old(self)@,
                n == self@.options.len(),
                n > 0,
                cur < n,
                steps <= n,
                found is None ==> scan_enabled(old(self)@, cur as int, forward, steps as int)
                    == scan_enabled(old(self)@, c0, forward, n as int),
                found is Some ==> found == scan_enabled(old(self)@, c0, forward, n as int),
                found matches Some(c) ==> c < n,
            decreases steps,
        {
            let ghost prev = cur as int;
            cur = if forward {
                (cur + 1) % n
            } else if cur == 0 {
                n - 1
            } else {
                cur - 1
            };
            proof {
                lemma_step_back(prev, n as int);
                assert(cur as int == if forward {
                    (prev + 1) % (n as int)
                } else {
                    (prev + n - 1) % (n as int)
                });
            }
            if !self.is_disabled(cur) {
                found = Some(cur);
            }
            steps = steps - 1;
        }
        match found {
            Some(c) => {
                self.hovered_option = Some(c);
            },
            None => {},
        }
        self.unhover_all();
    }

    fn announce(&self) -> (r: DropdownOutcome)
        requires
            self.wf(),
        ensures
            announces(self@, r),
    {
        let k = self.open_sub();
        let label = if k < self.submenus.len() {
            match self.submenus[k].hovered {
                Some(h) => if h < self.submenus[k].items.len() {
                    Some(owned(self.submenus[k].items[h].as_str()))
                } else {
                    None
                },
                None => None,
            }
        } else {
            match self.hovered_option {
                Some(h) => if h < self.options.len() {
                    Some(owned(self.options[h].as_str()))
                } else {
                    None
                },
                None => None,
            }
        };
        match label {
            Some(label) => DropdownOutcome::Respond(
                EventResponse::Action(UiAction::Accessibility(AccessibilityEvent::Selection { label })),
            ),
            None => DropdownOutcome::Respond(EventResponse::Consumed),
        }
    }

    fn activate_keyboard(&mut self) -> (r: DropdownOutcome)
        requires
            old(self).wf(),
        ensures
            final(self).wf(),
            (final(self)@, r) == activated(old(self)@),
    {
        if !self.open {
            let first = self.first_enabled();
            self.open = true;
            self.hovered_option = first;
            assert(self@.submenus =~= old(self)@.submenus);
            return DropdownOutcome::Respond(EventResponse::Consumed);
        }
        let k = self.open_sub();
        if k < self.submenus.len() {
            let item = match self.submenus[k].hovered {
                Some(h) => h,
                None => 0,
            };
            if item < self.submenus[k].items.len() {
                self.close();
                return DropdownOutcome::SubmenuSelect(k, item);
            }
            return DropdownOutcome::Respond(EventResponse::Consumed);
        }
        let index = match self.hovered_option {
            Some(h) => Some(h),
            None => self.first_enabled(),
        };
        let index = match index {
            Some(i) => i,
            None => return DropdownOutcome::Respond(EventResponse::Consumed),
        };
        if self.open_hovered_submenu() {
            return DropdownOutcome::Respond(EventResponse::Consumed);
        }
        if self.is_disabled(index) {
            return DropdownOutcome::Respond(EventResponse::Consumed);
        }
        self.selected = index;
        self.close();
        DropdownOutcome::Select(index)
    }

    fn remove_keyboard_submenu_item(&mut self) -> (r: DropdownOutcome)
        requires
            old(self).wf(),
        ensures
            final(self).wf(),
            (final(self)@, r) == removed(old(self)@),
    {
        let k = self.open_sub();
        if k >= self.submenus.len() {
            return DropdownOutcome::Respond(EventResponse::Consumed);
        }
        let item = match self.submenus[k].hovered {
            Some(h) => h,
            None => 0,
        };
        if item >= self.submenus[k].items.len() || !self.submenus[k].removable {
            return DropdownOutcome::Respond(EventResponse::Consumed);
        }
        self.close();
        DropdownOutcome::SubmenuRemove(k, item)
    }

    fn to_edge_keyboard(&mut self, last: bool)
        requires
            old(self).wf(),
        ensures
            final(self).wf(),
            final(self)@ == to_edge(old(self)@, last),
    {
        let k = self.open_sub();
        if k < self.submenus.len() {
            let mut sub = self.take_sub(k);
            let len = sub.items.len();
            sub.hovered = if len == 0 {
                None
            } else if last {
                Some(len - 1)
            } else {
                Some(0)
            };
            self.put_sub(k, sub);
            proof {
                assert(self.submenus@ =~= old(self).submenus@.update(k as int, sub));
                assert(self@.submenus =~= to_edge(old(self)@, last).submenus);
            }
        } else {
            self.hovered_option = if last {
                self.last_enabled()
            } else {
                self.first_enabled()
            };
        }
    }

    fn back_out(&mut self)
        requires
            old(self).wf(),
        ensures
            final(self).wf(),
            final(self)@ == backed_out(old(self)@),
    {
        let k = self.open_sub();
        if k < self.submenus.len() {
            let mut sub = self.take_sub(k);
            sub.open = false;
            sub.hovered = None;
            self.put_sub(k, sub);
            proof {
                assert(self.submenus@ =~= old(self).submenus@.update(k as int, sub));
                assert(self@.submenus =~= backed_out(old(self)@).submenus);
            }
        } else {
            self.close();
        }
    }
}

/// The submenu item under the pointer whose remove button it is on.
pub open spec fn remove_hit(d: DropdownView, hit: DropdownHit) -> Option<SubmenuPos> {
    match hit.submenu_item {
        Some(p) => if p.sub < d.submenus.len() && d.submenus[p.sub as int].removable
            && hit.in_remove_zone {
            Some(p)
        } else {
            None
        },
        None => None,
    }
}

/// Submenu `i` after the pointer moved over the open dropdown: it opens
/// when its option is hovered, closes when another option or another
/// submenu is, and hovers the item under the pointer.
pub open spec fn sub_after_move(
    s: SubmenuView,
    i: int,
    hovered: Option<usize>,
    hit: DropdownHit,
    rm: Option<SubmenuPos>,
) -> SubmenuView {
    let s1 = if hovered == Some(s.trigger_index) {
        SubmenuView { open: true, ..s }
    } else if hit.submenu_item is Some {
        if hit.submenu_item->0.sub as int != i {
            closed_sub(s)
        } else {
            s
        }
    } else if hovered is Some {
        unhovered_sub(s)
    } else {
        s
    };
    if s1.open {
        match hit.submenu_item {
            Some(p) => if p.sub as int == i {
                SubmenuView { hovered: Some(p.item), hovered_remove: rm == Some(p), ..s1 }
            } else {
                SubmenuView { hovered: None, hovered_remove: false, ..s1 }
            },
            None => SubmenuView { hovered: None, hovered_remove: false, ..s1 },
        }
    } else {
        s1
    }
}

/// The trigger's state for a pointer `inside` it or not, a held press kept.
pub open spec fn hover_state(t: DropdownState, inside: bool) -> DropdownState {
    if inside && t == DropdownState::Pressed {
        DropdownState::Pressed
    } else if inside {
        DropdownState::Hovered
    } else {
        DropdownState::Normal
    }
}

/// Hovered or normal, as the pointer is on the trigger or not.
pub open spec fn rest_state(inside: bool) -> DropdownState {
    if inside {
        DropdownState::Hovered
    } else {
        DropdownState::Normal
    }
}

/// The dropdown after the pointer moved.
pub open spec fn pointer_moved(d: DropdownView, hit: DropdownHit) -> (DropdownView, DropdownOutcome) {
    if d.open {
        let rm = remove_hit(d, hit);
        let subs = Seq::new(
            d.submenus.len(),
            |i: int| sub_after_move(d.submenus[i], i, hit.option, hit, rm),
        );
        let changed = exists|i: int| 0 <= i < d.submenus.len() && #[trigger] subs[i] != d.submenus[i];
        (
            DropdownView {
                hovered_option: hit.option,
                trigger_state: rest_state(hit.in_bounds),
                submenus: subs,
                ..d
            },
            DropdownOutcome::Respond(
                if hit.option != d.hovered_option || changed {
                    EventResponse::Consumed
                } else {
                    EventResponse::Ignored
                },
            ),
        )
    } else {
        let t = hover_state(d.trigger_state, hit.in_bounds);
        if t != d.trigger_state {
            (DropdownView { trigger_state: t, ..d }, DropdownOutcome::Respond(EventResponse::Consumed))
        } else {
            (d, DropdownOutcome::Respond(EventResponse::Ignored))
        }
    }
}

/// The dropdown after a press.
pub open spec fn pointer_pressed(d: DropdownView, hit: DropdownHit) -> (DropdownView, DropdownOutcome) {
    if d.open {
        if hit.in_bounds || hit.in_panel || hit.in_submenu_panel {
            (d, DropdownOutcome::Respond(EventResponse::Consumed))
        } else {
            (
                DropdownView { trigger_state: DropdownState::Normal, ..closed(d) },
                DropdownOutcome::Respond(EventResponse::Consumed),
            )
        }
    } else if hit.in_bounds {
        (
            DropdownView { trigger_state: DropdownState::Pressed, ..d },
            DropdownOutcome::Respond(EventResponse::Consumed),
        )
    } else {
        (d, DropdownOutcome::Respond(EventResponse::Ignored))
    }
}

/// The dropdown after a release: a click on a submenu item's remove
/// button or on the item, on an enabled option without a submenu, or
/// elsewhere (which closes it); when closed, a press and release on the
/// trigger opens it.
pub open spec fn pointer_released(d: DropdownView, hit: DropdownHit) -> (DropdownView, DropdownOutcome) {
    if d.open {
        match remove_hit(d, hit) {
            Some(p) => (
                DropdownView { trigger_state: DropdownState::Normal, ..closed(d) },
                DropdownOutcome::SubmenuRemove(p.sub, p.item),
            ),
            None => match hit.submenu_item {
                Some(p) => (
                    DropdownView { trigger_state: DropdownState::Normal, ..closed(d) },
                    DropdownOutcome::SubmenuSelect(p.sub, p.item),
                ),
                None => match hit.option {
                    Some(o) => if disabled_at(d, o as int) || sub_for_from(d.submenus, o, 0)
                        < d.submenus.len() {
                        (d, DropdownOutcome::Respond(EventResponse::Consumed))
                    } else {
                        (
                            DropdownView {
                                trigger_state: rest_state(hit.in_bounds),
                                ..closed(DropdownView { selected: o, ..d })
                            },
                            DropdownOutcome::Select(o),
                        )
                    },
                    None => (
                        DropdownView { trigger_state: rest_state(hit.in_bounds), ..closed(d) },
                        DropdownOutcome::Respond(EventResponse::Consumed),
                    ),
                },
            },
        }
    } else if d.trigger_state == DropdownState::Pressed && hit.in_bounds {
        (
            DropdownView { open: true, trigger_state: DropdownState::Hovered, ..d },
            DropdownOutcome::Respond(EventResponse::Consumed),
        )
    } else {
        (
            DropdownView { trigger_state: rest_state(hit.in_bounds), ..d },
            DropdownOutcome::Respond(EventResponse::Ignored),
        )
    }
}

/// The pointer report is consistent with the dropdown: hit entries exist.
pub open spec fn hit_fits(d: DropdownView, hit: DropdownHit) -> bool {
    &&& (hit.option matches Some(o) ==> o < d.options.len())
    &&& (hit.submenu_item matches Some(p) ==> p.sub < d.submenus.len() && p.item
        < d.submenus[p.sub as int].items.len())
}

/// The dropdown after `event` with the pointer at `hit`, and what the owner
/// is asked to do. Keyboard navigation announces the entry it lands on
/// (see `announces`); that answer is left out here (`None`).
pub open spec fn dropdown_step(d: DropdownView, event: UiEvent, hit: DropdownHit) -> (
    DropdownView,
    Option<DropdownOutcome>,
) {
    match event {
        UiEvent::Activate => {
            let (e, r) = activated(d);
            (e, Some(r))
        },
        UiEvent::CursorDown => if d.open {
            (moved(d, true), None)
        } else {
            (d, Some(DropdownOutcome::Respond(EventResponse::Ignored)))
        },
        UiEvent::CursorUp => if d.open {
            (moved(d, false), None)
        } else {
            (d, Some(DropdownOutcome::Respond(EventResponse::Ignored)))
        },
        UiEvent::Home => if d.open {
            (to_edge(d, false), None)
        } else {
            (d, Some(DropdownOutcome::Respond(EventResponse::Ignored)))
        },
        UiEvent::End => if d.open {
            (to_edge(d, true), None)
        } else {
            (d, Some(DropdownOutcome::Respond(EventResponse::Ignored)))
        },
        UiEvent::CursorRight => if d.open {
            (with_hovered_submenu(d).0, Some(DropdownOutcome::Respond(EventResponse::Consumed)))
        } else {
            (d, Some(DropdownOutcome::Respond(EventResponse::Ignored)))
        },
        UiEvent::CursorLeft => if d.open {
            (backed_out(d), Some(DropdownOutcome::Respond(EventResponse::Consumed)))
        } else {
            (d, Some(DropdownOutcome::Respond(EventResponse::Ignored)))
        },
        UiEvent::Delete => if d.open {
            let (e, r) = removed(d);
            (e, Some(r))
        } else {
            (d, Some(DropdownOutcome::Respond(EventResponse::Ignored)))
        },
        UiEvent::KeyInput { text } => if d.open && text@ == "\x1b"@ {
            (closed(d), Some(DropdownOutcome::Respond(EventResponse::Consumed)))
        } else {
            (d, Some(DropdownOutcome::Respond(EventResponse::Ignored)))
        },
        UiEvent::Pointer(PointerKind::MouseMove) => {
            let (e, r) = pointer_moved(d, hit);
            (e, Some(r))
        },
        UiEvent::Pointer(PointerKind::MousePress) | UiEvent::Pointer(PointerKind::DoubleClick) => {
            let (e, r) = pointer_pressed(d, hit);
            (e, Some(r))
        },
        UiEvent::Pointer(PointerKind::MouseRelease) => {
            let (e, r) = pointer_released(d, hit);
            (e, Some(r))
        },
        _ => (d, Some(DropdownOutcome::Respond(EventResponse::Ignored))),
    }
}

impl Dropdown {
    fn pointer_move(&mut self, hit: DropdownHit) -> (r: DropdownOutcome)
        requires
            old(self).wf(),
            hit_fits(old(self)@, hit),
        ensures
            final(self).wf(),
            (final(self)@, r) == pointer_moved(old(self)@, hit),
    {
        if !self.open {
            let t = if hit.in_bounds && self.trigger_state == DropdownState::Pressed {
                DropdownState::Pressed
            } else if hit.in_bounds {
                DropdownState::Hovered
            } else {
                DropdownState::Normal
            };
            if t != self.trigger_state {
                self.trigger_state = t;
                return DropdownOutcome::Respond(EventResponse::Consumed);
            }
            return DropdownOutcome::Respond(EventResponse::Ignored);
        }
        let ghost start = old(self)@;
        let rm: Option<SubmenuPos> = match hit.submenu_item {
            Some(p) => if p.sub < self.submenus.len() && self.submenus[p.sub].removable
                && hit.in_remove_zone {
                Some(p)
            } else {
                None
            },
            None => None,
        };
        let prev = self.hovered_option;
        self.hovered_option = hit.option;
        self.trigger_state = if hit.in_bounds {
            DropdownState::Hovered
        } else {
            DropdownState::Normal
        };
        let mut changed = false;
        let mut i: usize = 0;
        while i < self.submenus.len()
            invariant
                i <= self.submenus@.len(),
                self.submenus@.len() == start.submenus.len(),
                string_views(self.options@) == start.options,
                self.selected == start.selected,
                self.open == start.open,
                self.hovered_option == hit.option,
                self.trigger_state == rest_state(hit.in_bounds),
                self.disabled_items@ == start.disabled,
                rm == remove_hit(start, hit),
                hit_fits(start, hit),
                forall|j: int| 0 <= j < i ==> #[trigger] self.submenus@[j]@ == sub_after_move(start.submenus[j], j, hit.option, hit, rm),
                forall|j: int| i <= j < self.submenus@.len() ==> #[trigger] self.submenus@[j]@ == start.submenus[j],
                changed == exists|j: int| 0 <= j < i && #[trigger] self.submenus@[j]@ != start.submenus[j],
            decreases self.submenus@.len() - i,
        {
            let ghost before = self.submenus@;
            assert(changed == exists|j: int| 0 <= j < i && #[trigger] before[j]@ != start.submenus[j]);
            let mut sub = self.submenus.remove(i);
            let was_open = sub.open;
            let prev_hover = sub.hovered;
            let prev_remove = sub.hovered_remove;
            if hit.option == Some(sub.trigger_index) {
                sub.open = true;
            } else if hit.submenu_item.is_some() {
                if hit.submenu_item.unwrap().sub != i {
                    sub.open = false;
                    sub.hovered = None;
                    sub.hovered_remove = false;
                }
            } else if hit.option.is_some() {
                sub.open = false;
                sub.hovered = None;
            }
            if sub.open {
                match hit.submenu_item {
                    Some(p) => {
                        if p.sub == i {
                            sub.hovered = Some(p.item);
                            sub.hovered_remove = rm == Some(p);
                        } else {
                            sub.hovered = None;
                            sub.hovered_remove = false;
                        }
                    },
                    None => {
                        sub.hovered = None;
                        sub.hovered_remove = false;
                    },
                }
            }
            let differs = was_open != sub.open || prev_hover != sub.hovered || prev_remove
                != sub.hovered_remove;
            if differs {
                changed = true;
            }
            let ghost sv = sub;
            assert(before[i as int]@ == start.submenus[i as int]);
            assert(sv.items == before[i as int].items);
            assert(sv@ =~= sub_after_move(start.submenus[i as int], i as int, hit.option, hit, rm));
            assert(differs == (sv@ != start.submenus[i as int]));
            self.submenus.insert(i, sub);
            assert(self.submenus@ =~= before.update(i as int, sv));
            proof {
                assert forall|j: int| 0 <= j < i implies self.submenus@[j] == before[j] by {}
                if differs {
                    assert(self.submenus@[i as int]@ != start.submenus[i as int]);
                } else {
                    assert(self.submenus@[i as int]@ == start.submenus[i as int]);
                    if exists|j: int| 0 <= j < i + 1 && #[trigger] self.submenus@[j]@ != start.submenus[j] {
                        let j = choose|j: int| 0 <= j < i + 1 && #[trigger] self.submenus@[j]@ != start.submenus[j];
                        assert(j < i);
                        assert(before[j]@ != start.submenus[j]);
                    }
                    if exists|j: int| 0 <= j < i && #[trigger] before[j]@ != start.submenus[j] {
                        let j = choose|j: int| 0 <= j < i && #[trigger] before[j]@ != start.submenus[j];
                        assert(self.submenus@[j]@ != start.submenus[j]);
                    }
                }
            }
            i = i + 1;
        }
        proof {
            let subs = pointer_moved(start, hit).0.submenus;
            assert(self@.submenus =~= subs);
            assert forall|j: int| 0 <= j < subs.len() implies #[trigger] subs[j] == self.submenus@[j]@ by {}
            if changed {
                let j = choose|j: int| 0 <= j < i && #[trigger] self.submenus@[j]@ != start.submenus[j];
                assert(subs[j] != start.submenus[j]);
            }
            if exists|j: int| 0 <= j < start.submenus.len() && #[trigger] subs[j] != start.submenus[j] {
                let j = choose|j: int| 0 <= j < start.submenus.len() && #[trigger] subs[j] != start.submenus[j];
                assert(self.submenus@[j]@ != start.submenus[j]);
            }
        }
        if self.hovered_option != prev || changed {
            DropdownOutcome::Respond(EventResponse::Consumed)
        } else {
            DropdownOutcome::Respond(EventResponse::Ignored)
        }
    }

    fn pointer_release(&mut self, hit: DropdownHit) -> (r: DropdownOutcome)
        requires
            old(self).wf(),
            hit_fits(old(self)@, hit),
        ensures
            final(self).wf(),
            (final(self)@, r) == pointer_released(old(self)@, hit),
    {
        let rest = if hit.in_bounds {
            DropdownState::Hovered
        } else {
            DropdownState::Normal
        };
        if !self.open {
            if self.trigger_state == DropdownState::Pressed && hit.in_bounds {
                self.open = true;
                self.trigger_state = DropdownState::Hovered;
                return DropdownOutcome::Respond(EventResponse::Consumed);
            }
            self.trigger_state = rest;
            return DropdownOutcome::Respond(EventResponse::Ignored);
        }
        match hit.submenu_item {
            Some(p) => {
                let remove = self.submenus[p.sub].removable && hit.in_remove_zone;
                self.close();
                self.trigger_state = DropdownState::Normal;
                if remove {
                    return DropdownOutcome::SubmenuRemove(p.sub, p.item);
                }
                return DropdownOutcome::SubmenuSelect(p.sub, p.item);
            },
            None => {},
        }
        match hit.option {
            Some(o) => {
                if self.is_disabled(o) || self.sub_for(o) < self.submenus.len() {
                    return DropdownOutcome::Respond(EventResponse::Consumed);
                }
                self.selected = o;
                self.close();
                self.trigger_state = rest;
                DropdownOutcome::Select(o)
            },
            None => {
                self.close();
                self.trigger_state = rest;
                DropdownOutcome::Respond(EventResponse::Consumed)
            },
        }
    }

    /// Handles `event` with the pointer at `hit`. Keyboard navigation
    /// answers with the announcement of the entry it lands on.
    pub fn handle_event(&mut self, event: &UiEvent, hit: DropdownHit) -> (r: DropdownOutcome)
        requires
            old(self).wf(),
            hit_fits(old(self)@, hit),
        ensures
            final(self).wf(),
            final(self)@ == dropdown_step(old(self)@, *event, hit).0,
            match dropdown_step(old(self)@, *event, hit).1 {
                Some(x) => r == x,
                None => announces(final(self)@, r),
            },
    {
        match event {
            UiEvent::Activate => self.activate_keyboard(),
            UiEvent::CursorDown => {
                if self.open {
                    self.move_keyboard(true);
                    self.announce()
                } else {
                    DropdownOutcome::Respond(EventResponse::Ignored)
                }
            },
            UiEvent::CursorUp => {
                if self.open {
                    self.move_keyboard(false);
                    self.announce()
                } else {
                    DropdownOutcome::Respond(EventResponse::Ignored)
                }
            },
            UiEvent::Home => {
                if self.open {
                    self.to_edge_keyboard(false);
                    self.announce()
                } else {
                    DropdownOutcome::Respond(EventResponse::Ignored)
                }
            },
            UiEvent::End => {
                if self.open {
                    self.to_edge_keyboard(true);
                    self.announce()
                } else {
                    DropdownOutcome::Respond(EventResponse::Ignored)
                }
            },
            UiEvent::CursorRight => {
                if self.open {
                    self.open_hovered_submenu();
                    DropdownOutcome::Respond(EventResponse::Consumed)
                } else {
                    DropdownOutcome::Respond(EventResponse::Ignored)
                }
            },
            UiEvent::CursorLeft => {
                if self.open {
                    self.back_out();
                    DropdownOutcome::Respond(EventResponse::Consumed)
                } else {
                    DropdownOutcome::Respond(EventResponse::Ignored)
                }
            },
            UiEvent::Delete => {
                if self.open {
                    self.remove_keyboard_submenu_item()
                } else {
                    DropdownOutcome::Respond(EventResponse::Ignored)
                }
            },
            UiEvent::KeyInput { text } => {
                if self.open && key_is(text, "\x1b") {
                    self.close();
                    DropdownOutcome::Respond(EventResponse::Consumed)
                } else {
                    DropdownOutcome::Respond(EventResponse::Ignored)
                }
            },
            UiEvent::Pointer(PointerKind::MouseMove) => self.pointer_move(hit),
            UiEvent::Pointer(PointerKind::MousePress) | UiEvent::Pointer(PointerKind::DoubleClick) => {
                if self.open {
                    if hit.in_bounds || hit.in_panel || hit.in_submenu_panel {
                        DropdownOutcome::Respond(EventResponse::Consumed)
                    } else {
                        self.close();
                        self.trigger_state = DropdownState::Normal;
                        DropdownOutcome::Respond(EventResponse::Consumed)
                    }
                } else if hit.in_bounds {
                    self.trigger_state = DropdownState::Pressed;
                    DropdownOutcome::Respond(EventResponse::Consumed)
                } else {
                    DropdownOutcome::Respond(EventResponse::Ignored)
                }
            },
            UiEvent::Pointer(PointerKind::MouseRelease) => self.pointer_release(hit),
            _ => DropdownOutcome::Respond(EventResponse::Ignored),
        }
    }
}

/// What the owner answers after running a callback: a callback that
/// ignores the choice still counts as handled.
pub fn settle_response(response: EventResponse) -> (r: EventResponse)
    ensures
        r == if response == EventResponse::Ignored {
            EventResponse::Consumed
        } else {
            response
        },
{
    match response {
        EventResponse::Ignored => EventResponse::Consumed,
        other => other,
    }
}

proof fn lemma_scan_finds_enabled(d: DropdownView, cur: int, forward: bool, steps: int)
    requires
        d.options.len() < usize::MAX,
    ensures
        scan_enabled(d, cur, forward, steps) matches Some(c) ==> c < d.options.len() && !disabled_at(
            d,
            c as int,
        ),
    decreases steps,
{
    if steps > 0 && d.options.len() > 0 {
        let n = d.options.len() as int;
        let c = if forward { (cur + 1) % n } else { (cur + n - 1) % n };
        vstd::arithmetic::div_mod::lemma_mod_bound(cur + 1, n);
        vstd::arithmetic::div_mod::lemma_mod_bound(cur + n - 1, n);
        if disabled_at(d, c) {
            lemma_scan_finds_enabled(d, c, forward, steps - 1);
        }
    }
}

proof fn lemma_first_enabled_is_enabled(d: DropdownView, k: int)
    requires
        d.options.len() < usize::MAX,
    ensures
        first_enabled_from(d, k) matches Some(c) ==> k <= c < d.options.len() && !disabled_at(
            d,
            c as int,
        ),
    decreases d.options.len() - k,
{
    if 0 <= k < d.options.len() && disabled_at(d, k) {
        lemma_first_enabled_is_enabled(d, k + 1);
    }
}

proof fn lemma_last_enabled_is_enabled(d: DropdownView, k: int)
    requires
        d.options.len() < usize::MAX,
    ensures
        last_enabled_before(d, k) matches Some(c) ==> c < k && c < d.options.len()
            && !disabled_at(d, c as int),
    decreases k,
{
    if 0 < k <= d.options.len() && disabled_at(d, k - 1) {
        lemma_last_enabled_is_enabled(d, k - 1);
    }
}

/// Keyboard navigation over the options never lands on a disabled one: the
/// arrows keep the hover where it was or move it to an enabled option, and
/// Home and End pick the first and last enabled options.
pub proof fn lemma_keyboard_skips_disabled_options(d: DropdownView, forward: bool, last: bool)
    requires
        d.options.len() < usize::MAX,
        open_sub_from(d.submenus, 0) >= d.submenus.len(),
    ensures
        moved(d, forward).hovered_option matches Some(h) ==> moved(d, forward).hovered_option
            == d.hovered_option || (h < d.options.len() && !disabled_at(d, h as int)),
        to_edge(d, last).hovered_option matches Some(h) ==> h < d.options.len() && !disabled_at(
            d,
            h as int,
        ),
{
    if d.options.len() > 0 {
        let n = d.options.len() as int;
        let cur = match d.hovered_option {
            Some(h) => h as int,
            None => if forward { n - 1 } else { 0 },
        };
        lemma_scan_finds_enabled(d, cur, forward, n);
    }
    lemma_first_enabled_is_enabled(d, 0);
    lemma_last_enabled_is_enabled(d, d.options.len() as int);
}

/// Escape on an open dropdown closes it entirely: the panel, the hover and
/// every submenu, leaving the selection as it was.
pub proof fn lemma_escape_closes_everything(d: DropdownView, event: UiEvent, hit: DropdownHit)
    requires
        d.open,
        event matches UiEvent::KeyInput { text } && text@ == "\x1b"@,
    ensures
        ({
            let e = dropdown_step(d, event, hit).0;
            &&& !e.open
            &&& e.hovered_option is None
            &&& e.selected == d.selected
            &&& e.submenus.len() == d.submenus.len()
            &&& forall|i: int| 0 <= i < e.submenus.len() ==> !(#[trigger] e.submenus[i]).open
                && e.submenus[i].hovered is None
        }),
{
}

} // verus!
