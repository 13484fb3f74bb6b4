//! Settings dialog of the comic-dubs mode: font, bubble and page durations
//! and the default text size.
//!
//! Six controls take the keyboard focus in turn: the font picker (0), the
//! bubble duration (1), the page duration (2), the default text size (3),
//! Save (4) and Close (5). The text size is a fractional number kept by the
//! drawing layer; this dialog tells it when to step it.

use vstd::prelude::*;

use crate::event::{is_activation_spec, keyboard_activation, key_is, PointerKind, UiEvent};
use crate::font_dropdown::{dropdown_step, FontDropdown, FontDropdownHit, FontDropdownView};
use crate::i18n::{msg_text, t, Msg};
use crate::text::{decimal, owned, push_decimal, push_str};

verus! {

/// Number of controls that take the focus.
pub const CONTROL_COUNT: usize = 6;

/// Longest duration a bubble or a page can be given, in milliseconds.
pub const MAX_DURATION_MS: u64 = 60_000;

/// Step of the duration buttons, in milliseconds.
pub const DURATION_STEP_MS: i64 = 250;

/// `value + delta` kept within the range of `u64`.
pub open spec fn saturating_add_signed_spec(value: int, delta: int) -> int {
    if value + delta < 0 {
        0
    } else if value + delta > u64::MAX {
        u64::MAX as int
    } else {
        value + delta
    }
}

/// A duration moved by `delta` steps of 250 ms, kept within 0 and 60 s.
pub open spec fn adjusted_duration(value: int, delta: int) -> int {
    let moved = saturating_add_signed_spec(value, delta * DURATION_STEP_MS);
    if moved < MAX_DURATION_MS {
        moved
    } else {
        MAX_DURATION_MS as int
    }
}

/// Moves `value` by `delta` steps of 250 ms, never below 0 nor above 60 s.
pub fn adjust_duration(value: u64, delta: isize) -> (r: u64)
    requires
        i64::MIN <= delta * DURATION_STEP_MS <= i64::MAX,
    ensures
        r == adjusted_duration(value as int, delta as int),
{
    let step: i128 = delta as i128 * DURATION_STEP_MS as i128;
    let moved: i128 = value as i128 + step;
    let saturated: u64 = if moved < 0 {
        0
    } else if moved > u64::MAX as i128 {
        u64::MAX
    } else {
        moved as u64
    };
    if saturated < MAX_DURATION_MS {
        saturated
    } else {
        MAX_DURATION_MS
    }
}

/// A duration stays within 0 and 60 s, moves by exactly one step when
/// there is room, and a step up followed by a step down comes back.
pub proof fn lemma_duration_steps(value: int)
    requires
        0 <= value <= u64::MAX,
    ensures
        0 <= adjusted_duration(value, 1) <= MAX_DURATION_MS,
        0 <= adjusted_duration(value, -1) <= MAX_DURATION_MS,
        value + 250 <= MAX_DURATION_MS ==> adjusted_duration(value, 1) == value + 250,
        250 <= value <= MAX_DURATION_MS ==> adjusted_duration(value, -1) == value - 250,
        value < 250 ==> adjusted_duration(value, -1) == 0,
        value + 250 <= MAX_DURATION_MS ==> adjusted_duration(adjusted_duration(value, 1), -1)
            == value,
{
}

/// What the dialog asks of its owner after an event.
#[derive(Clone, Copy, Debug, PartialEq, Eq, Structural)]
pub enum SettingsStep {
    Consumed,
    Close,
    Save,
    /// Make the default text size one step smaller.
    FontSizeDown,
    /// Make the default text size one step larger.
    FontSizeUp,
}

/// Where a pointer press landed, as the drawing layer found it.
#[derive(Clone, Copy, Debug, PartialEq, Eq, Structural)]
pub enum SettingsTarget {
    /// Outside the dialog.
    Outside,
    /// On the "−" button of control 1, 2 or 3.
    Minus(usize),
    /// On the "+" button of control 1, 2 or 3.
    Plus(usize),
    SaveButton,
    CloseButton,
    /// Elsewhere on the dialog.
    Card,
}

/// The dialog's state, as values.
pub struct SettingsView {
    pub font: FontDropdownView,
    pub bubble_duration_ms: u64,
    pub page_duration_ms: u64,
    pub focus: int,
}

/// The dialog's whole-number state: the font picker, both durations and
/// the focused control.
pub struct ComicDubsSettingsModal {
    font: FontDropdown,
    bubble_duration_ms: u64,
    page_duration_ms: u64,
    focus: usize,
}

impl View for ComicDubsSettingsModal {
    type V = SettingsView;

    closed spec fn view(&self) -> SettingsView {
        SettingsView {
            font: self.font@,
            bubble_duration_ms: self.bubble_duration_ms,
            page_duration_ms: self.page_duration_ms,
            focus: self.focus as int,
        }
    }
}

/// A step of control `control` by `delta` (-1 or 1).
pub open spec fn adjusted(m: SettingsView, control: int, delta: int) -> (SettingsView, SettingsStep) {
    if control == 1 {
        (
            SettingsView {
                bubble_duration_ms: adjusted_duration(m.bubble_duration_ms as int, delta) as u64,
                ..m
            },
            SettingsStep::Consumed,
        )
    } else if control == 2 {
        (
            SettingsView {
                page_duration_ms: adjusted_duration(m.page_duration_ms as int, delta) as u64,
                ..m
            },
            SettingsStep::Consumed,
        )
    } else if control == 3 {
        (m, if delta < 0 {
            SettingsStep::FontSizeDown
        } else {
            SettingsStep::FontSizeUp
        })
    } else {
        (m, SettingsStep::Consumed)
    }
}

/// What the dialog does with `event` once the font picker has not taken it.
pub open spec fn settings_rest(m: SettingsView, event: UiEvent, target: SettingsTarget) -> (
    SettingsView,
    SettingsStep,
) {
    match event {
        UiEvent::KeyInput { text } => if text@ == "\x1b"@ {
            (m, SettingsStep::Close)
        } else if text@ == "\t"@ {
            (SettingsView { focus: (m.focus + 1) % 6, ..m }, SettingsStep::Consumed)
        } else if text@ == "\u{b}"@ {
            (SettingsView { focus: (m.focus + 5) % 6, ..m }, SettingsStep::Consumed)
        } else if is_activation_spec(&event) {
            (m, if m.focus == 4 {
                SettingsStep::Save
            } else if m.focus == 5 {
                SettingsStep::Close
            } else {
                SettingsStep::Consumed
            })
        } else {
            (m, SettingsStep::Consumed)
        },
        UiEvent::CursorUp => (SettingsView { focus: (m.focus + 5) % 6, ..m }, SettingsStep::Consumed),
        UiEvent::CursorDown => (
            SettingsView { focus: (m.focus + 1) % 6, ..m },
            SettingsStep::Consumed,
        ),
        UiEvent::CursorLeft => adjusted(m, m.focus, -1),
        UiEvent::CursorRight => adjusted(m, m.focus, 1),
        UiEvent::Pointer(PointerKind::MousePress) | UiEvent::Pointer(PointerKind::DoubleClick) => {
            match target {
                SettingsTarget::Outside => (m, SettingsStep::Close),
                SettingsTarget::Minus(c) => if 1 <= c <= 3 {
                    adjusted(m, c as int, -1)
                } else {
                    (m, SettingsStep::Consumed)
                },
                SettingsTarget::Plus(c) => if 1 <= c <= 3 {
                    adjusted(m, c as int, 1)
                } else {
                    (m, SettingsStep::Consumed)
                },
                SettingsTarget::SaveButton => (m, SettingsStep::Save),
                SettingsTarget::CloseButton => (m, SettingsStep::Close),
                SettingsTarget::Card => (m, SettingsStep::Consumed),
            }
        },
        _ => (m, SettingsStep::Consumed),
    }
}

/// Events the focused font picker is offered first.
pub open spec fn font_key_event(event: UiEvent) -> bool {
    event is Activate || event is CursorUp || event is CursorDown || event is KeyInput
}

/// Pointer events the font picker is offered first.
pub open spec fn font_pointer_event(event: UiEvent) -> bool {
    event == UiEvent::Pointer(PointerKind::MousePress) || event == UiEvent::Pointer(
        PointerKind::DoubleClick,
    ) || event == UiEvent::Pointer(PointerKind::MouseMove) || event == UiEvent::Pointer(
        PointerKind::Scroll,
    )
}

/// The dialog after `event`, the pointer being at `hit` for the font
/// picker and on `target` for a press.
pub open spec fn settings_step(
    m: SettingsView,
    event: UiEvent,
    hit: FontDropdownHit,
    target: SettingsTarget,
) -> (SettingsView, SettingsStep) {
    let (font, used) = dropdown_step(m.font, event, hit);
    if m.focus == 0 && font_key_event(event) && used {
        (SettingsView { font, ..m }, SettingsStep::Consumed)
    } else if font_pointer_event(event) && used {
        (SettingsView { font, focus: 0, ..m }, SettingsStep::Consumed)
    } else {
        settings_rest(m, event, target)
    }
}

/// Screen-reader text of the focused control; `font_size_px` is the
/// default text size, rounded.
pub open spec fn focus_label(m: SettingsView, font_size_px: nat) -> Seq<char> {
    if m.focus == 0 {
        msg_text(Msg::ComicSettingsFont) + ", "@ + match m.font.selected {
            Some(s) => s,
            None => msg_text(Msg::SettingsDefaultFont),
        }
    } else if m.focus == 1 {
        msg_text(Msg::ComicSettingsBubbleDuration) + ", "@ + decimal(m.bubble_duration_ms as nat)
            + " ms"@
    } else if m.focus == 2 {
        msg_text(Msg::ComicSettingsPageDuration) + ", "@ + decimal(m.page_duration_ms as nat)
            + " ms"@
    } else if m.focus == 3 {
        msg_text(Msg::ComicSettingsDefaultTextSize) + ", "@ + decimal(font_size_px) + " px"@
    } else if m.focus == 4 {
        msg_text(Msg::SettingsSave)
    } else {
        msg_text(Msg::ProjectSettingsClose)
    }
}

impl ComicDubsSettingsModal {
    /// The font picker is within its limits and the focus names a control.
    pub open spec fn wf(&self) -> bool {
        &&& self.font_wf()
        &&& 0 <= self@.focus < CONTROL_COUNT
    }

    pub closed spec fn font_wf(&self) -> bool {
        self.font.wf()
    }

    /// The dialog over `fonts`, with `font_family` chosen and the given
    /// durations; the font picker has the focus.
    pub fn new(
        fonts: Vec<String>,
        font_family: Option<String>,
        bubble_duration_ms: u64,
        page_duration_ms: u64,
    ) -> (r: Self)
        requires
            fonts@.len() + 2 * crate::font_dropdown::VISIBLE_ROWS < usize::MAX,
        ensures
            r.wf(),
            crate::font_dropdown::font_list(crate::font_dropdown::views(fonts@), r@.font.fonts),
            r@.font.selected == crate::font_dropdown::opt_view(font_family),
            !r@.font.open,
            r@.bubble_duration_ms == bubble_duration_ms,
            r@.page_duration_ms == page_duration_ms,
            r@.focus == 0,
    {
        ComicDubsSettingsModal {
            font: FontDropdown::new(fonts, font_family),
            bubble_duration_ms,
            page_duration_ms,
            focus: 0,
        }
    }

    /// The font picker.
    pub fn font(&self) -> (r: &FontDropdown)
        ensures
            r@ == self@.font,
    {
        &self.font
    }

    /// The focused control.
    pub fn focus(&self) -> (r: usize)
        ensures
            r == self@.focus,
    {
        self.focus
    }

    /// The bubble and page durations, in milliseconds.
    pub fn durations(&self) -> (r: (u64, u64))
        ensures
            r == (self@.bubble_duration_ms, self@.page_duration_ms),
    {
        (self.bubble_duration_ms, self.page_duration_ms)
    }

    /// Screen-reader text of the focused control; `font_size_px` is the
    /// default text size, rounded.
    pub fn keyboard_focus_label(&self, font_size_px: u64) -> (r: String)
        ensures
            r@ == focus_label(self@, font_size_px as nat),
    {
        let mut s = String::new();
        if self.focus == 0 {
            push_str(&mut s, t(Msg::ComicSettingsFont));
            push_str(&mut s, ", ");
            match self.font.selected() {
                Some(name) => push_str(&mut s, name),
                None => push_str(&mut s, t(Msg::SettingsDefaultFont)),
            }
        } else if self.focus == 1 {
            push_str(&mut s, t(Msg::ComicSettingsBubbleDuration));
            push_str(&mut s, ", ");
            push_decimal(&mut s, self.bubble_duration_ms);
            push_str(&mut s, " ms");
        } else if self.focus == 2 {
            push_str(&mut s, t(Msg::ComicSettingsPageDuration));
            push_str(&mut s, ", ");
            push_decimal(&mut s, self.page_duration_ms);
            push_str(&mut s, " ms");
        } else if self.focus == 3 {
            push_str(&mut s, t(Msg::ComicSettingsDefaultTextSize));
            push_str(&mut s, ", ");
            push_decimal(&mut s, font_size_px);
            push_str(&mut s, " px");
        } else if self.focus == 4 {
            push_str(&mut s, t(Msg::SettingsSave));
        } else {
            push_str(&mut s, t(Msg::ProjectSettingsClose));
        }
        assert(s@ =~= focus_label(self@, font_size_px as nat));
        s
    }

    fn adjust(&mut self, control: usize, delta: isize) -> (r: SettingsStep)
        requires
            old(self).wf(),
            delta == -1 || delta == 1,
        ensures
            final(self).wf(),
            (final(self)@, r) == adjusted(old(self)@, control as int, delta as int),
    {
        if control == 1 {
            self.bubble_duration_ms = adjust_duration(self.bubble_duration_ms, delta);
            SettingsStep::Consumed
        } else if control == 2 {
            self.page_duration_ms = adjust_duration(self.page_duration_ms, delta);
            SettingsStep::Consumed
        } else if control == 3 {
            if delta < 0 {
                SettingsStep::FontSizeDown
            } else {
                SettingsStep::FontSizeUp
            }
        } else {
            SettingsStep::Consumed
        }
    }

    fn handle_rest(&mut self, event: &UiEvent, target: SettingsTarget) -> (r: SettingsStep)
        requires
            old(self).wf(),
        ensures
            final(self).wf(),
            (final(self)@, r) == settings_rest(old(self)@, *event, target),
    {
        match event {
            UiEvent::KeyInput { text } => {
                if key_is(text, "\x1b") {
                    SettingsStep::Close
                } else if key_is(text, "\t") {
                    self.focus = (self.focus + 1) % CONTROL_COUNT;
                    SettingsStep::Consumed
                } else if key_is(text, "\u{b}") {
                    self.focus = (self.focus + CONTROL_COUNT - 1) % CONTROL_COUNT;
                    SettingsStep::Consumed
                } else if keyboard_activation(event) {
                    if self.focus == 4 {
                        SettingsStep::Save
                    } else if self.focus == 5 {
                        SettingsStep::Close
                    } else {
                        SettingsStep::Consumed
                    }
                } else {
                    SettingsStep::Consumed
                }
            },
            UiEvent::CursorUp => {
                self.focus = (self.focus + CONTROL_COUNT - 1) % CONTROL_COUNT;
                SettingsStep::Consumed
            },
            UiEvent::CursorDown => {
                self.focus = (self.focus + 1) % CONTROL_COUNT;
                SettingsStep::Consumed
            },
            UiEvent::CursorLeft => {
                let f = self.focus;
                self.adjust(f, -1)
            },
            UiEvent::CursorRight => {
                let f = self.focus;
                self.adjust(f, 1)
            },
            UiEvent::Pointer(PointerKind::MousePress) | UiEvent::Pointer(
                PointerKind::DoubleClick,
            ) => match target {
                SettingsTarget::Outside => SettingsStep::Close,
                SettingsTarget::Minus(c) => {
                    if 1 <= c && c <= 3 {
                        self.adjust(c, -1)
                    } else {
                        SettingsStep::Consumed
                    }
                },
                SettingsTarget::Plus(c) => {
                    if 1 <= c && c <= 3 {
                        self.adjust(c, 1)
                    } else {
                        SettingsStep::Consumed
                    }
                },
                SettingsTarget::SaveButton => SettingsStep::Save,
                SettingsTarget::CloseButton => SettingsStep::Close,
                SettingsTarget::Card => SettingsStep::Consumed,
            },
            _ => SettingsStep::Consumed,
        }
    }

    /// Handles `event`: the focused font picker takes the keys it uses, the
    /// pointer's presses, moves and wheel over the picker go to it (and give
    /// it the focus), and the rest moves the focus, steps the focused
    /// control, saves or closes.
    pub fn handle_event(
        &mut self,
        event: &UiEvent,
        hit: FontDropdownHit,
        target: SettingsTarget,
    ) -> (r: SettingsStep)
        requires
            old(self).wf(),
            hit.list_row is Some ==> hit.list_row->0 <= crate::font_dropdown::VISIBLE_ROWS,
            old(self)@.font.scroll + hit.scroll_step < usize::MAX,
        ensures
            final(self).wf(),
            (final(self)@, r) == settings_step(old(self)@, *event, hit, target),
    {
        let key_like = match event {
            UiEvent::Activate | UiEvent::CursorUp | UiEvent::CursorDown | UiEvent::KeyInput {
                ..
            } => true,
            _ => false,
        };
        if self.focus == 0 && key_like {
            if self.font.handle_event(event, hit) {
                return SettingsStep::Consumed;
            }
        }
        let pointer_like = match event {
            UiEvent::Pointer(PointerKind::MousePress) | UiEvent::Pointer(
                PointerKind::DoubleClick,
            ) | UiEvent::Pointer(PointerKind::MouseMove) | UiEvent::Pointer(PointerKind::Scroll) => true,
            _ => false,
        };
        if pointer_like {
            if self.font.handle_event(event, hit) {
                self.focus = 0;
                return SettingsStep::Consumed;
            }
        }
        self.handle_rest(event, target)
    }
}

} // verus!
