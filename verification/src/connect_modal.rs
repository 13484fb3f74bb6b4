//! Keyboard model of the "connect to a room" dialog: which fields it shows,
//! where the focus is, and when the entered values can be submitted.

use vstd::prelude::*;

use crate::i18n::{msg_text, t, Msg};
use crate::text::{
    char_count, is_blank, lemma_blank_iff_trimmed_empty, owned, push_decimal, push_str,
    repeat_char, str_is_blank, to_uppercase, trim, trimmed, uppercase_of, decimal,
};
use crate::event::{key_is, PointerKind, UiEvent};
use crate::text_input::TextInputState;

verus! {

pub struct ConnectModal {
    pub join: bool,
    pub ip: String,
    pub port: u16,
    /// password, username, room code
    pub fields: [String; 3],
    pub input: TextInputState,
    pub focused: usize,
    /// Text of the server line, `ip:port`.
    pub endpoint: String,
    /// One bullet per password character, shown in place of the password.
    pub masked_password: String,
    /// Only the username is asked (invitation links).
    pub username_only: bool,
}

/// What the dialog answers to an interaction.
#[derive(Debug, PartialEq)]
pub enum ConnectModalResult {
    Consumed,
    Close,
    Connect {
        ip: String,
        port: u16,
        password: String,
        username: String,
        room_code: Option<String>,
    },
}

/// Number of text fields shown.
pub open spec fn field_count_spec(join: bool, username_only: bool) -> int {
    if username_only {
        1
    } else if join {
        3
    } else {
        2
    }
}

/// Text shown for `"{ip}:{port}"`.
pub open spec fn endpoint_spec(ip: Seq<char>, port: u16) -> Seq<char> {
    ip + ":"@ + decimal(port as nat)
}

/// One bullet per character of the password.
pub open spec fn mask_spec(password: Seq<char>) -> Seq<char> {
    Seq::new(password.len(), |i: int| '•')
}

impl ConnectModal {
    pub const PASSWORD: usize = 0;
    pub const USERNAME: usize = 1;
    pub const ROOM_CODE: usize = 2;

    /// Whether only the username is asked (invitation links).
    pub open spec fn is_username_only(&self) -> bool {
        self.username_only
    }

    /// Text of the server line.
    pub open spec fn endpoint_view(&self) -> Seq<char> {
        self.endpoint@
    }

    /// Text shown in place of the password.
    pub open spec fn masked_view(&self) -> Seq<char> {
        self.masked_password@
    }

    /// Number of text fields shown.
    pub open spec fn field_count_view(&self) -> int {
        field_count_spec(self.join, self.is_username_only())
    }

    /// Stored field shown at visible position `i`.
    pub open spec fn field_index_view(&self, i: int) -> int {
        if self.is_username_only() {
            Self::USERNAME as int
        } else {
            i
        }
    }

    /// Number of focus stops: the fields, Cancel and Submit.
    pub open spec fn focus_count_view(&self) -> int {
        self.field_count_view() + 2
    }

    /// The values can be submitted: a username, and a room code when joining.
    pub open spec fn can_submit_view(&self) -> bool {
        !is_blank(self.fields[Self::USERNAME as int]@) && (!self.join || !is_blank(
            self.fields[Self::ROOM_CODE as int]@,
        ))
    }

    /// Dialog for creating (`join == false`) or joining a room on `ip:port`,
    /// pre-filled with the saved password and username.
    pub fn new_with_server(ip: &str, port: u16, join: bool, password: &str, username: &str) -> (r: Self)
        ensures
            r.join == join,
            r.ip@ == ip@,
            r.port == port,
            r.fields[Self::PASSWORD as int]@ == password@,
            r.fields[Self::USERNAME as int]@ == username@,
            r.fields[Self::ROOM_CODE as int]@ == Seq::<char>::empty(),
            r.focused == 0,
            r.input.active,
            r.input.cursor == password@.len(),
            !r.is_username_only(),
            r.endpoint_view() == endpoint_spec(ip@, port),
            r.masked_view() == mask_spec(password@),
    {
        let mut endpoint = owned(ip);
        push_str(&mut endpoint, ":");
        push_decimal(&mut endpoint, port as u64);
        let mut modal = ConnectModal {
            join,
            ip: owned(ip),
            port,
            fields: [owned(password), owned(username), String::new()],
            input: TextInputState::new(),
            focused: 0,
            endpoint,
            masked_password: repeat_char('•', char_count(password)),
            username_only: false,
        };
        modal.input.activate(modal.fields[Self::PASSWORD].as_str());
        modal
    }

    /// Variant for `coquerythmo://` quick-join links: joins `ip` directly and
    /// pre-fills the room code so the user only has to type a username. The
    /// password and room code remain in the modal state but are not exposed.
    pub fn new_with_room(ip: &str, port: u16, room_code: &str, password: &str) -> (r: Self)
        ensures
            r.join,
            r.ip@ == ip@,
            r.port == port,
            r.fields[Self::PASSWORD as int]@ == password@,
            r.fields[Self::USERNAME as int]@ == Seq::<char>::empty(),
            r.fields[Self::ROOM_CODE as int]@ == uppercase_of(trimmed(room_code@)),
            r.focused == 0,
            r.input.active,
            r.input.cursor == 0,
            r.is_username_only(),
            r.endpoint_view() == endpoint_spec(ip@, port),
            r.masked_view() == mask_spec(password@),
    {
        let mut endpoint = owned(ip);
        push_str(&mut endpoint, ":");
        push_decimal(&mut endpoint, port as u64);
        let code = trim(room_code);
        let mut modal = ConnectModal {
            join: true,
            ip: owned(ip),
            port,
            fields: [owned(password), String::new(), to_uppercase(code.as_str())],
            input: TextInputState::new(),
            focused: 0,
            endpoint,
            masked_password: repeat_char('•', char_count(password)),
            username_only: true,
        };
        modal.input.activate(modal.fields[Self::USERNAME].as_str());
        modal
    }

    /// Number of text fields shown.
    pub fn field_count(&self) -> (r: usize)
        ensures
            r == self.field_count_view(),
    {
        if self.username_only {
            1
        } else if self.join {
            3
        } else {
            2
        }
    }

    /// Stored field shown at visible position `visible_index`.
    pub fn field_index(&self, visible_index: usize) -> (r: usize)
        ensures
            r == self.field_index_view(visible_index as int),
    {
        if self.username_only {
            Self::USERNAME
        } else {
            visible_index
        }
    }

    fn cancel_focus(&self) -> (r: usize)
        ensures
            r == self.field_count_view(),
    {
        self.field_count()
    }

    fn submit_focus(&self) -> (r: usize)
        ensures
            r == self.field_count_view() + 1,
    {
        self.field_count() + 1
    }

    fn focus_count(&self) -> (r: usize)
        ensures
            r == self.focus_count_view(),
    {
        self.field_count() + 2
    }

    /// Label of the field at visible position `i` (empty past the fields).
    pub fn field_label(&self, i: usize) -> (r: &'static str)
        ensures
            r@ == field_label_spec(self.field_index_view(i as int)),
    {
        let index = self.field_index(i);
        if index == Self::PASSWORD {
            t(Msg::ConnectPassword)
        } else if index == Self::USERNAME {
            t(Msg::ConnectUsername)
        } else if index == Self::ROOM_CODE {
            t(Msg::ConnectRoomCode)
        } else {
            ""
        }
    }

    /// Placeholder of the field at visible position `i`.
    pub fn field_placeholder(&self, i: usize) -> (r: &'static str)
        ensures
            r@ == field_placeholder_spec(self.field_index_view(i as int)),
    {
        let index = self.field_index(i);
        if index == Self::PASSWORD {
            t(Msg::ConnectPasswordPlaceholder)
        } else if index == Self::USERNAME {
            t(Msg::ConnectUsernamePlaceholder)
        } else if index == Self::ROOM_CODE {
            t(Msg::ConnectRoomCodePlaceholder)
        } else {
            ""
        }
    }

    /// Text of the submit button.
    pub fn submit_label(&self) -> (r: &'static str)
        ensures
            r@ == msg_text(if self.join {
                Msg::ConnectJoin
            } else {
                Msg::ConnectCreate
            }),
    {
        if self.join {
            t(Msg::ConnectJoin)
        } else {
            t(Msg::ConnectCreate)
        }
    }

    /// What a screen reader announces for the focused control.
    pub fn keyboard_focus_label(&self) -> (r: String)
        ensures
            r@ == if self.focused < self.field_count_view() {
                field_label_spec(self.field_index_view(self.focused as int))
            } else if self.focused == self.field_count_view() {
                msg_text(Msg::ConnectCancel)
            } else {
                msg_text(if self.join {
                    Msg::ConnectJoin
                } else {
                    Msg::ConnectCreate
                })
            },
    {
        if self.focused < self.field_count() {
            owned(self.field_label(self.focused))
        } else if self.focused == self.cancel_focus() {
            owned(t(Msg::ConnectCancel))
        } else {
            owned(self.submit_label())
        }
    }

    /// Role of the focused control for a screen reader.
    pub fn keyboard_focus_role(&self) -> (r: &'static str)
        ensures
            r@ == if self.focused < self.field_count_view() {
                "text field"@
            } else {
                "button"@
            },
    {
        if self.focused < self.field_count() {
            "text field"
        } else {
            "button"
        }
    }

    fn set_focus(&mut self, focus: usize)
        ensures
            final(self).focused == (focus as int) % old(self).focus_count_view(),
            same_but_focus(*old(self), *final(self)),
    {
        self.focused = focus % self.focus_count();
        if self.focused < self.field_count() {
            let field = self.field_index(self.focused);
            self.input.activate(self.fields[field].as_str());
        } else {
            self.input.deactivate();
        }
    }

    /// Moves the focus to the next control, wrapping after Submit.
    pub fn focus_next(&mut self)
        requires
            old(self).focused < usize::MAX,
        ensures
            final(self).focused == (old(self).focused + 1) % old(self).focus_count_view(),
            same_but_focus(*old(self), *final(self)),
    {
        self.set_focus(self.focused + 1);
    }

    /// Moves the focus to the previous control, wrapping before the first.
    pub fn focus_prev(&mut self)
        ensures
            final(self).focused == if old(self).focused == 0 {
                old(self).focus_count_view() - 1
            } else {
                (old(self).focused - 1) % old(self).focus_count_view()
            },
            same_but_focus(*old(self), *final(self)),
    {
        let previous = if self.focused == 0 {
            self.focus_count() - 1
        } else {
            self.focused - 1
        };
        self.set_focus(previous);
        proof {
            if old(self).focused == 0 {
                vstd::arithmetic::div_mod::lemma_small_mod(
                    (old(self).focus_count_view() - 1) as nat,
                    old(self).focus_count_view() as nat,
                );
            }
        }
    }

    /// The values can be submitted: a username, and a room code when joining.
    pub fn can_submit(&self) -> (r: bool)
        ensures
            r == self.can_submit_view(),
    {
        !str_is_blank(self.fields[Self::USERNAME].as_str()) && (!self.join || !str_is_blank(
            self.fields[Self::ROOM_CODE].as_str(),
        ))
    }

    /// Submitting: the connection request when the values can be submitted,
    /// with the username trimmed and the room code trimmed and upper-cased.
    pub fn connect_result(&self) -> (r: ConnectModalResult)
        ensures
            submits(*self, r),
    {
        if !self.can_submit() {
            return ConnectModalResult::Consumed;
        }
        let room_code = if self.join {
            let code = trim(self.fields[Self::ROOM_CODE].as_str());
            Some(to_uppercase(code.as_str()))
        } else {
            None
        };
        ConnectModalResult::Connect {
            ip: self.ip.clone(),
            port: self.port,
            password: self.fields[Self::PASSWORD].clone(),
            username: trim(self.fields[Self::USERNAME].as_str()),
            room_code,
        }
    }
}

/// `after` is `before` with only the focus moved: the values, the dialog's
/// kind and texts are kept, and the text input is active exactly on a field.
pub open spec fn same_but_focus(before: ConnectModal, after: ConnectModal) -> bool {
    &&& after.join == before.join
    &&& after.ip == before.ip
    &&& after.port == before.port
    &&& after.fields == before.fields
    &&& after.is_username_only() == before.is_username_only()
    &&& after.endpoint_view() == before.endpoint_view()
    &&& after.masked_view() == before.masked_view()
    &&& after.input.active == (after.focused < before.field_count_view())
}

/// `r` is what submitting `m` answers: nothing when the values cannot be
/// submitted, else the connection request with the username trimmed and
/// the room code trimmed and upper-cased.
pub open spec fn submits(m: ConnectModal, r: ConnectModalResult) -> bool {
    &&& !m.can_submit_view() ==> r == ConnectModalResult::Consumed
    &&& m.can_submit_view() ==> (r matches ConnectModalResult::Connect {
        ip,
        port,
        password,
        username,
        room_code,
    } && ip@ == m.ip@ && port == m.port && password@ == m.fields[ConnectModal::PASSWORD as int]@
        && username@ == trimmed(m.fields[ConnectModal::USERNAME as int]@) && match room_code {
        Some(code) => m.join && code@ == uppercase_of(trimmed(m.fields[ConnectModal::ROOM_CODE as int]@)),
        None => !m.join,
    })
}

/// Whether `event` moves the focus forward: Tab, Tab's event or the down
/// arrow.
pub open spec fn steps_focus_forward(event: UiEvent) -> bool {
    match event {
        UiEvent::KeyInput { text } => text@ == "\t"@,
        UiEvent::FocusNext | UiEvent::CursorDown => true,
        _ => false,
    }
}

/// Where a pointer press landed on the dialog.
#[derive(Clone, Copy, Debug, PartialEq, Eq, Structural)]
pub enum ConnectTarget {
    Outside,
    /// The text field at visible position `n`.
    Field(usize),
    Cancel,
    Submit,
    /// Elsewhere on the dialog.
    Card,
}

/// What the dialog asks of its owner after an event.
#[derive(Debug, PartialEq)]
pub enum ConnectStep {
    Answer(ConnectModalResult),
    /// The key goes to the text input of stored field `n` (typing or caret
    /// moves); the owner stores the edited text with `set_field_text`.
    EditField(usize),
    /// A press gave the focus to stored field `field`: the caret goes under
    /// the pointer, or the whole text is selected on a double click.
    PlaceCaret { field: usize, select_all: bool },
}

impl ConnectModal {
    /// Stores `text` as the value of stored field `field` (0 to 2), as the
    /// focused field's text input edited it.
    pub fn set_field_text(&mut self, field: usize, text: String)
        requires
            field < 3,
        ensures
            final(self).fields[field as int]@ == text@,
            forall|k: int| 0 <= k < 3 && k != field ==> final(self).fields[k] == old(self).fields[k],
            final(self).masked_view() == if field == Self::PASSWORD {
                mask_spec(text@)
            } else {
                old(self).masked_view()
            },
            final(self).join == old(self).join,
            final(self).ip == old(self).ip,
            final(self).port == old(self).port,
            final(self).focused == old(self).focused,
            final(self).input == old(self).input,
            final(self).is_username_only() == old(self).is_username_only(),
            final(self).endpoint_view() == old(self).endpoint_view(),
    {
        if field == Self::PASSWORD {
            self.masked_password = repeat_char('•', char_count(text.as_str()));
        }
        if field == 0 {
            self.fields[0] = text;
        } else if field == 1 {
            self.fields[1] = text;
        } else {
            self.fields[2] = text;
        }
    }

    /// Handles `event`; `target` says where a press landed. Escape closes;
    /// Tab, Shift+Tab and the vertical arrows move the focus; Enter (and
    /// Space on a button) submits, or closes on Cancel; other keys, and the
    /// horizontal arrows, go to the focused field; a press outside closes,
    /// on a field focuses it, on Cancel closes and on Submit submits.
    /// The focus index may be any value; one past the last index cannot be
    /// stepped forward from.
    pub fn handle_event(&mut self, event: &UiEvent, target: ConnectTarget) -> (r: ConnectStep)
        requires
            !(old(self).focused == usize::MAX && steps_focus_forward(*event)),
        ensures
            ({
                let f = old(self).focused as int;
                let n = old(self).field_count_view();
                let next = (f + 1) % (n + 2);
                let prev = if f == 0 { n + 1 } else { (f - 1) % (n + 2) };
                let stays = *final(self) == *old(self);
                let moved_to = |to: int| final(self).focused == to && same_but_focus(*old(self), *final(self));
                match *event {
                    UiEvent::KeyInput { text } => if text@ == "\x1b"@ {
                        stays && r == ConnectStep::Answer(ConnectModalResult::Close)
                    } else if text@ == "\t"@ {
                        moved_to(next) && r == ConnectStep::Answer(ConnectModalResult::Consumed)
                    } else if text@ == "\u{b}"@ {
                        moved_to(prev) && r == ConnectStep::Answer(ConnectModalResult::Consumed)
                    } else if text@ == "\r"@ || text@ == "\n"@ || (text@ == " "@ && f >= n) {
                        stays && if f == n {
                            r == ConnectStep::Answer(ConnectModalResult::Close)
                        } else {
                            r matches ConnectStep::Answer(x) && submits(*old(self), x)
                        }
                    } else if f < n {
                        stays && r == ConnectStep::EditField(old(self).field_index_view(f) as usize)
                    } else {
                        stays && r == ConnectStep::Answer(ConnectModalResult::Consumed)
                    },
                    UiEvent::FocusNext | UiEvent::CursorDown => moved_to(next) && r
                        == ConnectStep::Answer(ConnectModalResult::Consumed),
                    UiEvent::FocusPrevious | UiEvent::CursorUp => moved_to(prev) && r
                        == ConnectStep::Answer(ConnectModalResult::Consumed),
                    UiEvent::CursorLeft | UiEvent::CursorRight => stays && if f < n {
                        r == ConnectStep::EditField(old(self).field_index_view(f) as usize)
                    } else {
                        r == ConnectStep::Answer(ConnectModalResult::Consumed)
                    },
                    UiEvent::Pointer(PointerKind::MousePress) | UiEvent::Pointer(
                        PointerKind::DoubleClick,
                    ) => match target {
                        ConnectTarget::Outside => stays && r == ConnectStep::Answer(
                            ConnectModalResult::Close,
                        ),
                        ConnectTarget::Field(i) => if i < n {
                            moved_to(i as int) && r == ConnectStep::PlaceCaret {
                                field: old(self).field_index_view(i as int) as usize,
                                select_all: *event == UiEvent::Pointer(PointerKind::DoubleClick),
                            }
                        } else {
                            stays && r == ConnectStep::Answer(ConnectModalResult::Consumed)
                        },
                        ConnectTarget::Cancel => moved_to(n) && r == ConnectStep::Answer(
                            ConnectModalResult::Close,
                        ),
                        ConnectTarget::Submit => moved_to(n + 1) && (r matches ConnectStep::Answer(x)
                            && submits(*old(self), x)),
                        ConnectTarget::Card => stays && r == ConnectStep::Answer(
                            ConnectModalResult::Consumed,
                        ),
                    },
                    _ => stays && r == ConnectStep::Answer(ConnectModalResult::Consumed),
                }
            }),
    {
        let n = self.field_count();
        match event {
            UiEvent::KeyInput { text } => {
                if key_is(text, "\x1b") {
                    return ConnectStep::Answer(ConnectModalResult::Close);
                }
                if key_is(text, "\t") {
                    self.focus_next();
                    return ConnectStep::Answer(ConnectModalResult::Consumed);
                }
                if key_is(text, "\u{b}") {
                    self.focus_prev();
                    return ConnectStep::Answer(ConnectModalResult::Consumed);
                }
                if key_is(text, "\r") || key_is(text, "\n") || (key_is(text, " ") && self.focused >= n) {
                    return if self.focused == n {
                        ConnectStep::Answer(ConnectModalResult::Close)
                    } else {
                        ConnectStep::Answer(self.connect_result())
                    };
                }
                if self.focused < n {
                    ConnectStep::EditField(self.field_index(self.focused))
                } else {
                    ConnectStep::Answer(ConnectModalResult::Consumed)
                }
            },
            UiEvent::FocusNext | UiEvent::CursorDown => {
                self.focus_next();
                ConnectStep::Answer(ConnectModalResult::Consumed)
            },
            UiEvent::FocusPrevious | UiEvent::CursorUp => {
                self.focus_prev();
                ConnectStep::Answer(ConnectModalResult::Consumed)
            },
            UiEvent::CursorLeft | UiEvent::CursorRight => {
                if self.focused < n {
                    ConnectStep::EditField(self.field_index(self.focused))
                } else {
                    ConnectStep::Answer(ConnectModalResult::Consumed)
                }
            },
            UiEvent::Pointer(PointerKind::MousePress) | UiEvent::Pointer(PointerKind::DoubleClick) => {
                let double = match event {
                    UiEvent::Pointer(PointerKind::DoubleClick) => true,
                    _ => false,
                };
                match target {
                    ConnectTarget::Outside => ConnectStep::Answer(ConnectModalResult::Close),
                    ConnectTarget::Field(i) => {
                        if i < n {
                            let field = self.field_index(i);
                            self.set_focus(i);
                            proof {
                                vstd::arithmetic::div_mod::lemma_small_mod(
                                    i as nat,
                                    old(self).focus_count_view() as nat,
                                );
                            }
                            ConnectStep::PlaceCaret { field, select_all: double }
                        } else {
                            ConnectStep::Answer(ConnectModalResult::Consumed)
                        }
                    },
                    ConnectTarget::Cancel => {
                        self.set_focus(n);
                        proof {
                            vstd::arithmetic::div_mod::lemma_small_mod(
                                n as nat,
                                old(self).focus_count_view() as nat,
                            );
                        }
                        ConnectStep::Answer(ConnectModalResult::Close)
                    },
                    ConnectTarget::Submit => {
                        let answer = self.connect_result();
                        self.set_focus(n + 1);
                        proof {
                            vstd::arithmetic::div_mod::lemma_small_mod(
                                (n + 1) as nat,
                                old(self).focus_count_view() as nat,
                            );
                        }
                        ConnectStep::Answer(answer)
                    },
                    ConnectTarget::Card => ConnectStep::Answer(ConnectModalResult::Consumed),
                }
            },
            _ => ConnectStep::Answer(ConnectModalResult::Consumed),
        }
    }
}

/// Label of stored field `index`.
pub open spec fn field_label_spec(index: int) -> Seq<char> {
    if index == 0 {
        msg_text(Msg::ConnectPassword)
    } else if index == 1 {
        msg_text(Msg::ConnectUsername)
    } else if index == 2 {
        msg_text(Msg::ConnectRoomCode)
    } else {
        ""@
    }
}

/// Placeholder of stored field `index`.
pub open spec fn field_placeholder_spec(index: int) -> Seq<char> {
    if index == 0 {
        msg_text(Msg::ConnectPasswordPlaceholder)
    } else if index == 1 {
        msg_text(Msg::ConnectUsernamePlaceholder)
    } else if index == 2 {
        msg_text(Msg::ConnectRoomCodePlaceholder)
    } else {
        ""@
    }
}

/// Moving the focus forward then back returns it to the same control,
/// and both moves stay within the dialog's focus stops.
pub proof fn lemma_focus_next_then_prev(focused: int, count: int)
    requires
        0 <= focused < count,
        count >= 3,
    ensures
        ({
            let next = (focused + 1) % count;
            let back = if next == 0 {
                count - 1
            } else {
                (next - 1) % count
            };
            &&& 0 <= next < count
            &&& back == focused
        }),
{
    let next = (focused + 1) % count;
    if focused + 1 < count {
        vstd::arithmetic::div_mod::lemma_small_mod((focused + 1) as nat, count as nat);
        vstd::arithmetic::div_mod::lemma_small_mod(focused as nat, count as nat);
    } else {
        vstd::arithmetic::div_mod::lemma_mod_self_0(count);
    }
}

/// Submission is possible exactly when the username (and, when joining,
/// the room code) holds something besides white space, that is when
/// trimming leaves text.
pub proof fn lemma_can_submit_iff_trimmed_values(modal: ConnectModal)
    ensures
        modal.can_submit_view() <==> (trimmed(modal.fields[ConnectModal::USERNAME as int]@).len()
            > 0 && (!modal.join || trimmed(modal.fields[ConnectModal::ROOM_CODE as int]@).len()
            > 0)),
{
    lemma_blank_iff_trimmed_empty(modal.fields[ConnectModal::USERNAME as int]@);
    lemma_blank_iff_trimmed_empty(modal.fields[ConnectModal::ROOM_CODE as int]@);
}

} // verus!
