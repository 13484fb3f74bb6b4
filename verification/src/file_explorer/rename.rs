//! Renaming an element of the file tree: the edited name, and whether
//! committing it asks the application for a rename.

use vstd::prelude::*;

use crate::event::{is_keyboard_spec, is_keyboard_event, key_is, AccessibilityEvent, EventResponse, UiAction, UiEvent};
use crate::i18n::{msg_text, t, Msg};
use crate::text::{owned, trim, trimmed};

use super::data::{audio_index, band_index, video_index, FileTreeData};
use super::find_band;
use super::rows::AudioRowId;
use super::RenameTarget;

verus! {

/// A rename in progress: what is renamed, the name being edited, the name
/// it started from, and whether that name was read from the tree yet.
pub struct RenameState {
    pub target: RenameTarget,
    pub buffer: String,
    pub original: String,
    pub hydrated: bool,
}

/// `c` with ASCII upper-case letters made lower-case.
pub open spec fn ascii_lower(c: char) -> int {
    if 'A' <= c <= 'Z' {
        c as int + 32
    } else {
        c as int
    }
}

/// The texts are equal up to ASCII case (what `str::eq_ignore_ascii_case`
/// tests).
pub open spec fn eq_ignore_ascii_case_spec(a: Seq<char>, b: Seq<char>) -> bool {
    a.len() == b.len() && forall|i: int| 0 <= i < a.len() ==> ascii_lower(#[trigger] a[i]) == ascii_lower(b[i])
}

/// Whether `a` and `b` are equal up to ASCII case.
pub fn eq_ignore_ascii_case(a: &str, b: &str) -> (r: bool)
    ensures
        r == eq_ignore_ascii_case_spec(a@, b@),
{
    let n = a.unicode_len();
    if n != b.unicode_len() {
        return false;
    }
    let mut i: usize = 0;
    while i < n
        invariant
            n == a@.len(),
            n == b@.len(),
            i <= n,
            forall|j: int| 0 <= j < i ==> ascii_lower(#[trigger] a@[j]) == ascii_lower(b@[j]),
        decreases n - i,
    {
        let x = a.get_char(i);
        let y = b.get_char(i);
        let lx: u32 = if 'A' <= x && x <= 'Z' {
            x as u32 + 32
        } else {
            x as u32
        };
        let ly: u32 = if 'A' <= y && y <= 'Z' {
            y as u32 + 32
        } else {
            y as u32
        };
        if lx != ly {
            return false;
        }
        i = i + 1;
    }
    true
}

/// Current name of what `target` names, empty when it is gone.
pub open spec fn target_name(target: RenameTarget, data: FileTreeData) -> Seq<char> {
    match target {
        RenameTarget::Video(id) => match video_index(data.videos@, id, 0) {
            Some(i) => data.videos@[i].name@,
            None => Seq::empty(),
        },
        RenameTarget::Audio(id) => match audio_index(data.audios@, AudioRowId::Media(id), 0) {
            Some(i) => data.audios@[i].name@,
            None => Seq::empty(),
        },
        RenameTarget::Band(id) => match band_index(data.bands@, id, 0) {
            Some(i) => data.bands@[i].name@,
            None => Seq::empty(),
        },
    }
}

/// Another element of the same kind already has `value` as its name, up
/// to ASCII case.
pub open spec fn is_duplicate(target: RenameTarget, value: Seq<char>, data: FileTreeData) -> bool {
    match target {
        RenameTarget::Video(id) => exists|i: int|
            0 <= i < data.videos@.len() && data.videos@[i].id != id && eq_ignore_ascii_case_spec(
                #[trigger] data.videos@[i].name@,
                value,
            ),
        RenameTarget::Audio(id) => exists|i: int|
            0 <= i < data.audios@.len() && data.audios@[i].media_id != Some(id)
                && eq_ignore_ascii_case_spec(#[trigger] data.audios@[i].name@, value),
        RenameTarget::Band(id) => exists|i: int|
            0 <= i < data.bands@.len() && data.bands@[i].id != id && eq_ignore_ascii_case_spec(
                #[trigger] data.bands@[i].name@,
                value,
            ),
    }
}

/// Whether the committed `value` is a rename the application should make:
/// not empty, changed, and not the name of another element of its kind.
pub open spec fn rename_accepted(
    target: RenameTarget,
    value: Seq<char>,
    original: Seq<char>,
    data: FileTreeData,
) -> bool {
    value.len() > 0 && value != original && !is_duplicate(target, value, data)
}

/// The rename request for `target` with name `name`.
pub open spec fn rename_request(target: RenameTarget, r: EventResponse, name: Seq<char>) -> bool {
    match target {
        RenameTarget::Video(id) => r matches EventResponse::Action(
            UiAction::MediaVideoRename { id: i, name: n },
        ) && i == id && n@ == name,
        RenameTarget::Audio(id) => r matches EventResponse::Action(
            UiAction::MediaAudioRename { id: i, name: n },
        ) && i == id && n@ == name,
        RenameTarget::Band(id) => r matches EventResponse::Action(
            UiAction::RenameLanguage { id: i, name: n },
        ) && i == id && n@ == name,
    }
}

/// Current name of what `target` names.
pub fn target_name_of(target: &RenameTarget, data: &FileTreeData) -> (r: String)
    ensures
        r@ == target_name(*target, *data),
{
    match target {
        RenameTarget::Video(id) => match data.video(*id) {
            Some(v) => owned(v.name.as_str()),
            None => String::new(),
        },
        RenameTarget::Audio(id) => match data.audio(AudioRowId::Media(*id)) {
            Some(a) => owned(a.name.as_str()),
            None => String::new(),
        },
        RenameTarget::Band(id) => match find_band(&data.bands, *id) {
            Some(b) => owned(b.name.as_str()),
            None => String::new(),
        },
    }
}

/// Whether another element of the kind of `target` is named `value`.
pub fn rename_value_is_duplicate(data: &FileTreeData, target: &RenameTarget, value: &str) -> (r: bool)
    ensures
        r == is_duplicate(*target, value@, *data),
{
    match target {
        RenameTarget::Video(id) => {
            let mut i: usize = 0;
            while i < data.videos.len()
                invariant
                    *target == RenameTarget::Video(*id),
                    i <= data.videos@.len(),
                    forall|j: int|
                        0 <= j < i ==> !(data.videos@[j].id != *id && eq_ignore_ascii_case_spec(
                            #[trigger] data.videos@[j].name@,
                            value@,
                        )),
                decreases data.videos@.len() - i,
            {
                if data.videos[i].id != *id && eq_ignore_ascii_case(data.videos[i].name.as_str(), value) {
                    assert(eq_ignore_ascii_case_spec(data.videos@[i as int].name@, value@));
                    return true;
                }
                i = i + 1;
            }
            false
        },
        RenameTarget::Audio(id) => {
            let mut i: usize = 0;
            while i < data.audios.len()
                invariant
                    *target == RenameTarget::Audio(*id),
                    i <= data.audios@.len(),
                    forall|j: int|
                        0 <= j < i ==> !(data.audios@[j].media_id != Some(*id)
                            && eq_ignore_ascii_case_spec(#[trigger] data.audios@[j].name@, value@)),
                decreases data.audios@.len() - i,
            {
                if data.audios[i].media_id != Some(*id) && eq_ignore_ascii_case(
                    data.audios[i].name.as_str(),
                    value,
                ) {
                    assert(eq_ignore_ascii_case_spec(data.audios@[i as int].name@, value@));
                    return true;
                }
                i = i + 1;
            }
            false
        },
        RenameTarget::Band(id) => {
            let mut i: usize = 0;
            while i < data.bands.len()
                invariant
                    *target == RenameTarget::Band(*id),
                    i <= data.bands@.len(),
                    forall|j: int|
                        0 <= j < i ==> !(data.bands@[j].id != *id && eq_ignore_ascii_case_spec(
                            #[trigger] data.bands@[j].name@,
                            value@,
                        )),
                decreases data.bands@.len() - i,
            {
                if data.bands[i].id != *id && eq_ignore_ascii_case(data.bands[i].name.as_str(), value) {
                    assert(eq_ignore_ascii_case_spec(data.bands@[i as int].name@, value@));
                    return true;
                }
                i = i + 1;
            }
            false
        },
    }
}

impl RenameState {
    /// A rename of `target` started from `value`; an empty value is read
    /// from the tree on first use.
    pub fn begin(target: RenameTarget, value: &str) -> (r: Self)
        ensures
            r.target == target,
            r.buffer@ == value@,
            r.original@ == value@,
            r.hydrated == (value@.len() > 0),
    {
        RenameState {
            target,
            buffer: owned(value),
            original: owned(value),
            hydrated: value.unicode_len() > 0,
        }
    }

    /// A rename of `target` started from its current name `value`.
    pub fn start(target: RenameTarget, value: &str) -> (r: Self)
        ensures
            r.target == target,
            r.buffer@ == value@,
            r.original@ == value@,
            r.hydrated,
    {
        RenameState { target, buffer: owned(value), original: owned(value), hydrated: true }
    }

    /// Reads the starting name from the tree if it was not known yet.
    pub fn hydrate(&mut self, data: &FileTreeData)
        ensures
            final(self).target == old(self).target,
            final(self).hydrated,
            old(self).hydrated ==> final(self).buffer@ == old(self).buffer@ && final(self).original@
                == old(self).original@,
            !old(self).hydrated ==> final(self).buffer@ == target_name(old(self).target, *data)
                && final(self).original@ == target_name(old(self).target, *data),
    {
        if self.hydrated {
            return;
        }
        let value = target_name_of(&self.target, data);
        self.buffer = owned(value.as_str());
        self.original = value;
        self.hydrated = true;
    }

    /// Commits the rename: the trimmed name is asked for when it is not
    /// empty, differs from the starting name and is not another element's
    /// name; otherwise nothing is asked.
    pub fn finish(self, data: &FileTreeData) -> (r: EventResponse)
        ensures
            ({
                let buffer = if self.hydrated {
                    self.buffer@
                } else {
                    target_name(self.target, *data)
                };
                let original = if self.hydrated {
                    self.original@
                } else {
                    target_name(self.target, *data)
                };
                let value = trimmed(buffer);
                if rename_accepted(self.target, value, original, *data) {
                    rename_request(self.target, r, value)
                } else {
                    r == EventResponse::Consumed
                }
            }),
    {
        let mut state = self;
        state.hydrate(data);
        let value = trim(state.buffer.as_str());
        if value.unicode_len() == 0 || value == state.original {
            return EventResponse::Consumed;
        }
        if rename_value_is_duplicate(data, &state.target, value.as_str()) {
            return EventResponse::Consumed;
        }
        match state.target {
            RenameTarget::Video(id) => EventResponse::Action(UiAction::MediaVideoRename { id, name: value }),
            RenameTarget::Audio(id) => EventResponse::Action(UiAction::MediaAudioRename { id, name: value }),
            RenameTarget::Band(id) => EventResponse::Action(UiAction::RenameLanguage { id, name: value }),
        }
    }
}

/// Handles a key during a rename: Escape cancels it (and says so), Enter
/// or Return commits it, other keys edit the name (the caller applies them
/// to the buffer). Pointer events and the absence of a rename are left to
/// the rest of the tree (`None`).
pub fn handle_rename_keyboard(rename: &mut Option<RenameState>, event: &UiEvent, data: &FileTreeData) -> (r: Option<EventResponse>)
    ensures
        (*old(rename) is None || !is_keyboard_spec(event)) ==> r is None && (*final(rename) is None
            <==> *old(rename) is None),
        (*old(rename) is Some && is_keyboard_spec(event)) ==> match *event {
            UiEvent::KeyInput { text } => if text@ == "\x1b"@ {
                *final(rename) is None && (r matches Some(
                    EventResponse::Action(UiAction::Accessibility(AccessibilityEvent::Closed { label })),
                ) && label@ == msg_text(Msg::FileTreeRename))
            } else if text@ == "\r"@ || text@ == "\n"@ {
                *final(rename) is None && r is Some
            } else {
                *final(rename) is Some && r == Some(EventResponse::Consumed)
            },
            _ => *final(rename) is Some && r == Some(EventResponse::Consumed),
        },
{
    if rename.is_none() || !is_keyboard_event(event) {
        return None;
    }
    match event {
        UiEvent::KeyInput { text } => {
            if key_is(text, "\x1b") {
                *rename = None;
                Some(
                    EventResponse::Action(
                        UiAction::Accessibility(
                            AccessibilityEvent::Closed { label: owned(t(Msg::FileTreeRename)) },
                        ),
                    ),
                )
            } else if key_is(text, "\r") || key_is(text, "\n") {
                let state = rename.take().unwrap();
                Some(state.finish(data))
            } else {
                Some(EventResponse::Consumed)
            }
        },
        _ => Some(EventResponse::Consumed),
    }
}

} // verus!
