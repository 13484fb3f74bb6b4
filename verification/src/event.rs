//! Input events and the actions widgets answer with.
//!
//! Pointer events carry window coordinates that only the geometry layer
//! reads; here they appear by kind, without their coordinates.

use vstd::prelude::*;

use crate::automation::{Branch, EdgeKind};
use crate::project::{MediaId, SyllableLanguage};

verus! {

/// Kind of a pointer event.
#[derive(Clone, Copy, Debug, PartialEq, Eq, Structural)]
pub enum PointerKind {
    MouseMove,
    MousePress,
    MouseRelease,
    DoubleClick,
    MiddlePress,
    MiddleRelease,
    Scroll,
    ContextMenu,
    CtrlClick,
}

/// An input event delivered to a widget.
#[derive(Clone, Debug, PartialEq, Eq)]
pub enum UiEvent {
    KeyInput { text: String },
    CursorLeft,
    CursorRight,
    MoveWordLeft,
    MoveWordRight,
    ShiftCursorLeft,
    ShiftCursorRight,
    CursorUp,
    CursorDown,
    SelectWordLeft,
    SelectWordRight,
    FocusNext,
    FocusPrevious,
    Activate,
    Home,
    End,
    PageUp,
    PageDown,
    AltCursorLeft,
    AltCursorRight,
    OpenContextMenu,
    Delete,
    SelectAll,
    Copy,
    Cut,
    UndoTextEdit,
    Pointer(PointerKind),
}

/// Horizontal alignment of a bubble's text.
#[derive(Clone, Copy, Debug, PartialEq, Eq, Structural)]
pub enum TextAlignment {
    Left,
    Center,
    Right,
}

/// Announcements for screen readers.
#[derive(Clone, Debug, PartialEq, Eq)]
pub enum AccessibilityEvent {
    Selection { label: String },
    Collapsed { label: String },
    Focus { label: String, role: String },
    ValueChanged { label: String, value: String },
    Closed { label: String },
}

/// Requests a widget hands to the application.
#[derive(Clone, Debug, PartialEq, Eq)]
pub enum UiAction {
    AddVideo,
    AddMediaAudio,
    MediaVideoUse { id: MediaId },
    MediaVideoSetDefault { id: MediaId },
    MediaVideoDissociateProxy { id: MediaId },
    MediaVideoRelink { id: MediaId },
    MediaVideoCreateProxy { id: MediaId },
    MediaVideoBeginRename { id: MediaId },
    MediaVideoRemove { id: MediaId },
    MediaVideoAssociateProxy { proxy_id: MediaId, source_id: MediaId },
    MediaReorderVideo { id: MediaId, to_index: usize },
    MediaReorderAudio { id: MediaId, to_index: usize },
    LanguageReorder { id: u64, to_index: usize },
    SetLanguageInstrumentalAudioPath { id: u64, path: String },
    MediaAudioRemove { id: MediaId },
    MediaAudioBeginRename { id: MediaId },
    LanguageBeginRename { id: u64 },
    DeleteLanguage { id: u64 },
    SetLanguageSyllableLanguage { id: u64, language: SyllableLanguage },
    ClearLanguageInstrumentalAudio { id: u64 },
    SetLanguageInstrumentalAudioByMediaId { band_id: u64, media_id: MediaId },
    ComicDubsCloseVertexEditor,
    ComicDubsToggleVertexEditorPreview,
    ComicDubsRemoveBubbleVertexKeyframe { bubble_id: u64, at_ms: u64 },
    ComicDubsSetVertexEditorPlayhead(u64),
    ComicDubsSelectPage(u64),
    ComicDubsRemovePage(u64),
    ComicDubsMovePage { page_id: u64, delta: i32 },
    ComicDubsRemoveAudio(u64),
    ComicDubsAssignAudio { bubble_id: u64, audio_id: Option<u64> },
    ComicDubsSetBubbleText { bubble_id: u64, text: String },
    ComicDubsSetBubbleTextStyle { bubble_id: u64, bold: bool, strikethrough: bool, underline: bool },
    ComicDubsSetBubbleTextAlignment { bubble_id: u64, alignment: TextAlignment },
    ComicDubsMoveBubble { bubble_id: u64, delta: i32 },
    ComicDubsRemoveBubble(u64),
    AutomationDeleteNode { node_id: u64 },
    AutomationConnect { from_node: u64, kind: EdgeKind, branch: Branch, to_node: u64 },
    AutomationAddRole { node_id: u64, role: String },
    AutomationRemoveRole { node_id: u64, role: String },
    AutomationSetNodeEnabled { node_id: u64, enabled: bool },
    AutomationSetTrack { node_id: u64, track: u8 },
    CloseAutomation,
    CloseFileTree,
    SelectLanguage { id: u64 },
    MediaVideoRename { id: MediaId, name: String },
    MediaAudioRename { id: MediaId, name: String },
    RenameLanguage { id: u64, name: String },
    Accessibility(AccessibilityEvent),
}

/// What a widget did with an event.
#[derive(Clone, Debug, PartialEq, Eq)]
pub enum EventResponse {
    Consumed,
    Ignored,
    Action(UiAction),
}

/// Whether `event` comes from the keyboard (or keyboard-like navigation).
pub open spec fn is_keyboard_spec(event: &UiEvent) -> bool {
    !(event is Pointer)
}

/// Whether `event` comes from the keyboard (or keyboard-like navigation).
pub fn is_keyboard_event(event: &UiEvent) -> (r: bool)
    ensures
        r == is_keyboard_spec(event),
{
    match event {
        UiEvent::Pointer(_) => false,
        _ => true,
    }
}

/// Whether `event` activates the focused control: Activate, Enter, Return
/// or Space.
pub open spec fn is_activation_spec(event: &UiEvent) -> bool {
    match event {
        UiEvent::Activate => true,
        UiEvent::KeyInput { text } => text@ == "\r"@ || text@ == "\n"@ || text@ == " "@,
        _ => false,
    }
}

/// Whether the text of a key event is exactly `s`.
pub fn key_is(text: &String, s: &str) -> (r: bool)
    ensures
        r == (text@ == s@),
{
    let t = crate::text::owned(s);
    *text == t
}

/// Whether `event` activates the focused control: Activate, Enter, Return
/// or Space.
pub fn keyboard_activation(event: &UiEvent) -> (r: bool)
    ensures
        r == is_activation_spec(event),
{
    match event {
        UiEvent::Activate => true,
        UiEvent::KeyInput { text } => key_is(text, "\r") || key_is(text, "\n") || key_is(text, " "),
        _ => false,
    }
}

} // verus!
