//! Comic dubs workspace: the vertex-animation timeline of a speech bubble,
//! the playback clock labels, media-list scrolling and the word wrapping of
//! bubble text.
//!
//! Bubble polygons, page geometry and rendering work on window coordinates
//! and stay with the geometry layer; what is decided here works on
//! milliseconds, keyframe instants, row indices and characters.

use unicode_segmentation::UnicodeSegmentation;
use vstd::prelude::*;

use crate::event::{EventResponse, PointerKind, UiAction, UiEvent};
use crate::export::{all_digits, digits_value, lemma_decimal_digits, lemma_digits_value_grows};
use crate::text::{
    append_typed, chars_of, decimal, digit_char_spec, is_white_space, push_char, push_decimal,
    string_from,
    typed_capped,
};

verus! {

/// Shortest span of the vertex timeline (ms).
pub const MIN_TIMELINE_MS: u64 = 2_000;
/// Longest span of the vertex timeline (ms): one day.
pub const MAX_TIMELINE_MS: u64 = 86_400_000;
/// Step of the arrow keys on the timeline (ms).
pub const TIMELINE_ARROW_STEP_MS: u64 = 50;

pub open spec fn max_u64(a: u64, b: u64) -> u64 {
    if a >= b { a } else { b }
}

pub open spec fn min_u64(a: u64, b: u64) -> u64 {
    if a <= b { a } else { b }
}

/// Span of the vertex timeline: the longest of the bubble's audio and its
/// vertex animation, at least two seconds and at most one day.
pub open spec fn timeline_duration(audio_ms: Option<u64>, animation_ms: u64) -> u64 {
    let audio = match audio_ms {
        Some(a) => a,
        None => 0,
    };
    min_u64(max_u64(max_u64(audio, animation_ms), MIN_TIMELINE_MS), MAX_TIMELINE_MS)
}

/// Span of the vertex timeline for a bubble whose audio lasts `audio_ms`
/// (`None` without audio) and whose vertex animation lasts `animation_ms`.
pub fn vertex_editor_duration_ms(audio_ms: Option<u64>, animation_ms: u64) -> (r: u64)
    ensures
        r == timeline_duration(audio_ms, animation_ms),
        MIN_TIMELINE_MS <= r <= MAX_TIMELINE_MS,
{
    let audio = match audio_ms {
        Some(a) => a,
        None => 0,
    };
    let longest = if audio >= animation_ms { audio } else { animation_ms };
    let at_least = if longest >= MIN_TIMELINE_MS { longest } else { MIN_TIMELINE_MS };
    if at_least <= MAX_TIMELINE_MS { at_least } else { MAX_TIMELINE_MS }
}

/// The last keyframe instant (in timeline order) strictly before `playhead`,
/// or 0 when there is none.
pub open spec fn previous_keyframe(keyframes: Seq<u64>, playhead: u64) -> u64
    decreases keyframes.len(),
{
    if keyframes.len() == 0 {
        0
    } else if keyframes.last() < playhead {
        keyframes.last()
    } else {
        previous_keyframe(keyframes.drop_last(), playhead)
    }
}

/// The first keyframe instant (in timeline order) strictly after `playhead`,
/// or `end` when there is none.
pub open spec fn next_keyframe(keyframes: Seq<u64>, playhead: u64, end: u64) -> u64
    decreases keyframes.len(),
{
    if keyframes.len() == 0 {
        end
    } else if keyframes[0] > playhead {
        keyframes[0]
    } else {
        next_keyframe(keyframes.drop_first(), playhead, end)
    }
}

/// The keyframe instant before `playhead_ms`, or 0.
pub fn previous_keyframe_at(keyframes: &Vec<u64>, playhead_ms: u64) -> (r: u64)
    ensures
        r == previous_keyframe(keyframes@, playhead_ms),
{
    let mut i = keyframes.len();
    assert(keyframes@.take(i as int) =~= keyframes@);
    while i > 0
        invariant
            i <= keyframes@.len(),
            previous_keyframe(keyframes@.take(i as int), playhead_ms) == previous_keyframe(
                keyframes@,
                playhead_ms,
            ),
        decreases i,
    {
        let at = keyframes[i - 1];
        assert(keyframes@.take(i as int).last() == at);
        if at < playhead_ms {
            return at;
        }
        assert(keyframes@.take(i as int).drop_last() =~= keyframes@.take(i - 1));
        i = i - 1;
    }
    0
}

/// The keyframe instant after `playhead_ms`, or `duration_ms`.
pub fn next_keyframe_at(keyframes: &Vec<u64>, playhead_ms: u64, duration_ms: u64) -> (r: u64)
    ensures
        r == next_keyframe(keyframes@, playhead_ms, duration_ms),
{
    let mut i: usize = 0;
    assert(keyframes@.skip(0) =~= keyframes@);
    while i < keyframes.len()
        invariant
            i <= keyframes@.len(),
            next_keyframe(keyframes@.skip(i as int), playhead_ms, duration_ms) == next_keyframe(
                keyframes@,
                playhead_ms,
                duration_ms,
            ),
        decreases keyframes@.len() - i,
    {
        let at = keyframes[i];
        assert(keyframes@.skip(i as int)[0] == at);
        if at > playhead_ms {
            return at;
        }
        assert(keyframes@.skip(i as int).drop_first() =~= keyframes@.skip(i + 1));
        i = i + 1;
    }
    assert(keyframes@.skip(i as int) =~= Seq::<u64>::empty());
    duration_ms
}

/// Distance between two instants.
pub open spec fn gap(a: u64, b: u64) -> int {
    if a >= b {
        a - b
    } else {
        b - a
    }
}

/// The keyframe instant closest to `at_ms`, the earliest in timeline order
/// among equally close ones; none without keyframes.
pub fn nearest_keyframe(keyframes: &Vec<u64>, at_ms: u64) -> (r: Option<u64>)
    ensures
        keyframes@.len() == 0 <==> r is None,
        r matches Some(k) ==> exists|i: int|
            0 <= i < keyframes@.len() && keyframes@[i] == k && (forall|j: int|
                0 <= j < keyframes@.len() ==> gap(#[trigger] keyframes@[j], at_ms) >= gap(k, at_ms))
                && (forall|j: int| 0 <= j < i ==> gap(#[trigger] keyframes@[j], at_ms) > gap(k, at_ms)),
{
    if keyframes.len() == 0 {
        return None;
    }
    let mut best: usize = 0;
    let mut i: usize = 1;
    while i < keyframes.len()
        invariant
            1 <= i <= keyframes@.len(),
            best < i,
            forall|j: int| 0 <= j < i ==> gap(#[trigger] keyframes@[j], at_ms) >= gap(
                keyframes@[best as int],
                at_ms,
            ),
            forall|j: int| 0 <= j < best ==> gap(#[trigger] keyframes@[j], at_ms) > gap(
                keyframes@[best as int],
                at_ms,
            ),
        decreases keyframes@.len() - i,
    {
        let k = keyframes[i];
        let b = keyframes[best];
        let dk = if k >= at_ms { k - at_ms } else { at_ms - k };
        let db = if b >= at_ms { b - at_ms } else { at_ms - b };
        if dk < db {
            best = i;
        }
        i = i + 1;
    }
    Some(keyframes[best])
}

/// The keyframe at exactly `at_ms`, if there is one.
pub open spec fn keyframe_at(keyframes: Seq<u64>, at_ms: u64) -> Option<u64> {
    if keyframes.contains(at_ms) {
        Some(at_ms)
    } else {
        None
    }
}

/// The keyframe at exactly `at_ms`, if there is one.
pub fn find_keyframe(keyframes: &Vec<u64>, at_ms: u64) -> (r: Option<u64>)
    ensures
        r == keyframe_at(keyframes@, at_ms),
{
    let mut i: usize = 0;
    while i < keyframes.len()
        invariant
            i <= keyframes@.len(),
            forall|j: int| 0 <= j < i ==> keyframes@[j] != at_ms,
        decreases keyframes@.len() - i,
    {
        if keyframes[i] == at_ms {
            assert(keyframes@.contains(at_ms));
            return Some(at_ms);
        }
        i = i + 1;
    }
    None
}

/// What the vertex timeline asks of the workspace after an event.
#[derive(Clone, Copy, Debug, PartialEq, Eq, Structural)]
pub enum TimelineOutcome {
    /// The event was handled; nothing else to do.
    Consumed,
    /// Close the vertex editor.
    Close,
    /// Store the bubble's current pose as a keyframe at this instant.
    SetKeyframe { at_ms: u64 },
    /// Remove the keyframe at this instant.
    RemoveKeyframe { at_ms: u64 },
}

/// Buttons of the vertex editor's transport bar.
#[derive(Clone, Copy, Debug, PartialEq, Eq, Structural)]
pub enum TimelineButton {
    Close,
    Previous,
    Next,
    Play,
    Add,
    Delete,
}

/// Playhead of the vertex editor: where it stands, which keyframe it
/// selects, and from which instant a running preview started.
#[derive(Clone, Copy, Debug, PartialEq, Eq, Structural)]
pub struct VertexTimeline {
    pub playhead_ms: u64,
    pub selected_keyframe: Option<u64>,
    /// Playhead at the moment the preview started, while it runs.
    pub playing_from: Option<u64>,
}

/// The timeline after moving the playhead to `at_ms` (clamped to the span):
/// the keyframe there, if any, becomes selected and a preview stops.
pub open spec fn moved_to(at_ms: u64, keyframes: Seq<u64>, duration: u64) -> VertexTimeline {
    let p = min_u64(at_ms, duration);
    VertexTimeline { playhead_ms: p, selected_keyframe: keyframe_at(keyframes, p), playing_from: None }
}

/// The timeline after the play button: a running preview stops; otherwise
/// a preview starts, from the beginning when the playhead is at the end.
pub open spec fn preview_toggled(s: VertexTimeline, duration: u64) -> VertexTimeline {
    if s.playing_from is Some {
        VertexTimeline { playing_from: None, ..s }
    } else {
        let p = if s.playhead_ms >= duration { 0 } else { s.playhead_ms };
        VertexTimeline { playhead_ms: p, playing_from: Some(p), ..s }
    }
}

/// The timeline `elapsed_ms` after a preview started: the playhead runs
/// from where it started, stops at the end, and selects the keyframe under it.
pub open spec fn advanced(
    s: VertexTimeline,
    elapsed_ms: u64,
    keyframes: Seq<u64>,
    duration: u64,
) -> VertexTimeline {
    match s.playing_from {
        Some(from) => {
            let sum = from + elapsed_ms;
            let reached = if sum > u64::MAX { u64::MAX } else { sum as u64 };
            let p = min_u64(reached, duration);
            VertexTimeline {
                playhead_ms: p,
                selected_keyframe: keyframe_at(keyframes, p),
                playing_from: if p >= duration { None } else { s.playing_from },
            }
        },
        None => s,
    }
}

/// `playhead + delta`, saturated to the range of `u64`.
pub open spec fn nudged_instant(playhead: u64, delta: i64) -> u64 {
    let t = playhead + delta;
    if t < 0 {
        0
    } else if t > u64::MAX {
        u64::MAX
    } else {
        t as u64
    }
}

/// What a transport button does.
pub open spec fn button_step(
    s: VertexTimeline,
    button: TimelineButton,
    keyframes: Seq<u64>,
    duration: u64,
) -> (VertexTimeline, TimelineOutcome) {
    match button {
        TimelineButton::Close => (s, TimelineOutcome::Close),
        TimelineButton::Previous => (
            moved_to(previous_keyframe(keyframes, s.playhead_ms), keyframes, duration),
            TimelineOutcome::Consumed,
        ),
        TimelineButton::Next => (
            moved_to(next_keyframe(keyframes, s.playhead_ms, duration), keyframes, duration),
            TimelineOutcome::Consumed,
        ),
        TimelineButton::Play => (preview_toggled(s, duration), TimelineOutcome::Consumed),
        TimelineButton::Add => (
            VertexTimeline { selected_keyframe: Some(s.playhead_ms), ..s },
            TimelineOutcome::SetKeyframe { at_ms: s.playhead_ms },
        ),
        TimelineButton::Delete => match s.selected_keyframe {
            Some(at) => (
                VertexTimeline { selected_keyframe: None, ..s },
                TimelineOutcome::RemoveKeyframe { at_ms: at },
            ),
            None => (s, TimelineOutcome::Consumed),
        },
    }
}

/// What a keyboard event does on the timeline: Escape closes, Delete
/// removes the selected keyframe, the arrows step by 50 ms, Home and End
/// jump to the ends, Page Up and Page Down to the neighbouring keyframes,
/// Enter stores a keyframe at the playhead.
pub open spec fn timeline_key_step(
    s: VertexTimeline,
    event: UiEvent,
    keyframes: Seq<u64>,
    duration: u64,
) -> (VertexTimeline, TimelineOutcome) {
    let p = s.playhead_ms;
    match event {
        UiEvent::KeyInput { text } => if text@ == "\x1b"@ {
            (s, TimelineOutcome::Close)
        } else if text@ == "\x7f"@ {
            button_step(s, TimelineButton::Delete, keyframes, duration)
        } else if text@ == "\r"@ || text@ == "\n"@ {
            button_step(s, TimelineButton::Add, keyframes, duration)
        } else {
            (s, TimelineOutcome::Consumed)
        },
        UiEvent::Delete => button_step(s, TimelineButton::Delete, keyframes, duration),
        UiEvent::CursorLeft => (
            moved_to(
                if p >= TIMELINE_ARROW_STEP_MS { (p - TIMELINE_ARROW_STEP_MS) as u64 } else { 0 },
                keyframes,
                duration,
            ),
            TimelineOutcome::Consumed,
        ),
        UiEvent::CursorRight => (
            moved_to(
                min_u64(
                    if p + TIMELINE_ARROW_STEP_MS > u64::MAX {
                        u64::MAX
                    } else {
                        (p + TIMELINE_ARROW_STEP_MS) as u64
                    },
                    duration,
                ),
                keyframes,
                duration,
            ),
            TimelineOutcome::Consumed,
        ),
        UiEvent::Home => (moved_to(0, keyframes, duration), TimelineOutcome::Consumed),
        UiEvent::End => (moved_to(duration, keyframes, duration), TimelineOutcome::Consumed),
        UiEvent::PageUp => button_step(s, TimelineButton::Previous, keyframes, duration),
        UiEvent::PageDown => button_step(s, TimelineButton::Next, keyframes, duration),
        _ => (s, TimelineOutcome::Consumed),
    }
}

impl VertexTimeline {
    /// A timeline with the playhead at the start, nothing selected, stopped.
    pub fn new() -> (r: Self)
        ensures
            r.playhead_ms == 0,
            r.selected_keyframe is None,
            r.playing_from is None,
    {
        VertexTimeline { playhead_ms: 0, selected_keyframe: None, playing_from: None }
    }

    /// Whether a preview is running.
    pub fn is_playing(&self) -> (r: bool)
        ensures
            r == self.playing_from is Some,
    {
        self.playing_from.is_some()
    }

    /// Moves the playhead to `at_ms`, clamped to `duration_ms`; selects the
    /// keyframe there, if any, and stops a preview.
    pub fn set_playhead(&mut self, at_ms: u64, keyframes: &Vec<u64>, duration_ms: u64)
        ensures
            *final(self) == moved_to(at_ms, keyframes@, duration_ms),
    {
        let p = if at_ms <= duration_ms { at_ms } else { duration_ms };
        self.playhead_ms = p;
        self.selected_keyframe = find_keyframe(keyframes, p);
        self.playing_from = None;
    }

    /// Starts or stops the preview. The caller starts its clock when this
    /// leaves a preview running.
    pub fn toggle_preview(&mut self, duration_ms: u64)
        ensures
            *final(self) == preview_toggled(*old(self), duration_ms),
    {
        if self.playing_from.is_some() {
            self.playing_from = None;
        } else {
            if self.playhead_ms >= duration_ms {
                self.playhead_ms = 0;
            }
            self.playing_from = Some(self.playhead_ms);
        }
    }

    /// Follows a running preview `elapsed_ms` after it started.
    pub fn advance(&mut self, elapsed_ms: u64, keyframes: &Vec<u64>, duration_ms: u64)
        ensures
            *final(self) == advanced(*old(self), elapsed_ms, keyframes@, duration_ms),
    {
        if let Some(from) = self.playing_from {
            let reached = from.saturating_add(elapsed_ms);
            let p = if reached <= duration_ms { reached } else { duration_ms };
            self.playhead_ms = p;
            if p >= duration_ms {
                self.playing_from = None;
            }
            self.selected_keyframe = find_keyframe(keyframes, p);
        }
    }

    /// Moves the playhead by `delta_ms` (negative: backwards).
    pub fn nudge(&mut self, delta_ms: i64, keyframes: &Vec<u64>, duration_ms: u64)
        ensures
            *final(self) == moved_to(
                nudged_instant(old(self).playhead_ms, delta_ms),
                keyframes@,
                duration_ms,
            ),
    {
        let p = self.playhead_ms;
        let target = if delta_ms >= 0 {
            p.saturating_add(delta_ms as u64)
        } else {
            let back: u64 = if delta_ms == i64::MIN {
                9_223_372_036_854_775_808u64
            } else {
                (0 - delta_ms) as u64
            };
            p.saturating_sub(back)
        };
        self.set_playhead(target, keyframes, duration_ms);
    }

    /// Applies a transport button.
    pub fn press(&mut self, button: TimelineButton, keyframes: &Vec<u64>, duration_ms: u64) -> (r:
        TimelineOutcome)
        ensures
            (*final(self), r) == button_step(*old(self), button, keyframes@, duration_ms),
    {
        match button {
            TimelineButton::Close => TimelineOutcome::Close,
            TimelineButton::Previous => {
                let at = previous_keyframe_at(keyframes, self.playhead_ms);
                self.set_playhead(at, keyframes, duration_ms);
                TimelineOutcome::Consumed
            },
            TimelineButton::Next => {
                let at = next_keyframe_at(keyframes, self.playhead_ms, duration_ms);
                self.set_playhead(at, keyframes, duration_ms);
                TimelineOutcome::Consumed
            },
            TimelineButton::Play => {
                self.toggle_preview(duration_ms);
                TimelineOutcome::Consumed
            },
            TimelineButton::Add => {
                self.selected_keyframe = Some(self.playhead_ms);
                TimelineOutcome::SetKeyframe { at_ms: self.playhead_ms }
            },
            TimelineButton::Delete => match self.selected_keyframe {
                Some(at) => {
                    self.selected_keyframe = None;
                    TimelineOutcome::RemoveKeyframe { at_ms: at }
                },
                None => TimelineOutcome::Consumed,
            },
        }
    }

    /// Applies a keyboard event.
    pub fn handle_key(&mut self, event: &UiEvent, keyframes: &Vec<u64>, duration_ms: u64) -> (r:
        TimelineOutcome)
        ensures
            (*final(self), r) == timeline_key_step(*old(self), *event, keyframes@, duration_ms),
    {
        match event {
            UiEvent::KeyInput { text } => {
                if crate::event::key_is(text, "\x1b") {
                    TimelineOutcome::Close
                } else if crate::event::key_is(text, "\x7f") {
                    self.press(TimelineButton::Delete, keyframes, duration_ms)
                } else if crate::event::key_is(text, "\r") || crate::event::key_is(text, "\n") {
                    self.press(TimelineButton::Add, keyframes, duration_ms)
                } else {
                    TimelineOutcome::Consumed
                }
            },
            UiEvent::Delete => self.press(TimelineButton::Delete, keyframes, duration_ms),
            UiEvent::CursorLeft => {
                let p = self.playhead_ms;
                let at = if p >= TIMELINE_ARROW_STEP_MS { p - TIMELINE_ARROW_STEP_MS } else { 0 };
                self.set_playhead(at, keyframes, duration_ms);
                TimelineOutcome::Consumed
            },
            UiEvent::CursorRight => {
                let reached = self.playhead_ms.saturating_add(TIMELINE_ARROW_STEP_MS);
                let at = if reached <= duration_ms { reached } else { duration_ms };
                self.set_playhead(at, keyframes, duration_ms);
                TimelineOutcome::Consumed
            },
            UiEvent::Home => {
                self.set_playhead(0, keyframes, duration_ms);
                TimelineOutcome::Consumed
            },
            UiEvent::End => {
                self.set_playhead(duration_ms, keyframes, duration_ms);
                TimelineOutcome::Consumed
            },
            UiEvent::PageUp => self.press(TimelineButton::Previous, keyframes, duration_ms),
            UiEvent::PageDown => self.press(TimelineButton::Next, keyframes, duration_ms),
            _ => TimelineOutcome::Consumed,
        }
    }
}

/// Every timeline operation keeps the playhead within the span: a playhead
/// at or before the end stays at or before the end after any key, button or
/// clock tick.
pub proof fn lemma_playhead_stays_within_span(
    s: VertexTimeline,
    event: UiEvent,
    button: TimelineButton,
    elapsed_ms: u64,
    keyframes: Seq<u64>,
    duration: u64,
)
    requires
        s.playhead_ms <= duration,
    ensures
        timeline_key_step(s, event, keyframes, duration).0.playhead_ms <= duration,
        button_step(s, button, keyframes, duration).0.playhead_ms <= duration,
        advanced(s, elapsed_ms, keyframes, duration).playhead_ms <= duration,
        preview_toggled(s, duration).playhead_ms <= duration,
{
}

/// Stepping back with the left arrow and forward with the right arrow
/// returns the playhead to where it was, away from the ends.
pub proof fn lemma_arrows_undo_each_other(
    s: VertexTimeline,
    left: UiEvent,
    right: UiEvent,
    keyframes: Seq<u64>,
    duration: u64,
)
    requires
        left == UiEvent::CursorLeft,
        right == UiEvent::CursorRight,
        TIMELINE_ARROW_STEP_MS <= s.playhead_ms,
        s.playhead_ms + TIMELINE_ARROW_STEP_MS <= duration,
    ensures
        ({
            let back = timeline_key_step(s, left, keyframes, duration).0;
            let forth = timeline_key_step(back, right, keyframes, duration).0;
            &&& back.playhead_ms == s.playhead_ms - TIMELINE_ARROW_STEP_MS
            &&& forth.playhead_ms == s.playhead_ms
            &&& forth.selected_keyframe == keyframe_at(keyframes, s.playhead_ms)
        }),
{
}

/// The next keyframe is one of the keyframes, or the end.
pub proof fn lemma_next_keyframe_is_a_keyframe_or_end(keyframes: Seq<u64>, playhead: u64, end: u64)
    ensures
        keyframes.contains(next_keyframe(keyframes, playhead, end)) || next_keyframe(
            keyframes,
            playhead,
            end,
        ) == end,
        next_keyframe(keyframes, playhead, end) != end ==> next_keyframe(keyframes, playhead, end)
            > playhead,
    decreases keyframes.len(),
{
    if keyframes.len() > 0 && !(keyframes[0] > playhead) {
        lemma_next_keyframe_is_a_keyframe_or_end(keyframes.drop_first(), playhead, end);
        let r = next_keyframe(keyframes.drop_first(), playhead, end);
        if keyframes.drop_first().contains(r) {
            let j = choose|j: int| 0 <= j < keyframes.drop_first().len() && keyframes.drop_first()[j] == r;
            assert(keyframes[j + 1] == r);
        }
    }
}

/// Page Down puts the playhead on the first keyframe after it (when that
/// keyframe lies within the span), and otherwise at the end; the keyframe
/// it lands on becomes selected.
pub proof fn lemma_page_down_lands_on_a_keyframe_or_the_end(
    s: VertexTimeline,
    event: UiEvent,
    keyframes: Seq<u64>,
    duration: u64,
)
    requires
        event == UiEvent::PageDown,
    ensures
        ({
            let t = timeline_key_step(s, event, keyframes, duration).0;
            &&& (keyframes.contains(t.playhead_ms) && t.selected_keyframe == Some(t.playhead_ms)
                && t.playhead_ms > s.playhead_ms) || t.playhead_ms == duration
            &&& t.playing_from is None
        }),
{
    lemma_next_keyframe_is_a_keyframe_or_end(keyframes, s.playhead_ms, duration);
}

/// `n` in decimal, left-padded with zeros to at least `width` digits.
pub open spec fn zero_padded(n: nat, width: nat) -> Seq<char> {
    let d = decimal(n);
    if d.len() >= width {
        d
    } else {
        Seq::new((width - d.len()) as nat, |i: int| '0') + d
    }
}

/// Clock label `m:ss.mmm` of an instant given in milliseconds.
pub open spec fn time_label(ms: nat) -> Seq<char> {
    decimal(ms / 60_000) + seq![':'] + zero_padded((ms / 1000) % 60, 2) + seq!['.']
        + zero_padded(ms % 1000, 3)
}

proof fn lemma_decimal_len(n: nat)
    ensures
        n < 10 ==> decimal(n).len() == 1,
        10 <= n < 100 ==> decimal(n).len() == 2,
        100 <= n < 1000 ==> decimal(n).len() == 3,
{
    reveal_with_fuel(decimal, 3);
}

/// Clock label `m:ss.mmm` of `at_ms` milliseconds.
pub fn format_time_ms(at_ms: u64) -> (r: String)
    ensures
        r@ == time_label(at_ms as nat),
{
    let mut s = String::new();
    push_decimal(&mut s, at_ms / 60_000);
    push_char(&mut s, ':');
    let seconds = at_ms / 1000 % 60;
    proof {
        lemma_decimal_len(seconds as nat);
    }
    let ghost before_seconds = s@;
    if seconds < 10 {
        push_char(&mut s, '0');
    }
    push_decimal(&mut s, seconds);
    assert(s@ =~= before_seconds + zero_padded(seconds as nat, 2));
    push_char(&mut s, '.');
    let millis = at_ms % 1000;
    proof {
        lemma_decimal_len(millis as nat);
    }
    let ghost before_millis = s@;
    if millis < 10 {
        push_char(&mut s, '0');
        push_char(&mut s, '0');
    } else if millis < 100 {
        push_char(&mut s, '0');
    }
    push_decimal(&mut s, millis);
    assert(s@ =~= before_millis + zero_padded(millis as nat, 3));
    assert(s@ =~= time_label(at_ms as nat));
    s
}

/// Direction of a wheel turn over the media list.
#[derive(Clone, Copy, Debug, PartialEq, Eq, Structural)]
pub enum ScrollDirection {
    /// Towards the top of the list.
    Up,
    /// Towards the bottom of the list.
    Down,
    /// No vertical movement.
    Still,
}

/// First visible row after one wheel notch: one row up or down, never
/// before the first row nor past `max`.
pub open spec fn scrolled_row(current: usize, direction: ScrollDirection, max: usize) -> usize {
    match direction {
        ScrollDirection::Up => if current >= 1 { (current - 1) as usize } else { 0 },
        ScrollDirection::Down => {
            let down = if current < usize::MAX { (current + 1) as usize } else { usize::MAX };
            if down <= max { down } else { max }
        },
        ScrollDirection::Still => current,
    }
}

/// First visible row of the media list after one wheel notch.
pub fn scroll_rows(current: usize, direction: ScrollDirection, max: usize) -> (r: usize)
    ensures
        r == scrolled_row(current, direction, max),
{
    match direction {
        ScrollDirection::Up => current.saturating_sub(1),
        ScrollDirection::Down => {
            let down = current.saturating_add(1);
            if down <= max { down } else { max }
        },
        ScrollDirection::Still => current,
    }
}

/// Reading `s` from the start: the words completed so far and the word
/// being read. A word is a maximal run of characters that are not white
/// space.
pub open spec fn split_state(s: Seq<char>) -> (Seq<Seq<char>>, Seq<char>)
    decreases s.len(),
{
    if s.len() == 0 {
        (Seq::empty(), Seq::empty())
    } else {
        let st = split_state(s.drop_last());
        let c = s.last();
        if is_white_space(c) {
            if st.1.len() > 0 {
                (st.0.push(st.1), Seq::empty())
            } else {
                st
            }
        } else {
            (st.0, st.1.push(c))
        }
    }
}

/// The white-space separated words of `s`, in order (what
/// `str::split_whitespace` yields).
pub open spec fn words_of(s: Seq<char>) -> Seq<Seq<char>> {
    let st = split_state(s);
    if st.1.len() > 0 {
        st.0.push(st.1)
    } else {
        st.0
    }
}

/// `lines` with `current` appended as a last line when it is not empty.
pub open spec fn flushed(lines: Seq<Seq<char>>, current: Seq<char>) -> Seq<Seq<char>> {
    if current.len() > 0 {
        lines.push(current)
    } else {
        lines
    }
}

/// A word longer than a line cut into full lines of `max` characters; the
/// shorter rest (possibly empty) starts the next line.
pub open spec fn chunked(lines: Seq<Seq<char>>, word: Seq<char>, max: nat) -> (
    Seq<Seq<char>>,
    Seq<char>,
)
    decreases word.len(),
{
    if max == 0 || word.len() < max {
        (lines, word)
    } else {
        chunked(lines.push(word.take(max as int)), word.skip(max as int), max)
    }
}

/// Greedy placement of one word, given the finished lines and the line
/// being filled: a word longer than a line is cut; a word that does not fit
/// after the current line's text, with one space between, starts a new line.
pub open spec fn place_word(st: (Seq<Seq<char>>, Seq<char>), word: Seq<char>, max: nat) -> (
    Seq<Seq<char>>,
    Seq<char>,
) {
    let (lines, current) = st;
    if word.len() > max {
        chunked(flushed(lines, current), word, max)
    } else if current.len() > 0 && current.len() + 1 + word.len() > max {
        (lines.push(current), word)
    } else if current.len() > 0 {
        (lines, current.push(' ') + word)
    } else {
        (lines, word)
    }
}

/// Greedy placement of the words in order.
pub open spec fn place_words(words: Seq<Seq<char>>, max: nat) -> (Seq<Seq<char>>, Seq<char>)
    decreases words.len(),
{
    if words.len() == 0 {
        (Seq::empty(), Seq::empty())
    } else {
        place_word(place_words(words.drop_last(), max), words.last(), max)
    }
}

/// The lines of `text` wrapped to at most `max` characters per line; a text
/// without words gives one empty line.
pub open spec fn wrapped(text: Seq<char>, max: nat) -> Seq<Seq<char>> {
    let st = place_words(words_of(text), max);
    let lines = flushed(st.0, st.1);
    if lines.len() == 0 {
        seq![Seq::empty()]
    } else {
        lines
    }
}

/// The characters of each line.
pub open spec fn line_views(lines: Seq<String>) -> Seq<Seq<char>> {
    lines.map_values(|l: String| l@)
}

fn push_line(lines: &mut Vec<String>, chars: &Vec<char>, from: usize, to: usize)
    requires
        from <= to <= chars@.len(),
    ensures
        line_views(final(lines)@) == line_views(old(lines)@).push(
            chars@.subrange(from as int, to as int),
        ),
{
    let line = string_from(chars, from, to);
    lines.push(line);
    assert(line_views(lines@) =~= line_views(old(lines)@).push(
        chars@.subrange(from as int, to as int),
    ));
}

fn copy_from(chars: &Vec<char>, from: usize) -> (r: Vec<char>)
    requires
        from <= chars@.len(),
    ensures
        r@ == chars@.skip(from as int),
{
    let mut out: Vec<char> = Vec::new();
    let mut i = from;
    while i < chars.len()
        invariant
            from <= i <= chars@.len(),
            out@ == chars@.subrange(from as int, i as int),
        decreases chars@.len() - i,
    {
        out.push(chars[i]);
        i = i + 1;
        assert(out@ =~= chars@.subrange(from as int, i as int));
    }
    assert(out@ =~= chars@.skip(from as int));
    out
}

fn place_word_into(lines: &mut Vec<String>, current: &mut Vec<char>, word: &Vec<char>, max: usize)
    ensures
        (line_views(final(lines)@), final(current)@) == place_word(
            (line_views(old(lines)@), old(current)@),
            word@,
            max as nat,
        ),
{
    if word.len() > max {
        if current.len() > 0 {
            push_line(lines, current, 0, current.len());
            assert(current@.subrange(0, current@.len() as int) =~= current@);
        }
        let ghost start = line_views(lines@);
        assert(start == flushed(line_views(old(lines)@), old(current)@));
        if max == 0 {
            *current = copy_from(word, 0);
            assert(word@.skip(0) =~= word@);
            return;
        }
        let mut k: usize = 0;
        assert(word@.skip(0) =~= word@);
        while word.len() - k >= max
            invariant
                k <= word@.len(),
                max >= 1,
                chunked(start, word@, max as nat) == chunked(
                    line_views(lines@),
                    word@.skip(k as int),
                    max as nat,
                ),
            decreases word@.len() - k,
        {
            assert(word@.skip(k as int).take(max as int) =~= word@.subrange(
                k as int,
                k + max,
            ));
            assert(word@.skip(k as int).skip(max as int) =~= word@.skip(k + max));
            push_line(lines, word, k, k + max);
            k = k + max;
        }
        *current = copy_from(word, k);
    } else if current.len() > 0 && current.len() >= max - word.len() {
        push_line(lines, current, 0, current.len());
        assert(current@.subrange(0, current@.len() as int) =~= current@);
        *current = copy_from(word, 0);
        assert(word@.skip(0) =~= word@);
    } else if current.len() > 0 {
        current.push(' ');
        let mut i: usize = 0;
        let ghost base = current@;
        while i < word.len()
            invariant
                i <= word@.len(),
                current@ == base + word@.take(i as int),
            decreases word@.len() - i,
        {
            current.push(word[i]);
            i = i + 1;
            assert(current@ =~= base + word@.take(i as int));
        }
        assert(word@.take(word@.len() as int) =~= word@);
    } else {
        *current = copy_from(word, 0);
        assert(word@.skip(0) =~= word@);
    }
}

/// Wraps `text` into lines of at most `max_chars` characters, breaking at
/// white space and cutting words longer than a line. Words are separated by
/// one space; a text without words gives one empty line.
pub fn wrap_text(text: &str, max_chars: usize) -> (r: Vec<String>)
    requires
        max_chars >= 1 || words_of(text@).len() == 0,
    ensures
        line_views(r@) == wrapped(text@, max_chars as nat),
        (line_views(r@) == seq![Seq::<char>::empty()]) <==> is_blank_text(text@),
{
    proof {
        if max_chars >= 1 {
            lemma_wrapped_empty_iff_blank(text@, max_chars as nat);
        } else {
            lemma_no_words_iff_blank(text@);
            assert(place_words(words_of(text@), 0) == (
                Seq::<Seq<char>>::empty(),
                Seq::<char>::empty(),
            ));
        }
    }
    let chars = chars_of(text);
    let mut lines: Vec<String> = Vec::new();
    let mut current: Vec<char> = Vec::new();
    let mut word: Vec<char> = Vec::new();
    let ghost mut done: Seq<Seq<char>> = Seq::empty();
    let mut i: usize = 0;
    while i < chars.len()
        invariant
            i <= chars@.len(),
            split_state(chars@.take(i as int)) == (done, word@),
            place_words(done, max_chars as nat) == (line_views(lines@), current@),
        decreases chars@.len() - i,
    {
        let c = chars[i];
        assert(chars@.take(i + 1).drop_last() =~= chars@.take(i as int));
        assert(chars@.take(i + 1).last() == c);
        if crate::text::char_is_white_space(c) {
            if word.len() > 0 {
                place_word_into(&mut lines, &mut current, &word, max_chars);
                proof {
                    assert(done.push(word@).drop_last() =~= done);
                    done = done.push(word@);
                }
                word = Vec::new();
            }
        } else {
            word.push(c);
        }
        i = i + 1;
    }
    assert(chars@.take(chars@.len() as int) =~= text@);
    if word.len() > 0 {
        place_word_into(&mut lines, &mut current, &word, max_chars);
        assert(done.push(word@).drop_last() =~= done);
    }
    if current.len() > 0 {
        push_line(&mut lines, &current, 0, current.len());
        assert(current@.subrange(0, current@.len() as int) =~= current@);
    }
    if lines.len() == 0 {
        lines.push(String::new());
        assert(line_views(lines@) =~= seq![Seq::<char>::empty()]);
    }
    lines
}

/// Every line holds between 1 and `max` characters.
pub open spec fn lines_fit(lines: Seq<Seq<char>>, max: nat) -> bool {
    forall|i: int| 0 <= i < lines.len() ==> 0 < #[trigger] lines[i].len() <= max
}

proof fn lemma_chunked_fits(lines: Seq<Seq<char>>, word: Seq<char>, max: nat)
    requires
        max >= 1,
        lines_fit(lines, max),
    ensures
        lines_fit(chunked(lines, word, max).0, max),
        chunked(lines, word, max).1.len() < max,
    decreases word.len(),
{
    if word.len() >= max {
        let next = lines.push(word.take(max as int));
        assert(lines_fit(next, max)) by {
            assert forall|i: int| 0 <= i < next.len() implies 0 < #[trigger] next[i].len() <= max by {
                if i < lines.len() {
                    assert(next[i] == lines[i]);
                }
            }
        }
        lemma_chunked_fits(next, word.skip(max as int), max);
    }
}

proof fn lemma_place_word_fits(st: (Seq<Seq<char>>, Seq<char>), word: Seq<char>, max: nat)
    requires
        max >= 1,
        lines_fit(st.0, max),
        st.1.len() <= max,
    ensures
        lines_fit(place_word(st, word, max).0, max),
        place_word(st, word, max).1.len() <= max,
{
    let (lines, current) = st;
    if current.len() > 0 {
        let pushed = lines.push(current);
        assert(lines_fit(pushed, max)) by {
            assert forall|i: int| 0 <= i < pushed.len() implies 0 < #[trigger] pushed[i].len() <= max by {
                if i < lines.len() {
                    assert(pushed[i] == lines[i]);
                }
            }
        }
    }
    if word.len() > max {
        lemma_chunked_fits(flushed(lines, current), word, max);
    }
}

proof fn lemma_place_words_fit(words: Seq<Seq<char>>, max: nat)
    requires
        max >= 1,
    ensures
        lines_fit(place_words(words, max).0, max),
        place_words(words, max).1.len() <= max,
    decreases words.len(),
{
    if words.len() > 0 {
        lemma_place_words_fit(words.drop_last(), max);
        lemma_place_word_fits(place_words(words.drop_last(), max), words.last(), max);
    }
}

/// Wrapped lines never exceed the line width, and no line is empty except
/// the single empty line of a text without words.
pub proof fn lemma_wrapped_lines_fit(text: Seq<char>, max: nat)
    requires
        max >= 1,
    ensures
        wrapped(text, max).len() >= 1,
        forall|i: int|
            0 <= i < wrapped(text, max).len() ==> #[trigger] wrapped(text, max)[i].len() <= max,
        lines_fit(wrapped(text, max), max) || wrapped(text, max) == seq![Seq::<char>::empty()],
{
    let st = place_words(words_of(text), max);
    lemma_place_words_fit(words_of(text), max);
    let lines = flushed(st.0, st.1);
    if st.1.len() > 0 {
        assert(lines_fit(lines, max)) by {
            assert forall|i: int| 0 <= i < lines.len() implies 0 < #[trigger] lines[i].len() <= max by {
                if i < st.0.len() {
                    assert(lines[i] == st.0[i]);
                }
            }
        }
    }
    if lines.len() == 0 {
        assert(wrapped(text, max)[0].len() == 0);
    }
}

/// The characters of `s` that are not white space, in order.
pub open spec fn letters(s: Seq<char>) -> Seq<char>
    decreases s.len(),
{
    if s.len() == 0 {
        Seq::empty()
    } else if is_white_space(s.last()) {
        letters(s.drop_last())
    } else {
        letters(s.drop_last()).push(s.last())
    }
}

/// `s` holds no white space.
pub open spec fn no_white_space(s: Seq<char>) -> bool {
    forall|i: int| 0 <= i < s.len() ==> !is_white_space(#[trigger] s[i])
}

proof fn lemma_letters_concat(a: Seq<char>, b: Seq<char>)
    ensures
        letters(a + b) == letters(a) + letters(b),
    decreases b.len(),
{
    if b.len() == 0 {
        assert(a + b =~= a);
        assert(letters(a) + letters(b) =~= letters(a));
    } else {
        lemma_letters_concat(a, b.drop_last());
        assert((a + b).drop_last() =~= a + b.drop_last());
        assert((a + b).last() == b.last());
        assert(letters(a) + letters(b.drop_last()).push(b.last()) =~= (letters(a) + letters(
            b.drop_last(),
        )).push(b.last()));
    }
}

proof fn lemma_letters_of_word(w: Seq<char>)
    requires
        no_white_space(w),
    ensures
        letters(w) == w,
    decreases w.len(),
{
    if w.len() > 0 {
        assert(no_white_space(w.drop_last())) by {
            assert forall|i: int| 0 <= i < w.drop_last().len() implies !is_white_space(
                #[trigger] w.drop_last()[i],
            ) by {
                assert(w.drop_last()[i] == w[i]);
            }
        }
        lemma_letters_of_word(w.drop_last());
        assert(!is_white_space(w[w.len() - 1]));
        assert(w.drop_last().push(w.last()) =~= w);
    }
}

proof fn lemma_flatten_alt_push(x: Seq<Seq<char>>, y: Seq<char>)
    ensures
        x.push(y).flatten_alt() == x.flatten_alt() + y,
{
    assert(x.push(y).drop_last() =~= x);
}

/// Reading a text splits it into words without white space that hold all
/// its other characters.
proof fn lemma_split_keeps_letters(s: Seq<char>)
    ensures
        letters(s) == split_state(s).0.flatten_alt() + split_state(s).1,
        forall|i: int|
            0 <= i < split_state(s).0.len() ==> no_white_space(#[trigger] split_state(s).0[i]),
        no_white_space(split_state(s).1),
    decreases s.len(),
{
    if s.len() == 0 {
        assert(Seq::<Seq<char>>::empty().flatten_alt() + Seq::<char>::empty() =~= Seq::<
            char,
        >::empty());
    } else {
        let prev = s.drop_last();
        lemma_split_keeps_letters(prev);
        let st = split_state(prev);
        let c = s.last();
        if is_white_space(c) {
            if st.1.len() > 0 {
                lemma_flatten_alt_push(st.0, st.1);
                assert(st.0.flatten_alt() + st.1 + Seq::<char>::empty() =~= st.0.flatten_alt()
                    + st.1);
                let pushed = st.0.push(st.1);
                assert forall|i: int| 0 <= i < pushed.len() implies no_white_space(
                    #[trigger] pushed[i],
                ) by {
                    if i < st.0.len() {
                        assert(pushed[i] == st.0[i]);
                    }
                }
            }
        } else {
            assert(st.0.flatten_alt() + st.1.push(c) =~= (st.0.flatten_alt() + st.1).push(c));
            assert forall|i: int| 0 <= i < st.1.push(c).len() implies !is_white_space(
                #[trigger] st.1.push(c)[i],
            ) by {
                if i < st.1.len() {
                    assert(st.1.push(c)[i] == st.1[i]);
                }
            }
        }
    }
}

proof fn lemma_words_keep_letters(s: Seq<char>)
    ensures
        letters(s) == words_of(s).flatten_alt(),
        forall|i: int| 0 <= i < words_of(s).len() ==> no_white_space(#[trigger] words_of(s)[i]),
{
    lemma_split_keeps_letters(s);
    let st = split_state(s);
    if st.1.len() > 0 {
        lemma_flatten_alt_push(st.0, st.1);
        assert forall|i: int| 0 <= i < words_of(s).len() implies no_white_space(
            #[trigger] words_of(s)[i],
        ) by {
            if i < st.0.len() {
                assert(words_of(s)[i] == st.0[i]);
            }
        }
    } else {
        assert(st.0.flatten_alt() + st.1 =~= st.0.flatten_alt());
    }
}

proof fn lemma_chunked_keeps_text(lines: Seq<Seq<char>>, word: Seq<char>, max: nat)
    ensures
        chunked(lines, word, max).0.flatten_alt() + chunked(lines, word, max).1
            == lines.flatten_alt() + word,
    decreases word.len(),
{
    if !(max == 0 || word.len() < max) {
        let next = lines.push(word.take(max as int));
        lemma_chunked_keeps_text(next, word.skip(max as int), max);
        lemma_flatten_alt_push(lines, word.take(max as int));
        assert(lines.flatten_alt() + word.take(max as int) + word.skip(max as int)
            =~= lines.flatten_alt() + word);
    }
}

proof fn lemma_flushed_keeps_text(lines: Seq<Seq<char>>, current: Seq<char>)
    ensures
        flushed(lines, current).flatten_alt() == lines.flatten_alt() + current,
{
    if current.len() > 0 {
        lemma_flatten_alt_push(lines, current);
    } else {
        assert(lines.flatten_alt() + current =~= lines.flatten_alt());
    }
}

proof fn lemma_place_word_keeps_letters(st: (Seq<Seq<char>>, Seq<char>), word: Seq<char>, max: nat)
    requires
        no_white_space(word),
    ensures
        letters(place_word(st, word, max).0.flatten_alt() + place_word(st, word, max).1)
            == letters(st.0.flatten_alt() + st.1) + word,
{
    let (lines, current) = st;
    let before = lines.flatten_alt() + current;
    lemma_letters_of_word(word);
    lemma_letters_concat(before, word);
    if word.len() > max {
        lemma_chunked_keeps_text(flushed(lines, current), word, max);
        lemma_flushed_keeps_text(lines, current);
    } else if current.len() > 0 && current.len() + 1 + word.len() > max {
        lemma_flatten_alt_push(lines, current);
    } else if current.len() > 0 {
        let spaced = seq![' '];
        assert(lines.flatten_alt() + (current.push(' ') + word) =~= before + spaced + word);
        lemma_letters_concat(before + spaced, word);
        lemma_letters_concat(before, spaced);
        assert(spaced.drop_last() =~= Seq::<char>::empty());
        assert(spaced.last() == ' ');
        assert(is_white_space(' '));
        assert(letters(spaced) == letters(Seq::<char>::empty()));
        assert(letters(spaced) =~= Seq::<char>::empty());
        assert(letters(before) + letters(spaced) =~= letters(before));
    } else {
        assert(before =~= lines.flatten_alt());
    }
}

proof fn lemma_place_words_keep_letters(words: Seq<Seq<char>>, max: nat)
    requires
        forall|i: int| 0 <= i < words.len() ==> no_white_space(#[trigger] words[i]),
    ensures
        letters(place_words(words, max).0.flatten_alt() + place_words(words, max).1)
            == words.flatten_alt(),
    decreases words.len(),
{
    if words.len() == 0 {
        assert(Seq::<Seq<char>>::empty().flatten_alt() + Seq::<char>::empty() =~= Seq::<
            char,
        >::empty());
    } else {
        let rest = words.drop_last();
        assert forall|i: int| 0 <= i < rest.len() implies no_white_space(#[trigger] rest[i]) by {
            assert(rest[i] == words[i]);
        }
        lemma_place_words_keep_letters(rest, max);
        assert(no_white_space(words[words.len() - 1]));
        lemma_place_word_keeps_letters(place_words(rest, max), words.last(), max);
    }
}

/// Wrapping loses no character and adds none but spaces: the lines, read
/// one after another, hold the text's non-space characters in order.
pub proof fn lemma_wrapping_keeps_the_text(text: Seq<char>, max: nat)
    ensures
        letters(wrapped(text, max).flatten()) == letters(text),
{
    lemma_words_keep_letters(text);
    lemma_place_words_keep_letters(words_of(text), max);
    let st = place_words(words_of(text), max);
    lemma_flushed_keeps_text(st.0, st.1);
    let lines = flushed(st.0, st.1);
    wrapped(text, max).lemma_flatten_and_flatten_alt_are_equivalent();
    if lines.len() == 0 {
        let w = wrapped(text, max);
        assert(w == seq![Seq::<char>::empty()]);
        assert(w.len() == 1);
        assert(w.last() =~= Seq::<char>::empty());
        assert(w.drop_last() =~= Seq::<Seq<char>>::empty());
        assert(w.drop_last().flatten_alt() =~= Seq::<char>::empty());
        assert(w.flatten_alt() =~= Seq::<char>::empty());
    }
}

/// Name for the number of extended grapheme clusters of a text, as
/// `unicode_segmentation` segments it (Unicode UAX #29).
pub uninterp spec fn extended_grapheme_count(s: Seq<char>) -> nat;

/// `UnicodeSegmentation::graphemes(s, true).count()` of `unicode_segmentation`.
/// The iterator hands out non-empty consecutive slices that cover the text,
/// so there are at most as many clusters as characters, and none exactly
/// for the empty text. Where the UAX #29 rules draw the boundaries is not
/// restated here.
#[verifier::external_body]
fn grapheme_count(s: &str) -> (r: usize)
    ensures
        r == extended_grapheme_count(s@),
        r <= s@.len(),
        (r == 0) == (s@.len() == 0),
{
    s.graphemes(true).count()
}

/// Letter-spacing gaps between `clusters` visible characters.
pub fn gaps_between(clusters: usize) -> (r: usize)
    ensures
        r == if clusters == 0 { 0 } else { clusters - 1 },
{
    clusters.saturating_sub(1)
}

/// Number of letter-spacing gaps in a line of bubble text: one fewer than
/// its grapheme clusters, none for an empty line.
pub fn letter_gaps(line: &str) -> (r: usize)
    ensures
        r == if extended_grapheme_count(line@) == 0 {
            0
        } else {
            (extended_grapheme_count(line@) - 1) as nat
        },
        r < line@.len() || line@.len() == 0,
{
    gaps_between(grapheme_count(line))
}

/// The rest of `s` after `prefix`, when `s` starts with it.
pub open spec fn after_prefix(s: Seq<char>, prefix: Seq<char>) -> Option<Seq<char>> {
    if prefix.len() <= s.len() && s.take(prefix.len() as int) == prefix {
        Some(s.skip(prefix.len() as int))
    } else {
        None
    }
}

/// What `str::parse::<u64>` yields: an optional `+`, then at least one
/// ASCII digit, the value fitting in 64 bits.
pub open spec fn parsed_u64(s: Seq<char>) -> Option<u64> {
    let body = if s.len() > 0 && s[0] == '+' {
        s.drop_first()
    } else {
        s
    };
    if body.len() > 0 && all_digits(body) && digits_value(body) <= u64::MAX {
        Some(digits_value(body) as u64)
    } else {
        None
    }
}

/// The number written after `prefix` in `s`.
pub open spec fn number_after(s: Seq<char>, prefix: Seq<char>) -> Option<u64> {
    match after_prefix(s, prefix) {
        Some(rest) => parsed_u64(rest),
        None => None,
    }
}

/// Whether `s` starts with `prefix`.
fn starts_with(s: &str, prefix: &str) -> (r: bool)
    ensures
        r == (prefix@.len() <= s@.len() && s@.take(prefix@.len() as int) == prefix@),
{
    let n = s.unicode_len();
    let m = prefix.unicode_len();
    if m > n {
        return false;
    }
    let mut i: usize = 0;
    while i < m
        invariant
            n == s@.len(),
            m == prefix@.len(),
            m <= n,
            i <= m,
            s@.take(i as int) == prefix@.take(i as int),
        decreases m - i,
    {
        if s.get_char(i) != prefix.get_char(i) {
            assert(s@.take(m as int)[i as int] != prefix@[i as int]);
            return false;
        }
        assert(s@.take(i + 1) =~= s@.take(i as int).push(s@[i as int]));
        assert(prefix@.take(i + 1) =~= prefix@.take(i as int).push(prefix@[i as int]));
        i = i + 1;
    }
    assert(prefix@.take(m as int) =~= prefix@);
    true
}

/// The number written in `s` from character `start` on, parsed as
/// `str::parse::<u64>` does.
fn parse_u64_from(s: &str, start: usize) -> (r: Option<u64>)
    requires
        start <= s@.len(),
    ensures
        r == parsed_u64(s@.skip(start as int)),
{
    let n = s.unicode_len();
    let ghost text = s@.skip(start as int);
    let mut first = start;
    if first < n && s.get_char(first) == '+' {
        first = first + 1;
    }
    let ghost body = if text.len() > 0 && text[0] == '+' {
        text.drop_first()
    } else {
        text
    };
    assert(body =~= s@.skip(first as int));
    if first >= n {
        return None;
    }
    let mut value: u128 = 0;
    let mut i: usize = first;
    while i < n
        invariant
            n == s@.len(),
            first <= i <= n,
            first < n,
            body == s@.skip(first as int),
            text == s@.skip(start as int),
            body == (if text.len() > 0 && text[0] == '+' {
                text.drop_first()
            } else {
                text
            }),
            all_digits(body.take(i - first)),
            value == digits_value(body.take(i - first)),
            value <= u64::MAX,
        decreases n - i,
    {
        let c = s.get_char(i);
        let ghost t1 = body.take(i - first + 1);
        assert(t1.drop_last() =~= body.take(i - first));
        assert(t1.last() == c);
        assert(body[(i - first) as int] == c);
        if !('0' <= c && c <= '9') {
            assert(!all_digits(body));
            assert(parsed_u64(text) == None::<u64>);
            return None;
        }
        let d = (c as u32 - '0' as u32) as u128;
        value = value * 10 + d;
        assert(all_digits(t1));
        assert(value == digits_value(t1));
        if value > 0xffff_ffff_ffff_ffff {
            proof {
                if all_digits(body) {
                    lemma_digits_value_grows(body, i - first + 1);
                }
                assert(parsed_u64(text) == None::<u64>);
            }
            return None;
        }
        i = i + 1;
    }
    assert(body.take(i - first) =~= body);
    Some(value as u64)
}

/// The number written in `s` after `prefix`.
fn number_after_prefix(s: &str, prefix: &str) -> (r: Option<u64>)
    ensures
        r == number_after(s@, prefix@),
{
    if starts_with(s, prefix) {
        let m = prefix.unicode_len();
        parse_u64_from(s, m)
    } else {
        None
    }
}

/// Whether `s` is exactly `t`.
fn str_is(s: &str, t: &str) -> (r: bool)
    ensures
        r == (s@ == t@),
{
    let same = starts_with(s, t) && s.unicode_len() == t.unicode_len();
    proof {
        if s@.len() == t@.len() {
            assert(s@.take(t@.len() as int) =~= s@);
        }
    }
    same
}

/// Text style flags of a bubble.
#[derive(Clone, Copy, Debug, PartialEq, Eq, Structural)]
pub struct BubbleStyle {
    pub id: u64,
    pub bold: bool,
    pub strikethrough: bool,
    pub underline: bool,
}

/// Position of the first bubble `id` among `bubbles`, if any.
pub open spec fn bubble_pos(bubbles: Seq<BubbleStyle>, id: u64, k: int) -> Option<int>
    decreases bubbles.len() - k,
{
    if k < 0 || k >= bubbles.len() {
        None
    } else if bubbles[k].id == id {
        Some(k)
    } else {
        bubble_pos(bubbles, id, k + 1)
    }
}

/// What activating an accessible control of the workspace asks for.
#[derive(Clone, Debug, PartialEq, Eq)]
pub enum ControlAnswer {
    /// Nothing to do.
    Nothing,
    Action(UiAction),
    /// Store the edited bubble's current pose as a keyframe at `at_ms`.
    SetVertexKeyframe { bubble_id: u64, at_ms: u64 },
    /// Select bubble `id`.
    SelectBubble(u64),
}

/// Which text style a control toggles, and on which bubble.
pub open spec fn style_control(id: Seq<char>) -> Option<(int, u64)> {
    match number_after(id, "comic.inspector.style.bold."@) {
        Some(b) => Some((0, b)),
        None => match number_after(id, "comic.inspector.style.strikethrough."@) {
            Some(b) => Some((1, b)),
            None => match number_after(id, "comic.inspector.style.underline."@) {
                Some(b) => Some((2, b)),
                None => None,
            },
        },
    }
}

/// The bubble of an open vertex editor.
pub open spec fn editor_bubble(editor: Option<(u64, VertexTimeline)>) -> u64 {
    match editor {
        Some((b, _)) => b,
        None => 0,
    }
}

/// The timeline of an open vertex editor.
pub open spec fn editor_timeline(editor: Option<(u64, VertexTimeline)>) -> VertexTimeline {
    match editor {
        Some((_, t)) => t,
        None => VertexTimeline { playhead_ms: 0, selected_keyframe: None, playing_from: None },
    }
}

/// The answer to activating control `id`. `editor` is the bubble whose
/// vertices are being edited and its timeline, `keyframes` and
/// `duration_ms` that bubble's keyframe instants and timeline span,
/// `bubbles` the bubbles of the document with their text styles, and
/// `selected` the selected bubble.
pub open spec fn control_answer(
    id: Seq<char>,
    editor: Option<(u64, VertexTimeline)>,
    keyframes: Seq<u64>,
    duration_ms: u64,
    bubbles: Seq<BubbleStyle>,
    selected: Option<u64>,
) -> ControlAnswer {
    if id == "comic.vertex.close"@ {
        ControlAnswer::Action(UiAction::ComicDubsCloseVertexEditor)
    } else if id == "comic.vertex.play"@ {
        ControlAnswer::Action(UiAction::ComicDubsToggleVertexEditorPreview)
    } else if editor is Some && bubble_pos(bubbles, editor_bubble(editor), 0) is None {
        ControlAnswer::Nothing
    } else if editor is Some && id == "comic.vertex.add"@ {
        ControlAnswer::SetVertexKeyframe { bubble_id: editor_bubble(editor), at_ms: editor_timeline(editor).playhead_ms }
    } else if editor is Some && id == "comic.vertex.delete"@ {
        match editor_timeline(editor).selected_keyframe {
            Some(at) => ControlAnswer::Action(
                UiAction::ComicDubsRemoveBubbleVertexKeyframe { bubble_id: editor_bubble(editor), at_ms: at },
            ),
            None => ControlAnswer::Nothing,
        }
    } else if editor is Some && id == "comic.vertex.previous"@ {
        ControlAnswer::Action(
            UiAction::ComicDubsSetVertexEditorPlayhead(
                previous_keyframe(keyframes, editor_timeline(editor).playhead_ms),
            ),
        )
    } else if editor is Some && id == "comic.vertex.next"@ {
        ControlAnswer::Action(
            UiAction::ComicDubsSetVertexEditorPlayhead(
                next_keyframe(keyframes, editor_timeline(editor).playhead_ms, duration_ms),
            ),
        )
    } else if editor is Some && number_after(id, "comic.vertex.marker."@) is Some {
        ControlAnswer::Action(
            UiAction::ComicDubsSetVertexEditorPlayhead(
                number_after(id, "comic.vertex.marker."@)->0,
            ),
        )
    } else if number_after(id, "comic.page."@) is Some {
        ControlAnswer::Action(UiAction::ComicDubsSelectPage(number_after(id, "comic.page."@)->0))
    } else if after_prefix(id, "comic.bubble."@) is Some || after_prefix(id, "comic.canvas.bubble."@) is Some {
        let rest = if after_prefix(id, "comic.bubble."@) is Some {
            after_prefix(id, "comic.bubble."@)->0
        } else {
            after_prefix(id, "comic.canvas.bubble."@)->0
        };
        match parsed_u64(rest) {
            Some(b) => if bubble_pos(bubbles, b, 0) is Some {
                ControlAnswer::SelectBubble(b)
            } else {
                ControlAnswer::Nothing
            },
            None => style_answer(id, bubbles),
        }
    } else if number_after(id, "comic.audio."@) is Some && selected is Some {
        ControlAnswer::Action(
            UiAction::ComicDubsAssignAudio {
                bubble_id: selected->0,
                audio_id: Some(number_after(id, "comic.audio."@)->0),
            },
        )
    } else {
        style_answer(id, bubbles)
    }
}

/// The answer to a text-style control: the bubble's three flags with the
/// named one toggled.
pub open spec fn style_answer(id: Seq<char>, bubbles: Seq<BubbleStyle>) -> ControlAnswer {
    match style_control(id) {
        Some((style, b)) => match bubble_pos(bubbles, b, 0) {
            Some(k) => {
                let s = bubbles[k];
                ControlAnswer::Action(
                    UiAction::ComicDubsSetBubbleTextStyle {
                        bubble_id: b,
                        bold: if style == 0 { !s.bold } else { s.bold },
                        strikethrough: if style == 1 { !s.strikethrough } else { s.strikethrough },
                        underline: if style == 2 { !s.underline } else { s.underline },
                    },
                )
            },
            None => ControlAnswer::Nothing,
        },
        None => ControlAnswer::Nothing,
    }
}

fn find_bubble(bubbles: &Vec<BubbleStyle>, id: u64) -> (r: Option<usize>)
    ensures
        match r {
            Some(k) => bubble_pos(bubbles@, id, 0) == Some(k as int) && k < bubbles@.len(),
            None => bubble_pos(bubbles@, id, 0) is None,
        },
{
    let mut k: usize = 0;
    while k < bubbles.len()
        invariant
            k <= bubbles@.len(),
            bubble_pos(bubbles@, id, 0) == bubble_pos(bubbles@, id, k as int),
        decreases bubbles@.len() - k,
    {
        if bubbles[k].id == id {
            assert(bubble_pos(bubbles@, id, k as int) == Some(k as int));
            return Some(k);
        }
        k = k + 1;
    }
    None
}

fn style_answer_of(id: &str, bubbles: &Vec<BubbleStyle>) -> (r: ControlAnswer)
    ensures
        r == style_answer(id@, bubbles@),
{
    let (style, b): (u8, u64) = match number_after_prefix(id, "comic.inspector.style.bold.") {
        Some(b) => (0, b),
        None => match number_after_prefix(id, "comic.inspector.style.strikethrough.") {
            Some(b) => (1, b),
            None => match number_after_prefix(id, "comic.inspector.style.underline.") {
                Some(b) => (2, b),
                None => {
                    return ControlAnswer::Nothing;
                },
            },
        },
    };
    match find_bubble(bubbles, b) {
        Some(k) => {
            let s = bubbles[k];
            ControlAnswer::Action(
                UiAction::ComicDubsSetBubbleTextStyle {
                    bubble_id: b,
                    bold: if style == 0 { !s.bold } else { s.bold },
                    strikethrough: if style == 1 { !s.strikethrough } else { s.strikethrough },
                    underline: if style == 2 { !s.underline } else { s.underline },
                },
            )
        },
        None => ControlAnswer::Nothing,
    }
}

/// What activating the accessible control `id` asks for (see
/// `control_answer`).
pub fn control_action(
    id: &str,
    editor: Option<(u64, VertexTimeline)>,
    keyframes: &Vec<u64>,
    duration_ms: u64,
    bubbles: &Vec<BubbleStyle>,
    selected: Option<u64>,
) -> (r: ControlAnswer)
    ensures
        r == control_answer(id@, editor, keyframes@, duration_ms, bubbles@, selected),
{
    if str_is(id, "comic.vertex.close") {
        return ControlAnswer::Action(UiAction::ComicDubsCloseVertexEditor);
    }
    if str_is(id, "comic.vertex.play") {
        return ControlAnswer::Action(UiAction::ComicDubsToggleVertexEditorPreview);
    }
    if let Some((bubble_id, timeline)) = editor {
        if find_bubble(bubbles, bubble_id).is_none() {
            return ControlAnswer::Nothing;
        }
        if str_is(id, "comic.vertex.add") {
            return ControlAnswer::SetVertexKeyframe { bubble_id, at_ms: timeline.playhead_ms };
        }
        if str_is(id, "comic.vertex.delete") {
            return match timeline.selected_keyframe {
                Some(at) => ControlAnswer::Action(
                    UiAction::ComicDubsRemoveBubbleVertexKeyframe { bubble_id, at_ms: at },
                ),
                None => ControlAnswer::Nothing,
            };
        }
        if str_is(id, "comic.vertex.previous") {
            return ControlAnswer::Action(
                UiAction::ComicDubsSetVertexEditorPlayhead(
                    previous_keyframe_at(keyframes, timeline.playhead_ms),
                ),
            );
        }
        if str_is(id, "comic.vertex.next") {
            return ControlAnswer::Action(
                UiAction::ComicDubsSetVertexEditorPlayhead(
                    next_keyframe_at(keyframes, timeline.playhead_ms, duration_ms),
                ),
            );
        }
        if let Some(at) = number_after_prefix(id, "comic.vertex.marker.") {
            return ControlAnswer::Action(UiAction::ComicDubsSetVertexEditorPlayhead(at));
        }
    }
    if let Some(page) = number_after_prefix(id, "comic.page.") {
        return ControlAnswer::Action(UiAction::ComicDubsSelectPage(page));
    }
    let bubble_rest: Option<usize> = if starts_with(id, "comic.bubble.") {
        Some("comic.bubble.".unicode_len())
    } else if starts_with(id, "comic.canvas.bubble.") {
        Some("comic.canvas.bubble.".unicode_len())
    } else {
        None
    };
    if let Some(start) = bubble_rest {
        match parse_u64_from(id, start) {
            Some(b) => {
                return if find_bubble(bubbles, b).is_some() {
                    ControlAnswer::SelectBubble(b)
                } else {
                    ControlAnswer::Nothing
                };
            },
            None => {
                return style_answer_of(id, bubbles);
            },
        }
    }
    if let Some(audio) = number_after_prefix(id, "comic.audio.") {
        if let Some(bubble_id) = selected {
            return ControlAnswer::Action(
                UiAction::ComicDubsAssignAudio { bubble_id, audio_id: Some(audio) },
            );
        }
    }
    style_answer_of(id, bubbles)
}

/// Longest bubble text (characters).
pub const MAX_BUBBLE_TEXT_CHARS: usize = 500;

/// A bubble whose text is being typed.
#[derive(Debug)]
pub struct BubbleTextEdit {
    pub bubble_id: u64,
    pub text: String,
}

/// The edited text after key `key`: Backspace or Delete removes the last
/// character; other keys type their printable characters, up to the limit.
pub open spec fn text_keyed(text: Seq<char>, key: Seq<char>) -> Seq<char> {
    if key == "\x08"@ || key == "\x7f"@ {
        if text.len() > 0 {
            text.drop_last()
        } else {
            text
        }
    } else {
        typed_capped(text, key, MAX_BUBBLE_TEXT_CHARS as nat)
    }
}

/// Keys that end the edit: Escape, Enter and Return.
pub open spec fn ends_text_edit(key: Seq<char>) -> bool {
    key == "\x1b"@ || key == "\r"@ || key == "\n"@
}

/// Types into the bubble being edited. A press anywhere ends the edit and
/// lets the press through (`None`); Escape and Enter end it; other keys
/// change the text and ask to store it; other events are swallowed while
/// editing. Without an edit nothing is handled.
pub fn handle_text_edit(edit: &mut Option<BubbleTextEdit>, event: &UiEvent) -> (r: Option<EventResponse>)
    ensures
        match *event {
            UiEvent::Pointer(PointerKind::MousePress) | UiEvent::Pointer(PointerKind::DoubleClick) => {
                (*final(edit)) is None && r is None
            },
            _ => match *old(edit) {
                None => (*final(edit)) is None && r is None,
                Some(e) => match *event {
                    UiEvent::KeyInput { text: key } => if ends_text_edit(key@) {
                        (*final(edit)) is None && r == Some(EventResponse::Consumed)
                    } else {
                        let t = text_keyed(e.text@, key@);
                        &&& *final(edit) matches Some(f) && f.bubble_id == e.bubble_id && f.text@ == t
                        &&& r matches Some(
                            EventResponse::Action(UiAction::ComicDubsSetBubbleText { bubble_id, text }),
                        ) && bubble_id == e.bubble_id && text@ == t
                    },
                    _ => *final(edit) == *old(edit) && r == Some(EventResponse::Consumed),
                },
            },
        },
{
    match event {
        UiEvent::Pointer(PointerKind::MousePress) | UiEvent::Pointer(PointerKind::DoubleClick) => {
            *edit = None;
            return None;
        },
        _ => {},
    }
    if edit.is_none() {
        return None;
    }
    match event {
        UiEvent::KeyInput { text: key } => {
            if crate::event::key_is(key, "\x1b") || crate::event::key_is(key, "\r")
                || crate::event::key_is(key, "\n") {
                *edit = None;
                return Some(EventResponse::Consumed);
            }
            let current = edit.take().unwrap();
            let bubble_id = current.bubble_id;
            let mut text = current.text;
            if crate::event::key_is(key, "\x08") || crate::event::key_is(key, "\x7f") {
                let chars = chars_of(text.as_str());
                if chars.len() > 0 {
                    text = string_from(&chars, 0, chars.len() - 1);
                    assert(text@ =~= current.text@.drop_last());
                }
            } else {
                append_typed(&mut text, key.as_str(), MAX_BUBBLE_TEXT_CHARS);
            }
            let stored = crate::text::owned(text.as_str());
            *edit = Some(BubbleTextEdit { bubble_id, text });
            Some(EventResponse::Action(UiAction::ComicDubsSetBubbleText { bubble_id, text: stored }))
        },
        _ => Some(EventResponse::Consumed),
    }
}

/// Position of the first `id` in `ids`, if any.
pub open spec fn position_of(ids: Seq<u64>, id: u64, k: int) -> Option<int>
    decreases ids.len() - k,
{
    if k < 0 || k >= ids.len() {
        None
    } else if ids[k] == id {
        Some(k)
    } else {
        position_of(ids, id, k + 1)
    }
}

/// The page before (`forward` false) or after the active one, in the
/// document's order; none at either end or without an active page.
pub open spec fn neighbour_page(pages: Seq<u64>, active: Option<u64>, forward: bool) -> Option<u64> {
    match active {
        Some(a) => match position_of(pages, a, 0) {
            Some(i) => if forward {
                if i + 1 < pages.len() {
                    Some(pages[i + 1])
                } else {
                    None
                }
            } else if i >= 1 {
                Some(pages[i - 1])
            } else {
                None
            },
            None => None,
        },
        None => None,
    }
}

/// What the header's previous and next buttons ask for: selecting the
/// neighbouring page, if there is one.
pub fn page_step(pages: &Vec<u64>, active: Option<u64>, forward: bool) -> (r: EventResponse)
    ensures
        r == match neighbour_page(pages@, active, forward) {
            Some(p) => EventResponse::Action(UiAction::ComicDubsSelectPage(p)),
            None => EventResponse::Consumed,
        },
{
    let a = match active {
        Some(a) => a,
        None => {
            return EventResponse::Consumed;
        },
    };
    let mut i: usize = 0;
    while i < pages.len()
        invariant
            i <= pages@.len(),
            active == Some(a),
            position_of(pages@, a, 0) == position_of(pages@, a, i as int),
        decreases pages@.len() - i,
    {
        if pages[i] == a {
            assert(position_of(pages@, a, i as int) == Some(i as int));
            if forward {
                if i + 1 < pages.len() {
                    return EventResponse::Action(UiAction::ComicDubsSelectPage(pages[i + 1]));
                }
            } else if i >= 1 {
                return EventResponse::Action(UiAction::ComicDubsSelectPage(pages[i - 1]));
            }
            return EventResponse::Consumed;
        }
        i = i + 1;
    }
    EventResponse::Consumed
}

/// Which list the media sidebar shows.
#[derive(Clone, Copy, Debug, PartialEq, Eq, Structural)]
pub enum MediaTab {
    Images,
    Audios,
}

/// Where on a media row a press landed, from its right edge leftwards: the
/// remove button, the move-down button, the move-up button, or the rest.
#[derive(Clone, Copy, Debug, PartialEq, Eq, Structural)]
pub enum MediaZone {
    Remove,
    MoveDown,
    MoveUp,
    Body,
}

/// What a press on a media row asks for.
#[derive(Clone, Debug, PartialEq, Eq)]
pub enum MediaClick {
    /// No such row: the press is not the sidebar's.
    Missed,
    Respond(EventResponse),
    /// Start dragging audio `id` towards a bubble.
    DragAudio(u64),
}

/// A press on row `row` (scroll included) of the media list: on a page,
/// remove it, move it down or up, or select it; on an audio, remove it or
/// start dragging it.
pub open spec fn media_click_answer(
    tab: MediaTab,
    row: usize,
    zone: MediaZone,
    pages: Seq<u64>,
    audios: Seq<u64>,
) -> MediaClick {
    match tab {
        MediaTab::Images => if row < pages.len() {
            let id = pages[row as int];
            MediaClick::Respond(
                EventResponse::Action(
                    match zone {
                        MediaZone::Remove => UiAction::ComicDubsRemovePage(id),
                        MediaZone::MoveDown => UiAction::ComicDubsMovePage { page_id: id, delta: 1i32 },
                        MediaZone::MoveUp => UiAction::ComicDubsMovePage { page_id: id, delta: -1i32 },
                        MediaZone::Body => UiAction::ComicDubsSelectPage(id),
                    },
                ),
            )
        } else {
            MediaClick::Missed
        },
        MediaTab::Audios => if row < audios.len() {
            let id = audios[row as int];
            match zone {
                MediaZone::Remove => MediaClick::Respond(
                    EventResponse::Action(UiAction::ComicDubsRemoveAudio(id)),
                ),
                _ => MediaClick::DragAudio(id),
            }
        } else {
            MediaClick::Missed
        },
    }
}

/// What a press on the media list asks for (see `media_click_answer`).
pub fn media_click(
    tab: MediaTab,
    row: usize,
    zone: MediaZone,
    pages: &Vec<u64>,
    audios: &Vec<u64>,
) -> (r: MediaClick)
    ensures
        r == media_click_answer(tab, row, zone, pages@, audios@),
{
    match tab {
        MediaTab::Images => {
            if row >= pages.len() {
                return MediaClick::Missed;
            }
            let id = pages[row];
            MediaClick::Respond(
                EventResponse::Action(
                    match zone {
                        MediaZone::Remove => UiAction::ComicDubsRemovePage(id),
                        MediaZone::MoveDown => UiAction::ComicDubsMovePage { page_id: id, delta: 1i32 },
                        MediaZone::MoveUp => UiAction::ComicDubsMovePage { page_id: id, delta: -1i32 },
                        MediaZone::Body => UiAction::ComicDubsSelectPage(id),
                    },
                ),
            )
        },
        MediaTab::Audios => {
            if row >= audios.len() {
                return MediaClick::Missed;
            }
            let id = audios[row];
            match zone {
                MediaZone::Remove => MediaClick::Respond(
                    EventResponse::Action(UiAction::ComicDubsRemoveAudio(id)),
                ),
                _ => MediaClick::DragAudio(id),
            }
        },
    }
}

/// The decimal notation of `n` reads back as `n`.
proof fn lemma_decimal_value(n: nat)
    ensures
        decimal(n).len() > 0,
        digits_value(decimal(n)) == n,
        '0' <= decimal(n)[0] <= '9',
    decreases n,
{
    let r = (n % 10) as int;
    assert((digit_char_spec(r) as nat) - ('0' as nat) == r && '0' <= digit_char_spec(r) <= '9') by {
        if r == 0 {
        } else if r == 1 {
        } else if r == 2 {
        } else if r == 3 {
        } else if r == 4 {
        } else if r == 5 {
        } else if r == 6 {
        } else if r == 7 {
        } else if r == 8 {
        } else {
        }
    }
    if n >= 10 {
        lemma_decimal_value(n / 10);
        let d = decimal(n / 10);
        let s = d + seq![digit_char_spec(r)];
        assert(s.drop_last() =~= d);
        assert(s[0] == d[0]);
        assert(decimal(n) == s);
        assert(s.last() == digit_char_spec(r));
        assert(digits_value(s) == digits_value(d) * 10 + r);
        assert((n / 10) * 10 + r == n) by (nonlinear_arith)
            requires
                r == n % 10,
        ;
    } else {
        let s = seq![digit_char_spec(n as int)];
        assert(s.drop_last() =~= Seq::<char>::empty());
        assert(r == n);
        assert(decimal(n) == s);
        assert(s.last() == digit_char_spec(r));
        assert(digits_value(s) == digits_value(s.drop_last()) * 10 + ((s.last() as nat) - ('0' as nat)) as nat);
        assert(digits_value(Seq::<char>::empty()) == 0);
    }
}

/// What follows `prefix` in `prefix + rest` is `rest`.
proof fn lemma_after_prefix(prefix: Seq<char>, rest: Seq<char>)
    ensures
        after_prefix(prefix + rest, prefix) == Some(rest),
{
    assert((prefix + rest).take(prefix.len() as int) =~= prefix);
    assert((prefix + rest).skip(prefix.len() as int) =~= rest);
}

/// `str::parse::<u64>` reads the decimal notation of any `n` back as `n`.
pub proof fn lemma_parse_decimal(n: u64)
    ensures
        parsed_u64(decimal(n as nat)) == Some(n),
{
    lemma_decimal_value(n as nat);
    lemma_decimal_digits(n as nat);
}

/// With no vertex editor open, activating `comic.page.N` selects page `N`,
/// whatever `N`.
pub proof fn lemma_page_control_selects_page(
    n: u64,
    keyframes: Seq<u64>,
    duration_ms: u64,
    bubbles: Seq<BubbleStyle>,
    selected: Option<u64>,
)
    ensures
        control_answer("comic.page."@ + decimal(n as nat), None, keyframes, duration_ms, bubbles, selected)
            == ControlAnswer::Action(UiAction::ComicDubsSelectPage(n)),
{
    let prefix = "comic.page."@;
    let id = prefix + decimal(n as nat);
    reveal_strlit("comic.page.");
    reveal_strlit("comic.vertex.close");
    reveal_strlit("comic.vertex.play");
    assert(id[6] == 'p');
    assert("comic.vertex.close"@[6] == 'v');
    assert("comic.vertex.play"@[6] == 'v');
    lemma_after_prefix(prefix, decimal(n as nat));
    lemma_parse_decimal(n);
}

/// With no vertex editor open, activating `comic.bubble.N` selects bubble
/// `N` when the document has it, and otherwise asks for nothing, whatever
/// `N`.
pub proof fn lemma_bubble_control_selects_bubble(
    n: u64,
    keyframes: Seq<u64>,
    duration_ms: u64,
    bubbles: Seq<BubbleStyle>,
    selected: Option<u64>,
)
    ensures
        control_answer("comic.bubble."@ + decimal(n as nat), None, keyframes, duration_ms, bubbles, selected)
            == if bubble_pos(bubbles, n, 0) is Some {
            ControlAnswer::SelectBubble(n)
        } else {
            ControlAnswer::Nothing
        },
{
    let prefix = "comic.bubble."@;
    let id = prefix + decimal(n as nat);
    reveal_strlit("comic.bubble.");
    reveal_strlit("comic.page.");
    reveal_strlit("comic.vertex.close");
    reveal_strlit("comic.vertex.play");
    assert(id[6] == 'b');
    assert("comic.vertex.close"@[6] == 'v');
    assert("comic.vertex.play"@[6] == 'v');
    assert(id.take(11)[6] == 'b');
    assert("comic.page."@[6] == 'p');
    assert(after_prefix(id, "comic.page."@) is None);
    lemma_after_prefix(prefix, decimal(n as nat));
    lemma_parse_decimal(n);
}

/// `parts` joined by single spaces.
pub open spec fn joined(parts: Seq<Seq<char>>) -> Seq<char>
    decreases parts.len(),
{
    if parts.len() == 0 {
        Seq::empty()
    } else if parts.len() == 1 {
        parts[0]
    } else {
        joined(parts.drop_last()) + seq![' '] + parts.last()
    }
}

proof fn lemma_split_words_not_empty(s: Seq<char>)
    ensures
        forall|i: int| 0 <= i < split_state(s).0.len() ==> #[trigger] split_state(s).0[i].len() > 0,
    decreases s.len(),
{
    if s.len() > 0 {
        lemma_split_words_not_empty(s.drop_last());
        let st = split_state(s.drop_last());
        if is_white_space(s.last()) && st.1.len() > 0 {
            let pushed = st.0.push(st.1);
            assert forall|i: int| 0 <= i < pushed.len() implies #[trigger] pushed[i].len() > 0 by {
                if i < st.0.len() {
                    assert(pushed[i] == st.0[i]);
                }
            }
        }
    }
}

/// The words of a text are never empty.
proof fn lemma_words_not_empty(s: Seq<char>)
    ensures
        forall|i: int| 0 <= i < words_of(s).len() ==> #[trigger] words_of(s)[i].len() > 0,
{
    lemma_split_words_not_empty(s);
    let st = split_state(s);
    if st.1.len() > 0 {
        assert forall|i: int| 0 <= i < words_of(s).len() implies #[trigger] words_of(s)[i].len() > 0 by {
            if i < st.0.len() {
                assert(words_of(s)[i] == st.0[i]);
            }
        }
    }
}

/// Joining `parts` then one more part.
proof fn lemma_joined_push(parts: Seq<Seq<char>>, last: Seq<char>)
    ensures
        joined(parts.push(last)) == if parts.len() == 0 {
            last
        } else {
            joined(parts) + seq![' '] + last
        },
{
    assert(parts.push(last).drop_last() =~= parts);
}

proof fn lemma_place_words_join(words: Seq<Seq<char>>, max: nat)
    requires
        max >= 1,
        forall|i: int| 0 <= i < words.len() ==> 0 < #[trigger] words[i].len() <= max,
    ensures
        ({
            let (lines, current) = place_words(words, max);
            &&& words.len() > 0 ==> current.len() > 0
            &&& words.len() == 0 ==> lines.len() == 0 && current.len() == 0
            &&& joined(flushed(lines, current)) == joined(words)
        }),
    decreases words.len(),
{
    if words.len() > 0 {
        let rest = words.drop_last();
        let w = words.last();
        assert(w == words[words.len() - 1]);
        lemma_place_words_join(rest, max);
        let (lines, current) = place_words(rest, max);
        lemma_joined_push(rest, w);
        if current.len() > 0 && current.len() + 1 + w.len() > max {
            lemma_joined_push(lines, current);
            lemma_joined_push(lines.push(current), w);
        } else if current.len() > 0 {
            let merged = current.push(' ') + w;
            lemma_joined_push(lines, current);
            lemma_joined_push(lines, merged);
            if lines.len() > 0 {
                assert(joined(lines) + seq![' '] + merged =~= joined(lines) + seq![' '] + current
                    + seq![' '] + w);
            } else {
                assert(merged =~= current + seq![' '] + w);
            }
        } else {
            lemma_joined_push(lines, w);
        }
    }
}

/// When no word is longer than a line, the wrapped lines joined by single
/// spaces give back the text's words joined by single spaces: wrapping only
/// turns some separating spaces into line breaks.
pub proof fn lemma_wrapped_join(text: Seq<char>, max: nat)
    requires
        max >= 1,
        forall|i: int| 0 <= i < words_of(text).len() ==> #[trigger] words_of(text)[i].len() <= max,
    ensures
        joined(wrapped(text, max)) == joined(words_of(text)),
{
    let words = words_of(text);
    lemma_words_not_empty(text);
    assert forall|i: int| 0 <= i < words.len() implies 0 < #[trigger] words[i].len() <= max by {}
    lemma_place_words_join(words, max);
    let st = place_words(words, max);
    if flushed(st.0, st.1).len() == 0 {
        assert(joined(seq![Seq::<char>::empty()]) == Seq::<char>::empty());
    }
}

/// Whether `s` is blank: white space only (or empty).
pub open spec fn is_blank_text(s: Seq<char>) -> bool {
    forall|i: int| 0 <= i < s.len() ==> is_white_space(#[trigger] s[i])
}

proof fn lemma_split_empty_iff_blank(s: Seq<char>)
    ensures
        (split_state(s).0.len() == 0 && split_state(s).1.len() == 0) <==> is_blank_text(s),
    decreases s.len(),
{
    if s.len() > 0 {
        let t = s.drop_last();
        lemma_split_empty_iff_blank(t);
        let st = split_state(t);
        assert forall|i: int| 0 <= i < t.len() implies #[trigger] t[i] == s[i] by {}
        if is_blank_text(s) {
            assert(is_blank_text(t)) by {
                assert forall|i: int| 0 <= i < t.len() implies is_white_space(#[trigger] t[i]) by {
                    assert(t[i] == s[i]);
                }
            }
            assert(is_white_space(s[s.len() - 1]));
        } else if is_blank_text(t) {
            assert(!is_white_space(s.last())) by {
                if is_white_space(s.last()) {
                    assert forall|i: int| 0 <= i < s.len() implies is_white_space(#[trigger] s[i]) by {
                        if i < t.len() {
                            assert(t[i] == s[i]);
                        }
                    }
                }
            }
        } else {
            if st.1.len() > 0 && is_white_space(s.last()) {
                assert(st.0.push(st.1).len() > 0);
            }
        }
    }
}

/// A text has no words exactly when it is blank.
pub proof fn lemma_no_words_iff_blank(s: Seq<char>)
    ensures
        (words_of(s).len() == 0) <==> is_blank_text(s),
{
    lemma_split_empty_iff_blank(s);
}

proof fn lemma_chunked_grows(lines: Seq<Seq<char>>, word: Seq<char>, max: nat)
    requires
        max >= 1,
    ensures
        chunked(lines, word, max).0.len() >= lines.len(),
        word.len() >= max ==> chunked(lines, word, max).0.len() > lines.len(),
    decreases word.len(),
{
    if word.len() >= max {
        lemma_chunked_grows(lines.push(word.take(max as int)), word.skip(max as int), max);
    }
}

proof fn lemma_place_words_progress(words: Seq<Seq<char>>, max: nat)
    requires
        max >= 1,
        forall|i: int| 0 <= i < words.len() ==> #[trigger] words[i].len() > 0,
    ensures
        words.len() > 0 ==> place_words(words, max).0.len() > 0 || place_words(words, max).1.len()
            > 0,
    decreases words.len(),
{
    if words.len() > 0 {
        let rest = words.drop_last();
        assert forall|i: int| 0 <= i < rest.len() implies #[trigger] rest[i].len() > 0 by {
            assert(rest[i] == words[i]);
        }
        lemma_place_words_progress(rest, max);
        let (lines, current) = place_words(rest, max);
        let w = words.last();
        assert(w == words[words.len() - 1]);
        if w.len() > max {
            lemma_chunked_grows(flushed(lines, current), w, max);
        }
    }
}

/// Wrapping gives the single empty line exactly for a blank text.
pub proof fn lemma_wrapped_empty_iff_blank(text: Seq<char>, max: nat)
    requires
        max >= 1,
    ensures
        (wrapped(text, max) == seq![Seq::<char>::empty()]) <==> is_blank_text(text),
{
    lemma_no_words_iff_blank(text);
    lemma_words_not_empty(text);
    let words = words_of(text);
    let st = place_words(words, max);
    lemma_place_words_fit(words, max);
    lemma_place_words_progress(words, max);
    let lines = flushed(st.0, st.1);
    if words.len() > 0 {
        assert(lines.len() > 0);
        assert(lines[0].len() > 0) by {
            if st.0.len() > 0 {
                assert(lines[0] == st.0[0]);
            }
        }
        if wrapped(text, max) == seq![Seq::<char>::empty()] {
            assert(wrapped(text, max)[0] == lines[0]);
        }
    } else {
        assert(st == (Seq::<Seq<char>>::empty(), Seq::<char>::empty()));
    }
}

/// The previous keyframe is a keyframe before the playhead, or the start
/// (0); it is the start when no keyframe lies before the playhead, and the
/// last one listed before it otherwise.
pub proof fn lemma_previous_keyframe_is_a_keyframe_or_start(keyframes: Seq<u64>, playhead: u64)
    ensures
        (keyframes.contains(previous_keyframe(keyframes, playhead)) && previous_keyframe(
            keyframes,
            playhead,
        ) < playhead) || previous_keyframe(keyframes, playhead) == 0,
        (forall|i: int| 0 <= i < keyframes.len() ==> #[trigger] keyframes[i] >= playhead)
            ==> previous_keyframe(keyframes, playhead) == 0,
        (exists|i: int| 0 <= i < keyframes.len() && #[trigger] keyframes[i] < playhead) ==> (
        keyframes.contains(previous_keyframe(keyframes, playhead)) && previous_keyframe(
            keyframes,
            playhead,
        ) < playhead),
    decreases keyframes.len(),
{
    if keyframes.len() > 0 {
        let rest = keyframes.drop_last();
        lemma_previous_keyframe_is_a_keyframe_or_start(rest, playhead);
        let r = previous_keyframe(rest, playhead);
        if keyframes.last() < playhead {
            assert(keyframes[keyframes.len() - 1] == keyframes.last());
        } else {
            if rest.contains(r) {
                let j = choose|j: int| 0 <= j < rest.len() && rest[j] == r;
                assert(keyframes[j] == r);
            }
            if forall|i: int| 0 <= i < keyframes.len() ==> #[trigger] keyframes[i] >= playhead {
                assert forall|i: int| 0 <= i < rest.len() implies #[trigger] rest[i] >= playhead by {
                    assert(rest[i] == keyframes[i]);
                }
            }
            if exists|i: int| 0 <= i < keyframes.len() && #[trigger] keyframes[i] < playhead {
                let i = choose|i: int| 0 <= i < keyframes.len() && #[trigger] keyframes[i] < playhead;
                assert(i < keyframes.len() - 1);
                assert(rest[i] == keyframes[i]);
            }
        }
    }
}

} // verus!
