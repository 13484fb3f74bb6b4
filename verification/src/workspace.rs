//! The comic dubs workspace's answer to an event outside the vertex editor
//! and the colour picker: drawing a new bubble polygon, selecting, moving
//! and deleting bubbles, the inspector's buttons, the media sidebar and
//! dragging an audio onto a bubble.
//!
//! Window geometry stays with the caller: it says, for the event's
//! position, what lies under the pointer (a `WorkspaceHit`), and it keeps
//! the polygon points themselves, which are floating point. The state here
//! holds what the decisions read: the selection, how many points the
//! polygon being drawn has, which drag is under way, the media tab and its
//! scroll. A typed bubble text is handled first by
//! `comic_dubs::handle_text_edit`; this step runs when that one lets the
//! event through.

use vstd::prelude::*;

use crate::comic_dubs::{
    button_step, moved_to, neighbour_page, page_step, scroll_rows, scrolled_row, media_click,
    media_click_answer, timeline_key_step, MediaClick, MediaTab, MediaZone, ScrollDirection,
    TimelineButton, TimelineOutcome, VertexTimeline,
};
use crate::event::{EventResponse, PointerKind, TextAlignment, UiAction, UiEvent};

verus! {

/// Most points a bubble polygon being drawn may have.
pub const MAX_DRAFT_POINTS: usize = 128;

/// A vertex of the polygon being drawn, held by the pointer.
#[derive(Clone, Copy, Debug, PartialEq, Eq, Structural)]
pub struct DraftDrag {
    pub index: usize,
    /// Whether the vertex has left its spot since the press.
    pub moved: bool,
}

/// A vertex of an existing bubble, held by the pointer.
#[derive(Clone, Copy, Debug, PartialEq, Eq, Structural)]
pub struct VertexDrag {
    pub bubble_id: u64,
    pub index: usize,
    /// The keyframe the new pose goes to, or none for the base pose.
    pub keyframe_at_ms: Option<u64>,
}

/// What the workspace remembers between events.
#[derive(Clone, Copy, Debug, PartialEq, Eq, Structural)]
pub struct WorkspaceState {
    pub media_tab: MediaTab,
    pub media_scroll: usize,
    pub selected_bubble: Option<u64>,
    /// Number of points of the polygon being drawn (none drawn: 0).
    pub draft_len: usize,
    pub draft_drag: Option<DraftDrag>,
    pub vertex_drag: Option<VertexDrag>,
    /// Bubble being moved as a whole.
    pub bubble_drag: Option<u64>,
    /// Audio being dragged from the sidebar towards a bubble.
    pub dragging_audio: Option<u64>,
}

impl WorkspaceState {
    /// The images tab, nothing selected, drawn or held.
    pub fn new() -> (r: Self)
        ensures
            r == (WorkspaceState {
                media_tab: MediaTab::Images,
                media_scroll: 0,
                selected_bubble: None,
                draft_len: 0,
                draft_drag: None,
                vertex_drag: None,
                bubble_drag: None,
                dragging_audio: None,
            }),
    {
        WorkspaceState {
            media_tab: MediaTab::Images,
            media_scroll: 0,
            selected_bubble: None,
            draft_len: 0,
            draft_drag: None,
            vertex_drag: None,
            bubble_drag: None,
            dragging_audio: None,
        }
    }

    /// Escape's cancel: with the vertex editor open, closes it and lets go
    /// of a held vertex, the polygon being drawn kept, and reports true;
    /// otherwise drops the polygon being drawn and lets go of its vertex,
    /// reporting whether there was one.
    pub fn cancel_draft(&mut self, editor: &mut Option<(u64, VertexTimeline)>) -> (r: bool)
        ensures
            (*old(editor)) is Some ==> r && (*final(editor)) is None && *final(self) == (WorkspaceState {
                vertex_drag: None,
                ..*old(self)
            }),
            (*old(editor)) is None ==> r == (old(self).draft_len > 0) && (*final(editor)) is None
                && *final(self) == (WorkspaceState { draft_len: 0, draft_drag: None, ..*old(self) }),
    {
        if editor.is_some() {
            *editor = None;
            self.vertex_drag = None;
            return true;
        }
        let cancelled = self.draft_len > 0;
        self.draft_len = 0;
        self.draft_drag = None;
        cancelled
    }
}

/// A bubble of the document as the workspace reads it.
#[derive(Clone, Copy, Debug, PartialEq, Eq, Structural)]
pub struct BubbleRef {
    pub id: u64,
    pub audio_id: Option<u64>,
    pub bold: bool,
    pub strikethrough: bool,
    pub underline: bool,
}

/// The document as the workspace reads it: the active page, the pages and
/// audios in sidebar order, and every bubble.
#[derive(Clone, Debug)]
pub struct WorkspaceDoc {
    pub active_page: Option<u64>,
    pub pages: Vec<u64>,
    pub audios: Vec<u64>,
    pub bubbles: Vec<BubbleRef>,
}

/// An inspector control whose new value is a measure (font size, spacing)
/// or a colour, which the caller computes.
#[derive(Clone, Copy, Debug, PartialEq, Eq, Structural)]
pub enum ValueControl {
    FontSmaller,
    FontLarger,
    LetterSpacingLess,
    LetterSpacingMore,
    LineSpacingLess,
    LineSpacingMore,
    BubbleColor,
    TextColor,
}

/// A text style flag.
#[derive(Clone, Copy, Debug, PartialEq, Eq, Structural)]
pub enum StyleFlag {
    Bold,
    Strikethrough,
    Underline,
}

/// Where in the inspector a press landed.
#[derive(Clone, Copy, Debug, PartialEq, Eq, Structural)]
pub enum InspectorHit {
    Value(ValueControl),
    Style(StyleFlag),
    Align(TextAlignment),
    /// Move the bubble one step back in the drawing order.
    MoveEarlier,
    /// Move the bubble one step forward in the drawing order.
    MoveLater,
    Delete,
    /// Inside the inspector, on no control.
    Blank,
}

/// A media row under the pointer, counted from the first visible one, and
/// the zone of the row.
#[derive(Clone, Copy, Debug, PartialEq, Eq, Structural)]
pub struct MediaRowHit {
    pub row: usize,
    pub zone: MediaZone,
}

/// What lies under the pointer of an event, as the geometry layer finds it.
#[derive(Clone, Copy, Debug, PartialEq, Eq, Structural)]
pub struct WorkspaceHit {
    /// Inside the active page's image.
    pub on_page: bool,
    /// Bubble of the active page under the pointer.
    pub bubble_at: Option<u64>,
    /// Vertex of the polygon being drawn under the pointer.
    pub draft_vertex_at: Option<usize>,
    /// Vertex of the selected bubble under the pointer.
    pub selected_vertex_at: Option<usize>,
    /// Media tab button under the pointer.
    pub tab: Option<MediaTab>,
    /// Header page button under the pointer: next (`true`) or previous.
    pub header: Option<bool>,
    /// Inspector spot under the pointer, when the pointer is in it.
    pub inspector: Option<InspectorHit>,
    /// Media row under the pointer.
    pub media_row: Option<MediaRowHit>,
    /// Inside the media sidebar.
    pub in_sidebar: bool,
    /// How many media rows the sidebar shows.
    pub visible_rows: usize,
    /// Wheel direction of a scroll event.
    pub scroll: ScrollDirection,
    /// On a move while a drawn vertex is held: whether it leaves its spot.
    pub draft_vertex_moved: bool,
    /// On a release ending a bubble drag: whether its points changed.
    pub drag_changed: bool,
}

/// What an event asks of the caller.
#[derive(Clone, Debug, PartialEq, Eq)]
pub enum WorkspaceOutcome {
    Respond(EventResponse),
    /// Add the drawn polygon as a bubble of page `page_id`; the caller
    /// hands over its points and clears them.
    AddBubble { page_id: u64 },
    /// Store the dragged points of bubble `bubble_id`.
    SetBubblePoints { bubble_id: u64 },
    /// Store the dragged points of bubble `bubble_id` as its keyframe at
    /// `at_ms`.
    SetVertexKeyframe { bubble_id: u64, at_ms: u64 },
    /// Start typing the text of bubble `bubble_id`.
    BeginTextEdit { bubble_id: u64 },
    /// Change a measure or a colour of bubble `bubble_id`.
    Inspector { bubble_id: u64, control: ValueControl },
}

/// The first bubble `id` among `bubbles[k..]`.
pub open spec fn find_bubble(bubbles: Seq<BubbleRef>, id: u64, k: int) -> Option<BubbleRef>
    decreases bubbles.len() - k,
{
    if k < 0 || k >= bubbles.len() {
        None
    } else if bubbles[k].id == id {
        Some(bubbles[k])
    } else {
        find_bubble(bubbles, id, k + 1)
    }
}

/// Number of rows of the media list on tab `tab`.
pub open spec fn media_count(tab: MediaTab, doc: WorkspaceDoc) -> nat {
    match tab {
        MediaTab::Images => doc.pages@.len(),
        MediaTab::Audios => doc.audios@.len(),
    }
}

/// Last first-visible row of the media list.
pub open spec fn max_scroll(count: nat, visible: usize) -> usize {
    if count > visible {
        (count - visible) as usize
    } else {
        0
    }
}

/// The state brought in line with the document: a selected bubble that is
/// gone is deselected, and the scroll kept within the list.
pub open spec fn synced(s: WorkspaceState, doc: WorkspaceDoc, visible: usize) -> WorkspaceState {
    let m = max_scroll(media_count(s.media_tab, doc), visible);
    WorkspaceState {
        selected_bubble: match s.selected_bubble {
            Some(b) => if find_bubble(doc.bubbles@, b, 0) is Some {
                Some(b)
            } else {
                None
            },
            None => None,
        },
        media_scroll: if s.media_scroll <= m {
            s.media_scroll
        } else {
            m
        },
        ..s
    }
}

pub open spec fn respond(s: WorkspaceState, r: EventResponse) -> Option<
    (WorkspaceState, WorkspaceOutcome),
> {
    Some((s, WorkspaceOutcome::Respond(r)))
}

/// A context menu on the page selects the bubble under the pointer and
/// offers its audio; on no bubble it is not the workspace's.
pub open spec fn context_stage(s: WorkspaceState, event: UiEvent, hit: WorkspaceHit, doc: WorkspaceDoc) -> Option<
    (WorkspaceState, WorkspaceOutcome),
> {
    if event == UiEvent::Pointer(PointerKind::ContextMenu) && doc.active_page is Some {
        match hit.bubble_at {
            None => respond(s, EventResponse::Ignored),
            Some(b) => respond(
                WorkspaceState { selected_bubble: Some(b), ..s },
                match find_bubble(doc.bubbles@, b, 0) {
                    Some(bubble) => match bubble.audio_id {
                        Some(a) => EventResponse::Action(
                            UiAction::ComicDubsAssignAudio { bubble_id: b, audio_id: Some(a) },
                        ),
                        None => EventResponse::Consumed,
                    },
                    None => EventResponse::Consumed,
                },
            ),
        }
    } else {
        None
    }
}

/// Escape drops the polygon being drawn.
pub open spec fn escape_stage(s: WorkspaceState, event: UiEvent) -> Option<
    (WorkspaceState, WorkspaceOutcome),
> {
    match event {
        UiEvent::KeyInput { text } => if text@ == "\x1b"@ && s.draft_len > 0 {
            respond(WorkspaceState { draft_len: 0, draft_drag: None, ..s }, EventResponse::Consumed)
        } else {
            None
        },
        _ => None,
    }
}

/// A Ctrl+click on the page starts a new polygon at the pointer and
/// deselects.
pub open spec fn ctrl_click_stage(s: WorkspaceState, event: UiEvent, hit: WorkspaceHit, doc: WorkspaceDoc) -> Option<
    (WorkspaceState, WorkspaceOutcome),
> {
    if event == UiEvent::Pointer(PointerKind::CtrlClick) && doc.active_page is Some && hit.on_page {
        respond(WorkspaceState { draft_len: 1, selected_bubble: None, ..s }, EventResponse::Consumed)
    } else {
        None
    }
}

/// While a polygon is being drawn, a press on the page takes hold of the
/// vertex under the pointer, or else adds a point, up to the limit.
pub open spec fn draft_press_stage(s: WorkspaceState, event: UiEvent, hit: WorkspaceHit, doc: WorkspaceDoc) -> Option<
    (WorkspaceState, WorkspaceOutcome),
> {
    if event == UiEvent::Pointer(PointerKind::MousePress) && doc.active_page is Some && s.draft_len
        > 0 && hit.on_page {
        if hit.draft_vertex_at is Some && hit.draft_vertex_at.unwrap() < s.draft_len {
            respond(
                WorkspaceState {
                    draft_drag: Some(DraftDrag { index: hit.draft_vertex_at.unwrap(), moved: false }),
                    ..s
                },
                EventResponse::Consumed,
            )
        } else {
            respond(
                if s.draft_len < MAX_DRAFT_POINTS {
                    WorkspaceState { draft_len: (s.draft_len + 1) as usize, ..s }
                } else {
                    s
                },
                EventResponse::Consumed,
            )
        }
    } else {
        None
    }
}

/// The presses that the tabs, the header's page buttons, the inspector and
/// the media list answer.
pub open spec fn panel_stage(s: WorkspaceState, event: UiEvent, hit: WorkspaceHit, doc: WorkspaceDoc) -> Option<
    (WorkspaceState, WorkspaceOutcome),
> {
    if event != UiEvent::Pointer(PointerKind::MousePress) {
        None
    } else if let Some(t) = hit.tab {
        respond(WorkspaceState { media_tab: t, media_scroll: 0, ..s }, EventResponse::Consumed)
    } else if let Some(forward) = hit.header {
        respond(
            s,
            match neighbour_page(doc.pages@, doc.active_page, forward) {
                Some(p) => EventResponse::Action(UiAction::ComicDubsSelectPage(p)),
                None => EventResponse::Consumed,
            },
        )
    } else if hit.inspector is Some && match s.selected_bubble {
        Some(b) => find_bubble(doc.bubbles@, b, 0) is Some,
        None => true,
    } {
        match s.selected_bubble {
            None => respond(s, EventResponse::Consumed),
            Some(b) => inspector_answer(
                s,
                find_bubble(doc.bubbles@, b, 0).unwrap(),
                hit.inspector.unwrap(),
            ),
        }
    } else {
        media_stage(s, hit, doc)
    }
}

/// A press on an inspector control for the selected bubble `bubble`.
pub open spec fn inspector_answer(s: WorkspaceState, bubble: BubbleRef, spot: InspectorHit) -> Option<
    (WorkspaceState, WorkspaceOutcome),
> {
    let b = bubble.id;
    match spot {
        InspectorHit::Value(control) => Some(
            (s, WorkspaceOutcome::Inspector { bubble_id: b, control }),
        ),
        InspectorHit::Style(flag) => respond(
            s,
            EventResponse::Action(
                UiAction::ComicDubsSetBubbleTextStyle {
                    bubble_id: b,
                    bold: if flag == StyleFlag::Bold {
                        !bubble.bold
                    } else {
                        bubble.bold
                    },
                    strikethrough: if flag == StyleFlag::Strikethrough {
                        !bubble.strikethrough
                    } else {
                        bubble.strikethrough
                    },
                    underline: if flag == StyleFlag::Underline {
                        !bubble.underline
                    } else {
                        bubble.underline
                    },
                },
            ),
        ),
        InspectorHit::Align(alignment) => respond(
            s,
            EventResponse::Action(
                UiAction::ComicDubsSetBubbleTextAlignment { bubble_id: b, alignment },
            ),
        ),
        InspectorHit::MoveEarlier => respond(
            s,
            EventResponse::Action(UiAction::ComicDubsMoveBubble { bubble_id: b, delta: -1i32 }),
        ),
        InspectorHit::MoveLater => respond(
            s,
            EventResponse::Action(UiAction::ComicDubsMoveBubble { bubble_id: b, delta: 1i32 }),
        ),
        InspectorHit::Delete => respond(
            WorkspaceState { selected_bubble: None, ..s },
            EventResponse::Action(UiAction::ComicDubsRemoveBubble(b)),
        ),
        InspectorHit::Blank => respond(s, EventResponse::Consumed),
    }
}

/// A press on a media row: the row's answer, or taking hold of an audio.
pub open spec fn media_stage(s: WorkspaceState, hit: WorkspaceHit, doc: WorkspaceDoc) -> Option<
    (WorkspaceState, WorkspaceOutcome),
> {
    match hit.media_row {
        Some(m) => if m.row + s.media_scroll <= usize::MAX {
            match media_click_answer(
                s.media_tab,
                (m.row + s.media_scroll) as usize,
                m.zone,
                doc.pages@,
                doc.audios@,
            ) {
                MediaClick::Missed => None,
                MediaClick::Respond(r) => respond(s, r),
                MediaClick::DragAudio(a) => respond(
                    WorkspaceState { dragging_audio: Some(a), ..s },
                    EventResponse::Consumed,
                ),
            }
        } else {
            None
        },
        None => None,
    }
}

/// A pointer move while something is held: the caller moves it; a held
/// drawn vertex notes whether it left its spot.
pub open spec fn move_stage(s: WorkspaceState, event: UiEvent, hit: WorkspaceHit, doc: WorkspaceDoc) -> Option<
    (WorkspaceState, WorkspaceOutcome),
> {
    if event != UiEvent::Pointer(PointerKind::MouseMove) {
        None
    } else if s.dragging_audio is Some {
        respond(s, EventResponse::Consumed)
    } else if doc.active_page is None {
        None
    } else if let Some(d) = s.draft_drag {
        respond(
            WorkspaceState {
                draft_drag: Some(DraftDrag { index: d.index, moved: d.moved || hit.draft_vertex_moved }),
                ..s
            },
            EventResponse::Consumed,
        )
    } else if s.vertex_drag is Some || s.bubble_drag is Some {
        respond(s, EventResponse::Consumed)
    } else {
        None
    }
}

/// A release ends what is held: an audio dropped on a bubble is assigned
/// to it; releasing the first drawn vertex where it was, with at least
/// three points, closes the polygon into a bubble; a moved bubble or
/// vertex is stored if its points changed.
pub open spec fn release_stage(s: WorkspaceState, event: UiEvent, hit: WorkspaceHit, doc: WorkspaceDoc) -> Option<
    (WorkspaceState, WorkspaceOutcome),
> {
    if event != UiEvent::Pointer(PointerKind::MouseRelease) {
        None
    } else if let Some(a) = s.dragging_audio {
        respond(
            WorkspaceState { dragging_audio: None, ..s },
            match (doc.active_page, hit.bubble_at) {
                (Some(_), Some(b)) => EventResponse::Action(
                    UiAction::ComicDubsAssignAudio { bubble_id: b, audio_id: Some(a) },
                ),
                _ => EventResponse::Consumed,
            },
        )
    } else if let Some(d) = s.draft_drag {
        let released = WorkspaceState { draft_drag: None, ..s };
        if d.index == 0 && !d.moved && s.draft_len >= 3 {
            Some(
                (
                    WorkspaceState { draft_len: 0, ..released },
                    WorkspaceOutcome::AddBubble { page_id: doc.active_page.unwrap() },
                ),
            )
        } else {
            respond(released, EventResponse::Consumed)
        }
    } else if let Some(v) = s.vertex_drag {
        let released = WorkspaceState { vertex_drag: None, ..s };
        if !hit.drag_changed {
            respond(released, EventResponse::Consumed)
        } else {
            Some(
                (
                    released,
                    match v.keyframe_at_ms {
                        Some(at) => WorkspaceOutcome::SetVertexKeyframe {
                            bubble_id: v.bubble_id,
                            at_ms: at,
                        },
                        None => WorkspaceOutcome::SetBubblePoints { bubble_id: v.bubble_id },
                    },
                ),
            )
        }
    } else if let Some(b) = s.bubble_drag {
        let released = WorkspaceState { bubble_drag: None, ..s };
        if !hit.drag_changed {
            respond(released, EventResponse::Consumed)
        } else {
            Some((released, WorkspaceOutcome::SetBubblePoints { bubble_id: b }))
        }
    } else {
        None
    }
}

/// Whether `event` closes the polygon being drawn while no page is shown,
/// which has no page to add the bubble to.
pub open spec fn closes_without_page(s: WorkspaceState, event: UiEvent, doc: WorkspaceDoc) -> bool {
    &&& event == UiEvent::Pointer(PointerKind::MouseRelease)
    &&& s.dragging_audio is None
    &&& s.draft_drag matches Some(d) && d.index == 0 && !d.moved
    &&& s.draft_len >= 3
    &&& doc.active_page is None
}

/// A double click on a bubble selects it and starts typing its text.
pub open spec fn double_click_stage(s: WorkspaceState, event: UiEvent, hit: WorkspaceHit, doc: WorkspaceDoc) -> Option<
    (WorkspaceState, WorkspaceOutcome),
> {
    if event == UiEvent::Pointer(PointerKind::DoubleClick) && doc.active_page is Some {
        match hit.bubble_at {
            Some(b) => Some(
                (
                    WorkspaceState { bubble_drag: None, selected_bubble: Some(b), ..s },
                    WorkspaceOutcome::BeginTextEdit { bubble_id: b },
                ),
            ),
            None => None,
        }
    } else {
        None
    }
}

/// A press on the page takes hold of a vertex of the selected bubble, or
/// selects the bubble under the pointer (none on empty page) and takes
/// hold of it.
pub open spec fn page_press_stage(s: WorkspaceState, event: UiEvent, hit: WorkspaceHit, doc: WorkspaceDoc) -> Option<
    (WorkspaceState, WorkspaceOutcome),
> {
    if event == UiEvent::Pointer(PointerKind::MousePress) && doc.active_page is Some && hit.on_page {
        if s.selected_bubble is Some && hit.selected_vertex_at is Some && find_bubble(
            doc.bubbles@,
            s.selected_bubble.unwrap(),
            0,
        ) is Some {
            respond(
                WorkspaceState {
                    vertex_drag: Some(
                        VertexDrag {
                            bubble_id: s.selected_bubble.unwrap(),
                            index: hit.selected_vertex_at.unwrap(),
                            keyframe_at_ms: None,
                        },
                    ),
                    ..s
                },
                EventResponse::Consumed,
            )
        } else {
            respond(
                WorkspaceState {
                    selected_bubble: hit.bubble_at,
                    bubble_drag: match hit.bubble_at {
                        Some(b) => if find_bubble(doc.bubbles@, b, 0) is Some {
                            Some(b)
                        } else {
                            None
                        },
                        None => None,
                    },
                    ..s
                },
                EventResponse::Consumed,
            )
        }
    } else {
        None
    }
}

/// Delete removes the selected bubble.
pub open spec fn delete_stage(s: WorkspaceState, event: UiEvent) -> Option<
    (WorkspaceState, WorkspaceOutcome),
> {
    match (event, s.selected_bubble) {
        (UiEvent::Delete, Some(b)) => respond(
            WorkspaceState { selected_bubble: None, ..s },
            EventResponse::Action(UiAction::ComicDubsRemoveBubble(b)),
        ),
        _ => None,
    }
}

/// A wheel turn over the sidebar scrolls the media list by one row.
pub open spec fn scroll_stage(s: WorkspaceState, event: UiEvent, hit: WorkspaceHit, doc: WorkspaceDoc) -> Option<
    (WorkspaceState, WorkspaceOutcome),
> {
    if event == UiEvent::Pointer(PointerKind::Scroll) && hit.in_sidebar {
        respond(
            WorkspaceState {
                media_scroll: scrolled_row(
                    s.media_scroll,
                    hit.scroll,
                    max_scroll(media_count(s.media_tab, doc), hit.visible_rows),
                ),
                ..s
            },
            EventResponse::Consumed,
        )
    } else {
        None
    }
}

/// What no stage took: a press deselects and lets go; the event is not
/// the workspace's.
pub open spec fn fallback(s: WorkspaceState, event: UiEvent) -> (WorkspaceState, WorkspaceOutcome) {
    if event == UiEvent::Pointer(PointerKind::MousePress) {
        (
            WorkspaceState { selected_bubble: None, bubble_drag: None, ..s },
            WorkspaceOutcome::Respond(EventResponse::Ignored),
        )
    } else {
        (s, WorkspaceOutcome::Respond(EventResponse::Ignored))
    }
}

/// The workspace's answer to `event`: the first stage that takes it, in
/// the order context menu, Escape, Ctrl+click, press while drawing, the
/// panels' presses, move, release, double click, press on the page,
/// Delete, wheel.
pub open spec fn workspace_step_spec(s0: WorkspaceState, event: UiEvent, hit: WorkspaceHit, doc: WorkspaceDoc) -> (
    WorkspaceState,
    WorkspaceOutcome,
) {
    let s = synced(s0, doc, hit.visible_rows);
    if let Some(r) = context_stage(s, event, hit, doc) {
        r
    } else if let Some(r) = escape_stage(s, event) {
        r
    } else if let Some(r) = ctrl_click_stage(s, event, hit, doc) {
        r
    } else if let Some(r) = draft_press_stage(s, event, hit, doc) {
        r
    } else if let Some(r) = panel_stage(s, event, hit, doc) {
        r
    } else if let Some(r) = move_stage(s, event, hit, doc) {
        r
    } else if let Some(r) = release_stage(s, event, hit, doc) {
        r
    } else if let Some(r) = double_click_stage(s, event, hit, doc) {
        r
    } else if let Some(r) = page_press_stage(s, event, hit, doc) {
        r
    } else if let Some(r) = delete_stage(s, event) {
        r
    } else if let Some(r) = scroll_stage(s, event, hit, doc) {
        r
    } else {
        fallback(s, event)
    }
}

/// The first bubble `id` of the document.
fn bubble_of(bubbles: &Vec<BubbleRef>, id: u64) -> (r: Option<BubbleRef>)
    ensures
        r == find_bubble(bubbles@, id, 0),
{
    let mut k: usize = 0;
    while k < bubbles.len()
        invariant
            k <= bubbles@.len(),
            find_bubble(bubbles@, id, 0) == find_bubble(bubbles@, id, k as int),
        decreases bubbles@.len() - k,
    {
        if bubbles[k].id == id {
            return Some(bubbles[k]);
        }
        k = k + 1;
    }
    None
}

fn max_scroll_of(s: &WorkspaceState, doc: &WorkspaceDoc, visible: usize) -> (r: usize)
    ensures
        r == max_scroll(media_count(s.media_tab, *doc), visible),
{
    let count = match s.media_tab {
        MediaTab::Images => doc.pages.len(),
        MediaTab::Audios => doc.audios.len(),
    };
    count.saturating_sub(visible)
}

fn sync_state(s: WorkspaceState, doc: &WorkspaceDoc, visible: usize) -> (r: WorkspaceState)
    ensures
        r == synced(s, *doc, visible),
{
    let m = max_scroll_of(&s, doc, visible);
    let selected_bubble = match s.selected_bubble {
        Some(b) => if bubble_of(&doc.bubbles, b).is_some() {
            Some(b)
        } else {
            None
        },
        None => None,
    };
    WorkspaceState {
        selected_bubble,
        media_scroll: if s.media_scroll <= m {
            s.media_scroll
        } else {
            m
        },
        ..s
    }
}

fn is_pointer(event: &UiEvent, kind: PointerKind) -> (r: bool)
    ensures
        r == (*event == UiEvent::Pointer(kind)),
{
    match event {
        UiEvent::Pointer(k) => *k == kind,
        _ => false,
    }
}

fn respond_with(s: WorkspaceState, r: EventResponse) -> (o: Option<(WorkspaceState, WorkspaceOutcome)>)
    ensures
        o == respond(s, r),
{
    Some((s, WorkspaceOutcome::Respond(r)))
}

fn context_step(s: WorkspaceState, event: &UiEvent, hit: &WorkspaceHit, doc: &WorkspaceDoc) -> (r:
    Option<(WorkspaceState, WorkspaceOutcome)>)
    ensures
        r == context_stage(s, *event, *hit, *doc),
{
    if !(is_pointer(event, PointerKind::ContextMenu) && doc.active_page.is_some()) {
        return None;
    }
    match hit.bubble_at {
        None => respond_with(s, EventResponse::Ignored),
        Some(b) => {
            let answer = match bubble_of(&doc.bubbles, b) {
                Some(bubble) => match bubble.audio_id {
                    Some(a) => EventResponse::Action(
                        UiAction::ComicDubsAssignAudio { bubble_id: b, audio_id: Some(a) },
                    ),
                    None => EventResponse::Consumed,
                },
                None => EventResponse::Consumed,
            };
            respond_with(WorkspaceState { selected_bubble: Some(b), ..s }, answer)
        },
    }
}

fn escape_step(s: WorkspaceState, event: &UiEvent) -> (r: Option<(WorkspaceState, WorkspaceOutcome)>)
    ensures
        r == escape_stage(s, *event),
{
    match event {
        UiEvent::KeyInput { text } => if crate::event::key_is(text, "\x1b") && s.draft_len > 0 {
            respond_with(
                WorkspaceState { draft_len: 0, draft_drag: None, ..s },
                EventResponse::Consumed,
            )
        } else {
            None
        },
        _ => None,
    }
}

fn ctrl_click_step(s: WorkspaceState, event: &UiEvent, hit: &WorkspaceHit, doc: &WorkspaceDoc) -> (r:
    Option<(WorkspaceState, WorkspaceOutcome)>)
    ensures
        r == ctrl_click_stage(s, *event, *hit, *doc),
{
    if is_pointer(event, PointerKind::CtrlClick) && doc.active_page.is_some() && hit.on_page {
        respond_with(
            WorkspaceState { draft_len: 1, selected_bubble: None, ..s },
            EventResponse::Consumed,
        )
    } else {
        None
    }
}

fn draft_press_step(s: WorkspaceState, event: &UiEvent, hit: &WorkspaceHit, doc: &WorkspaceDoc) -> (r:
    Option<(WorkspaceState, WorkspaceOutcome)>)
    ensures
        r == draft_press_stage(s, *event, *hit, *doc),
{
    if !(is_pointer(event, PointerKind::MousePress) && doc.active_page.is_some() && s.draft_len > 0
        && hit.on_page) {
        return None;
    }
    match hit.draft_vertex_at {
        Some(i) => if i < s.draft_len {
            return respond_with(
                WorkspaceState { draft_drag: Some(DraftDrag { index: i, moved: false }), ..s },
                EventResponse::Consumed,
            );
        },
        None => {},
    }
    if s.draft_len < MAX_DRAFT_POINTS {
        respond_with(WorkspaceState { draft_len: s.draft_len + 1, ..s }, EventResponse::Consumed)
    } else {
        respond_with(s, EventResponse::Consumed)
    }
}

fn inspector_step(s: WorkspaceState, bubble: BubbleRef, spot: InspectorHit) -> (r: Option<
    (WorkspaceState, WorkspaceOutcome),
>)
    ensures
        r == inspector_answer(s, bubble, spot),
{
    let b = bubble.id;
    match spot {
        InspectorHit::Value(control) => Some(
            (s, WorkspaceOutcome::Inspector { bubble_id: b, control }),
        ),
        InspectorHit::Style(flag) => {
            let bold = match flag {
                StyleFlag::Bold => !bubble.bold,
                _ => bubble.bold,
            };
            let strikethrough = match flag {
                StyleFlag::Strikethrough => !bubble.strikethrough,
                _ => bubble.strikethrough,
            };
            let underline = match flag {
                StyleFlag::Underline => !bubble.underline,
                _ => bubble.underline,
            };
            respond_with(
                s,
                EventResponse::Action(
                    UiAction::ComicDubsSetBubbleTextStyle {
                        bubble_id: b,
                        bold,
                        strikethrough,
                        underline,
                    },
                ),
            )
        },
        InspectorHit::Align(alignment) => respond_with(
            s,
            EventResponse::Action(
                UiAction::ComicDubsSetBubbleTextAlignment { bubble_id: b, alignment },
            ),
        ),
        InspectorHit::MoveEarlier => respond_with(
            s,
            EventResponse::Action(UiAction::ComicDubsMoveBubble { bubble_id: b, delta: -1i32 }),
        ),
        InspectorHit::MoveLater => respond_with(
            s,
            EventResponse::Action(UiAction::ComicDubsMoveBubble { bubble_id: b, delta: 1i32 }),
        ),
        InspectorHit::Delete => respond_with(
            WorkspaceState { selected_bubble: None, ..s },
            EventResponse::Action(UiAction::ComicDubsRemoveBubble(b)),
        ),
        InspectorHit::Blank => respond_with(s, EventResponse::Consumed),
    }
}

fn media_step(s: WorkspaceState, hit: &WorkspaceHit, doc: &WorkspaceDoc) -> (r: Option<
    (WorkspaceState, WorkspaceOutcome),
>)
    ensures
        r == media_stage(s, *hit, *doc),
{
    let m = match hit.media_row {
        Some(m) => m,
        None => {
            return None;
        },
    };
    let row = match m.row.checked_add(s.media_scroll) {
        Some(row) => row,
        None => {
            return None;
        },
    };
    match media_click(s.media_tab, row, m.zone, &doc.pages, &doc.audios) {
        MediaClick::Missed => None,
        MediaClick::Respond(r) => respond_with(s, r),
        MediaClick::DragAudio(a) => respond_with(
            WorkspaceState { dragging_audio: Some(a), ..s },
            EventResponse::Consumed,
        ),
    }
}

fn panel_step(s: WorkspaceState, event: &UiEvent, hit: &WorkspaceHit, doc: &WorkspaceDoc) -> (r:
    Option<(WorkspaceState, WorkspaceOutcome)>)
    ensures
        r == panel_stage(s, *event, *hit, *doc),
{
    if !is_pointer(event, PointerKind::MousePress) {
        return None;
    }
    if let Some(t) = hit.tab {
        return respond_with(
            WorkspaceState { media_tab: t, media_scroll: 0, ..s },
            EventResponse::Consumed,
        );
    }
    if let Some(forward) = hit.header {
        return respond_with(s, page_step(&doc.pages, doc.active_page, forward));
    }
    if let Some(spot) = hit.inspector {
        match s.selected_bubble {
            None => {
                return respond_with(s, EventResponse::Consumed);
            },
            Some(b) => {
                if let Some(bubble) = bubble_of(&doc.bubbles, b) {
                    return inspector_step(s, bubble, spot);
                }
            },
        }
    }
    media_step(s, hit, doc)
}

fn move_step(s: WorkspaceState, event: &UiEvent, hit: &WorkspaceHit, doc: &WorkspaceDoc) -> (r:
    Option<(WorkspaceState, WorkspaceOutcome)>)
    ensures
        r == move_stage(s, *event, *hit, *doc),
{
    if !is_pointer(event, PointerKind::MouseMove) {
        return None;
    }
    if s.dragging_audio.is_some() {
        return respond_with(s, EventResponse::Consumed);
    }
    if doc.active_page.is_none() {
        return None;
    }
    if let Some(d) = s.draft_drag {
        return respond_with(
            WorkspaceState {
                draft_drag: Some(DraftDrag { index: d.index, moved: d.moved || hit.draft_vertex_moved }),
                ..s
            },
            EventResponse::Consumed,
        );
    }
    if s.vertex_drag.is_some() || s.bubble_drag.is_some() {
        respond_with(s, EventResponse::Consumed)
    } else {
        None
    }
}

fn release_step(s: WorkspaceState, event: &UiEvent, hit: &WorkspaceHit, doc: &WorkspaceDoc) -> (r:
    Option<(WorkspaceState, WorkspaceOutcome)>)
    requires
        !closes_without_page(s, *event, *doc),
    ensures
        r == release_stage(s, *event, *hit, *doc),
{
    if !is_pointer(event, PointerKind::MouseRelease) {
        return None;
    }
    if let Some(a) = s.dragging_audio {
        let answer = match (doc.active_page, hit.bubble_at) {
            (Some(_), Some(b)) => EventResponse::Action(
                UiAction::ComicDubsAssignAudio { bubble_id: b, audio_id: Some(a) },
            ),
            _ => EventResponse::Consumed,
        };
        return respond_with(WorkspaceState { dragging_audio: None, ..s }, answer);
    }
    if let Some(d) = s.draft_drag {
        let released = WorkspaceState { draft_drag: None, ..s };
        if d.index == 0 && !d.moved && s.draft_len >= 3 {
            let p = doc.active_page.unwrap();
            return Some(
                (
                    WorkspaceState { draft_len: 0, ..released },
                    WorkspaceOutcome::AddBubble { page_id: p },
                ),
            );
        }
        return respond_with(released, EventResponse::Consumed);
    }
    if let Some(v) = s.vertex_drag {
        let released = WorkspaceState { vertex_drag: None, ..s };
        if !hit.drag_changed {
            return respond_with(released, EventResponse::Consumed);
        }
        let outcome = match v.keyframe_at_ms {
            Some(at) => WorkspaceOutcome::SetVertexKeyframe { bubble_id: v.bubble_id, at_ms: at },
            None => WorkspaceOutcome::SetBubblePoints { bubble_id: v.bubble_id },
        };
        return Some((released, outcome));
    }
    if let Some(b) = s.bubble_drag {
        let released = WorkspaceState { bubble_drag: None, ..s };
        if !hit.drag_changed {
            return respond_with(released, EventResponse::Consumed);
        }
        return Some((released, WorkspaceOutcome::SetBubblePoints { bubble_id: b }));
    }
    None
}

fn double_click_step(s: WorkspaceState, event: &UiEvent, hit: &WorkspaceHit, doc: &WorkspaceDoc) -> (r:
    Option<(WorkspaceState, WorkspaceOutcome)>)
    ensures
        r == double_click_stage(s, *event, *hit, *doc),
{
    if !(is_pointer(event, PointerKind::DoubleClick) && doc.active_page.is_some()) {
        return None;
    }
    match hit.bubble_at {
        Some(b) => Some(
            (
                WorkspaceState { bubble_drag: None, selected_bubble: Some(b), ..s },
                WorkspaceOutcome::BeginTextEdit { bubble_id: b },
            ),
        ),
        None => None,
    }
}

fn page_press_step(s: WorkspaceState, event: &UiEvent, hit: &WorkspaceHit, doc: &WorkspaceDoc) -> (r:
    Option<(WorkspaceState, WorkspaceOutcome)>)
    ensures
        r == page_press_stage(s, *event, *hit, *doc),
{
    if !(is_pointer(event, PointerKind::MousePress) && doc.active_page.is_some() && hit.on_page) {
        return None;
    }
    if let (Some(b), Some(i)) = (s.selected_bubble, hit.selected_vertex_at) {
        if bubble_of(&doc.bubbles, b).is_some() {
            return respond_with(
                WorkspaceState {
                    vertex_drag: Some(VertexDrag { bubble_id: b, index: i, keyframe_at_ms: None }),
                    ..s
                },
                EventResponse::Consumed,
            );
        }
    }
    let bubble_drag = match hit.bubble_at {
        Some(b) => if bubble_of(&doc.bubbles, b).is_some() {
            Some(b)
        } else {
            None
        },
        None => None,
    };
    respond_with(
        WorkspaceState { selected_bubble: hit.bubble_at, bubble_drag, ..s },
        EventResponse::Consumed,
    )
}

fn delete_step(s: WorkspaceState, event: &UiEvent) -> (r: Option<(WorkspaceState, WorkspaceOutcome)>)
    ensures
        r == delete_stage(s, *event),
{
    match (event, s.selected_bubble) {
        (UiEvent::Delete, Some(b)) => respond_with(
            WorkspaceState { selected_bubble: None, ..s },
            EventResponse::Action(UiAction::ComicDubsRemoveBubble(b)),
        ),
        _ => None,
    }
}

fn scroll_step(s: WorkspaceState, event: &UiEvent, hit: &WorkspaceHit, doc: &WorkspaceDoc) -> (r:
    Option<(WorkspaceState, WorkspaceOutcome)>)
    ensures
        r == scroll_stage(s, *event, *hit, *doc),
{
    if is_pointer(event, PointerKind::Scroll) && hit.in_sidebar {
        let m = max_scroll_of(&s, doc, hit.visible_rows);
        respond_with(
            WorkspaceState { media_scroll: scroll_rows(s.media_scroll, hit.scroll, m), ..s },
            EventResponse::Consumed,
        )
    } else {
        None
    }
}

/// The workspace's answer to `event`, `hit` being what lies under its
/// position and `doc` the document; see `workspace_step_spec`. A typed
/// bubble text is handled before, by `comic_dubs::handle_text_edit`.
/// Closing a polygon needs the page it is drawn on to be shown.
pub fn workspace_step(s: WorkspaceState, event: &UiEvent, hit: &WorkspaceHit, doc: &WorkspaceDoc) -> (r:
    (WorkspaceState, WorkspaceOutcome))
    requires
        !closes_without_page(s, *event, *doc),
    ensures
        r == workspace_step_spec(s, *event, *hit, *doc),
{
    let s = sync_state(s, doc, hit.visible_rows);
    if let Some(r) = context_step(s, event, hit, doc) {
        return r;
    }
    if let Some(r) = escape_step(s, event) {
        return r;
    }
    if let Some(r) = ctrl_click_step(s, event, hit, doc) {
        return r;
    }
    if let Some(r) = draft_press_step(s, event, hit, doc) {
        return r;
    }
    if let Some(r) = panel_step(s, event, hit, doc) {
        return r;
    }
    if let Some(r) = move_step(s, event, hit, doc) {
        return r;
    }
    if let Some(r) = release_step(s, event, hit, doc) {
        return r;
    }
    if let Some(r) = double_click_step(s, event, hit, doc) {
        return r;
    }
    if let Some(r) = page_press_step(s, event, hit, doc) {
        return r;
    }
    if let Some(r) = delete_step(s, event) {
        return r;
    }
    if let Some(r) = scroll_step(s, event, hit, doc) {
        return r;
    }
    if is_pointer(event, PointerKind::MousePress) {
        (
            WorkspaceState { selected_bubble: None, bubble_drag: None, ..s },
            WorkspaceOutcome::Respond(EventResponse::Ignored),
        )
    } else {
        (s, WorkspaceOutcome::Respond(EventResponse::Ignored))
    }
}

/// What lies under the pointer of an event while the vertex editor is open.
#[derive(Clone, Copy, Debug, PartialEq, Eq, Structural)]
pub struct VertexEditorHit {
    /// Transport button under the pointer.
    pub button: Option<TimelineButton>,
    /// Instant of the timeline track under the pointer, snapped to a nearby
    /// keyframe marker.
    pub track_ms: Option<u64>,
    /// Vertex of the edited pose under the pointer, on the shown page.
    pub vertex_at: Option<usize>,
    /// On a release ending a vertex drag: whether the pose changed.
    pub drag_changed: bool,
}

/// The vertex editor of bubble `b` after the timeline answered `o`, and
/// what the workspace answers.
pub open spec fn timeline_answer(
    b: u64,
    t: VertexTimeline,
    o: TimelineOutcome,
    drag: Option<VertexDrag>,
) -> (Option<(u64, VertexTimeline)>, Option<VertexDrag>, WorkspaceOutcome) {
    match o {
        TimelineOutcome::Close => (None, None, WorkspaceOutcome::Respond(EventResponse::Consumed)),
        TimelineOutcome::Consumed => (
            Some((b, t)),
            drag,
            WorkspaceOutcome::Respond(EventResponse::Consumed),
        ),
        TimelineOutcome::SetKeyframe { at_ms } => (
            Some((b, t)),
            drag,
            WorkspaceOutcome::SetVertexKeyframe { bubble_id: b, at_ms },
        ),
        TimelineOutcome::RemoveKeyframe { at_ms } => (
            Some((b, t)),
            drag,
            WorkspaceOutcome::Respond(
                EventResponse::Action(
                    UiAction::ComicDubsRemoveBubbleVertexKeyframe { bubble_id: b, at_ms },
                ),
            ),
        ),
    }
}

/// The answer to `event` while the vertex editor of a bubble is open:
/// `keyframes` and `duration_ms` are that bubble's keyframe instants and
/// timeline span, `bubble_exists` whether the document still has it and
/// `page_shown` whether its page is shown. A press on a transport button,
/// on the track or on a vertex of the pose; a release storing a dragged
/// pose as the keyframe at the playhead; keys as the timeline takes them.
pub open spec fn vertex_editor_spec(
    editor: Option<(u64, VertexTimeline)>,
    drag: Option<VertexDrag>,
    event: UiEvent,
    hit: VertexEditorHit,
    keyframes: Seq<u64>,
    duration_ms: u64,
    bubble_exists: bool,
    page_shown: bool,
) -> (Option<(u64, VertexTimeline)>, Option<VertexDrag>, WorkspaceOutcome) {
    match editor {
        None => (editor, drag, WorkspaceOutcome::Respond(EventResponse::Ignored)),
        Some((b, t)) => if !bubble_exists {
            (None, drag, WorkspaceOutcome::Respond(EventResponse::Consumed))
        } else if event == UiEvent::Pointer(PointerKind::MousePress) {
            if let Some(button) = hit.button {
                let (t2, o) = button_step(t, button, keyframes, duration_ms);
                timeline_answer(b, t2, o, drag)
            } else if let Some(at) = hit.track_ms {
                (
                    Some((b, moved_to(at, keyframes, duration_ms))),
                    drag,
                    WorkspaceOutcome::Respond(EventResponse::Consumed),
                )
            } else if page_shown && hit.vertex_at is Some {
                (
                    Some((b, VertexTimeline { playing_from: None, ..t })),
                    Some(
                        VertexDrag {
                            bubble_id: b,
                            index: hit.vertex_at.unwrap(),
                            keyframe_at_ms: Some(t.playhead_ms),
                        },
                    ),
                    WorkspaceOutcome::Respond(EventResponse::Consumed),
                )
            } else {
                (editor, drag, WorkspaceOutcome::Respond(EventResponse::Consumed))
            }
        } else if event == UiEvent::Pointer(PointerKind::MouseRelease) {
            match drag {
                Some(d) => if hit.drag_changed {
                    (
                        Some((b, VertexTimeline { selected_keyframe: d.keyframe_at_ms, ..t })),
                        None,
                        WorkspaceOutcome::SetVertexKeyframe {
                            bubble_id: d.bubble_id,
                            at_ms: d.keyframe_at_ms.unwrap(),
                        },
                    )
                } else {
                    (editor, None, WorkspaceOutcome::Respond(EventResponse::Consumed))
                },
                None => (editor, None, WorkspaceOutcome::Respond(EventResponse::Consumed)),
            }
        } else {
            let (t2, o) = timeline_key_step(t, event, keyframes, duration_ms);
            timeline_answer(b, t2, o, drag)
        },
    }
}

fn timeline_reply(b: u64, t: VertexTimeline, o: TimelineOutcome, drag: Option<VertexDrag>) -> (r: (
    Option<(u64, VertexTimeline)>,
    Option<VertexDrag>,
    WorkspaceOutcome,
))
    ensures
        r == timeline_answer(b, t, o, drag),
{
    match o {
        TimelineOutcome::Close => (None, None, WorkspaceOutcome::Respond(EventResponse::Consumed)),
        TimelineOutcome::Consumed => (
            Some((b, t)),
            drag,
            WorkspaceOutcome::Respond(EventResponse::Consumed),
        ),
        TimelineOutcome::SetKeyframe { at_ms } => (
            Some((b, t)),
            drag,
            WorkspaceOutcome::SetVertexKeyframe { bubble_id: b, at_ms },
        ),
        TimelineOutcome::RemoveKeyframe { at_ms } => (
            Some((b, t)),
            drag,
            WorkspaceOutcome::Respond(
                EventResponse::Action(
                    UiAction::ComicDubsRemoveBubbleVertexKeyframe { bubble_id: b, at_ms },
                ),
            ),
        ),
    }
}

/// Whether `event` stores a dragged pose that belongs to no keyframe,
/// which the vertex editor has no instant for.
pub open spec fn stores_unkeyed_pose(
    editor: Option<(u64, VertexTimeline)>,
    drag: Option<VertexDrag>,
    event: UiEvent,
    hit: VertexEditorHit,
    bubble_exists: bool,
) -> bool {
    &&& editor is Some
    &&& bubble_exists
    &&& event == UiEvent::Pointer(PointerKind::MouseRelease)
    &&& drag matches Some(d) && d.keyframe_at_ms is None
    &&& hit.drag_changed
}

/// The vertex editor's answer to `event` (see `vertex_editor_spec`); a
/// dragged pose is stored at the keyframe the drag started at.
pub fn vertex_editor_step(
    editor: Option<(u64, VertexTimeline)>,
    drag: Option<VertexDrag>,
    event: &UiEvent,
    hit: &VertexEditorHit,
    keyframes: &Vec<u64>,
    duration_ms: u64,
    bubble_exists: bool,
    page_shown: bool,
) -> (r: (Option<(u64, VertexTimeline)>, Option<VertexDrag>, WorkspaceOutcome))
    requires
        !stores_unkeyed_pose(editor, drag, *event, *hit, bubble_exists),
    ensures
        r == vertex_editor_spec(
            editor,
            drag,
            *event,
            *hit,
            keyframes@,
            duration_ms,
            bubble_exists,
            page_shown,
        ),
{
    let (b, t) = match editor {
        None => {
            return (editor, drag, WorkspaceOutcome::Respond(EventResponse::Ignored));
        },
        Some(e) => e,
    };
    if !bubble_exists {
        return (None, drag, WorkspaceOutcome::Respond(EventResponse::Consumed));
    }
    let mut t = t;
    if is_pointer(event, PointerKind::MousePress) {
        if let Some(button) = hit.button {
            let o = t.press(button, keyframes, duration_ms);
            return timeline_reply(b, t, o, drag);
        }
        if let Some(at) = hit.track_ms {
            t.set_playhead(at, keyframes, duration_ms);
            return (Some((b, t)), drag, WorkspaceOutcome::Respond(EventResponse::Consumed));
        }
        if page_shown {
            if let Some(i) = hit.vertex_at {
                let at = t.playhead_ms;
                t.playing_from = None;
                return (
                    Some((b, t)),
                    Some(VertexDrag { bubble_id: b, index: i, keyframe_at_ms: Some(at) }),
                    WorkspaceOutcome::Respond(EventResponse::Consumed),
                );
            }
        }
        return (editor, drag, WorkspaceOutcome::Respond(EventResponse::Consumed));
    }
    if is_pointer(event, PointerKind::MouseRelease) {
        if let Some(d) = drag {
            if hit.drag_changed {
                t.selected_keyframe = d.keyframe_at_ms;
                let at = d.keyframe_at_ms.unwrap();
                return (
                    Some((b, t)),
                    None,
                    WorkspaceOutcome::SetVertexKeyframe { bubble_id: d.bubble_id, at_ms: at },
                );
            }
        }
        return (editor, None, WorkspaceOutcome::Respond(EventResponse::Consumed));
    }
    let o = t.handle_key(event, keyframes, duration_ms);
    timeline_reply(b, t, o, drag)
}

/// The polygon being drawn never grows past `MAX_DRAFT_POINTS` points.
pub proof fn lemma_draft_stays_bounded(s: WorkspaceState, event: UiEvent, hit: WorkspaceHit, doc: WorkspaceDoc)
    requires
        s.draft_len <= MAX_DRAFT_POINTS,
    ensures
        workspace_step_spec(s, event, hit, doc).0.draft_len <= MAX_DRAFT_POINTS,
{
}

/// Escape while a polygon is being drawn drops it, and only it.
pub proof fn lemma_escape_cancels_draft(s: WorkspaceState, text: String, hit: WorkspaceHit, doc: WorkspaceDoc)
    requires
        text@ == "\x1b"@,
        s.draft_len > 0,
    ensures
        ({
            let (t, r) = workspace_step_spec(s, UiEvent::KeyInput { text }, hit, doc);
            &&& t.draft_len == 0
            &&& t.draft_drag is None
            &&& r == WorkspaceOutcome::Respond(EventResponse::Consumed)
            &&& t.vertex_drag == s.vertex_drag && t.bubble_drag == s.bubble_drag
            &&& t.dragging_audio == s.dragging_audio && t.media_tab == s.media_tab
        }),
{
}

/// A Ctrl+click inside the active page starts a polygon of one point and
/// clears the selection.
pub proof fn lemma_ctrl_click_starts_draft(s: WorkspaceState, hit: WorkspaceHit, doc: WorkspaceDoc)
    requires
        doc.active_page is Some,
        hit.on_page,
    ensures
        ({
            let (t, r) = workspace_step_spec(
                s,
                UiEvent::Pointer(PointerKind::CtrlClick),
                hit,
                doc,
            );
            &&& t.draft_len == 1
            &&& t.selected_bubble is None
            &&& r == WorkspaceOutcome::Respond(EventResponse::Consumed)
        }),
{
}

/// Releasing the first vertex of a polygon of at least three points where
/// it was pressed closes it into a bubble of the active page.
pub proof fn lemma_release_on_first_vertex_adds_bubble(
    s: WorkspaceState,
    hit: WorkspaceHit,
    doc: WorkspaceDoc,
)
    requires
        s.dragging_audio is None,
        s.draft_drag == Some(DraftDrag { index: 0, moved: false }),
        s.draft_len >= 3,
        doc.active_page is Some,
    ensures
        ({
            let (t, r) = workspace_step_spec(
                s,
                UiEvent::Pointer(PointerKind::MouseRelease),
                hit,
                doc,
            );
            &&& r == WorkspaceOutcome::AddBubble { page_id: doc.active_page.unwrap() }
            &&& t.draft_len == 0
            &&& t.draft_drag is None
        }),
{
}

/// Delete with a bubble of the document selected removes that bubble and
/// clears the selection.
pub proof fn lemma_delete_removes_selected(s: WorkspaceState, hit: WorkspaceHit, doc: WorkspaceDoc)
    requires
        s.selected_bubble is Some,
        find_bubble(doc.bubbles@, s.selected_bubble.unwrap(), 0) is Some,
    ensures
        ({
            let (t, r) = workspace_step_spec(s, UiEvent::Delete, hit, doc);
            &&& r == WorkspaceOutcome::Respond(
                EventResponse::Action(UiAction::ComicDubsRemoveBubble(s.selected_bubble.unwrap())),
            )
            &&& t.selected_bubble is None
        }),
{
}

/// A context menu on a bubble of the active page selects it, and offers
/// its audio when it has one.
pub proof fn lemma_context_menu_selects_bubble(
    s: WorkspaceState,
    hit: WorkspaceHit,
    doc: WorkspaceDoc,
    bubble: BubbleRef,
)
    requires
        doc.active_page is Some,
        hit.bubble_at == Some(bubble.id),
        find_bubble(doc.bubbles@, bubble.id, 0) == Some(bubble),
    ensures
        ({
            let (t, r) = workspace_step_spec(
                s,
                UiEvent::Pointer(PointerKind::ContextMenu),
                hit,
                doc,
            );
            &&& t.selected_bubble == Some(bubble.id)
            &&& r == WorkspaceOutcome::Respond(
                match bubble.audio_id {
                    Some(a) => EventResponse::Action(
                        UiAction::ComicDubsAssignAudio { bubble_id: bubble.id, audio_id: Some(a) },
                    ),
                    None => EventResponse::Consumed,
                },
            )
        }),
{
}

/// Escape closes an open vertex editor and lets go of a held vertex.
pub proof fn lemma_escape_closes_vertex_editor(
    editor: Option<(u64, VertexTimeline)>,
    drag: Option<VertexDrag>,
    text: String,
    hit: VertexEditorHit,
    keyframes: Seq<u64>,
    duration_ms: u64,
    page_shown: bool,
)
    requires
        editor is Some,
        text@ == "\x1b"@,
    ensures
        vertex_editor_spec(
            editor,
            drag,
            UiEvent::KeyInput { text },
            hit,
            keyframes,
            duration_ms,
            true,
            page_shown,
        ) == (
            None::<(u64, VertexTimeline)>,
            None::<VertexDrag>,
            WorkspaceOutcome::Respond(EventResponse::Consumed),
        ),
{
}

/// Releasing a vertex dragged in the vertex editor, the pose changed,
/// stores it as the keyframe at the playhead the drag started at, which
/// becomes selected.
pub proof fn lemma_vertex_editor_drag_stores_keyframe(
    b: u64,
    t: VertexTimeline,
    d: VertexDrag,
    at: u64,
    hit: VertexEditorHit,
    keyframes: Seq<u64>,
    duration_ms: u64,
    page_shown: bool,
)
    requires
        d.keyframe_at_ms == Some(at),
        hit.drag_changed,
    ensures
        vertex_editor_spec(
            Some((b, t)),
            Some(d),
            UiEvent::Pointer(PointerKind::MouseRelease),
            hit,
            keyframes,
            duration_ms,
            true,
            page_shown,
        ) == (
            Some((b, VertexTimeline { selected_keyframe: Some(at), ..t })),
            None::<VertexDrag>,
            WorkspaceOutcome::SetVertexKeyframe { bubble_id: d.bubble_id, at_ms: at },
        ),
{
}

} // verus!
