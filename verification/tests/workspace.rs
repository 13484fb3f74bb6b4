use coquerythmo_ui::comic_dubs::{
    MediaTab, MediaZone, ScrollDirection, TimelineButton, VertexTimeline,
};
use coquerythmo_ui::event::{EventResponse, PointerKind, TextAlignment, UiAction, UiEvent};
use coquerythmo_ui::workspace::{
    vertex_editor_step, workspace_step, BubbleRef, DraftDrag, InspectorHit, MediaRowHit,
    StyleFlag, ValueControl, VertexDrag, VertexEditorHit, WorkspaceDoc, WorkspaceHit,
    WorkspaceOutcome, WorkspaceState,
};

/// A pointer over nothing of the workspace.
fn nowhere() -> WorkspaceHit {
    WorkspaceHit {
        on_page: false,
        bubble_at: None,
        draft_vertex_at: None,
        selected_vertex_at: None,
        tab: None,
        header: None,
        inspector: None,
        media_row: None,
        in_sidebar: false,
        visible_rows: 10,
        scroll: ScrollDirection::Still,
        draft_vertex_moved: false,
        drag_changed: false,
    }
}

fn on_page() -> WorkspaceHit {
    WorkspaceHit { on_page: true, ..nowhere() }
}

fn on_bubble(id: u64) -> WorkspaceHit {
    WorkspaceHit { on_page: true, bubble_at: Some(id), ..nowhere() }
}

fn bubble(id: u64, audio_id: Option<u64>) -> BubbleRef {
    BubbleRef { id, audio_id, bold: false, strikethrough: false, underline: false }
}

/// One page (1) with bubble 10, two audios.
fn doc() -> WorkspaceDoc {
    WorkspaceDoc {
        active_page: Some(1),
        pages: vec![1, 2],
        audios: vec![40, 41],
        bubbles: vec![bubble(10, None)],
    }
}

fn pointer(kind: PointerKind) -> UiEvent {
    UiEvent::Pointer(kind)
}

fn consumed() -> WorkspaceOutcome {
    WorkspaceOutcome::Respond(EventResponse::Consumed)
}

#[test]
fn ctrl_click_then_clicks_close_a_polygon_on_the_first_vertex() {
    let doc = doc();
    let (ui, outcome) =
        workspace_step(WorkspaceState::new(), &pointer(PointerKind::CtrlClick), &on_page(), &doc);
    assert_eq!(outcome, consumed());
    assert_eq!(ui.draft_len, 1);
    let press = pointer(PointerKind::MousePress);
    let (ui, outcome) = workspace_step(ui, &press, &on_page(), &doc);
    assert_eq!(outcome, consumed());
    let (ui, outcome) = workspace_step(ui, &press, &on_page(), &doc);
    assert_eq!(outcome, consumed());
    assert_eq!(ui.draft_len, 3);
    let first = WorkspaceHit { draft_vertex_at: Some(0), ..on_page() };
    let (ui, outcome) = workspace_step(ui, &press, &first, &doc);
    assert_eq!(outcome, consumed());
    assert_eq!(ui.draft_drag, Some(DraftDrag { index: 0, moved: false }));
    let (ui, outcome) = workspace_step(ui, &pointer(PointerKind::MouseRelease), &first, &doc);
    assert_eq!(outcome, WorkspaceOutcome::AddBubble { page_id: 1 });
    assert_eq!(ui.draft_len, 0);
}

#[test]
fn a_draft_vertex_can_be_moved_before_closing() {
    let doc = doc();
    let press = pointer(PointerKind::MousePress);
    let (ui, _) =
        workspace_step(WorkspaceState::new(), &pointer(PointerKind::CtrlClick), &on_page(), &doc);
    let (ui, _) = workspace_step(ui, &press, &on_page(), &doc);
    let (ui, _) = workspace_step(ui, &press, &on_page(), &doc);
    let second = WorkspaceHit { draft_vertex_at: Some(1), ..on_page() };
    let (ui, _) = workspace_step(ui, &press, &second, &doc);
    let moving = WorkspaceHit { draft_vertex_moved: true, ..on_page() };
    let (ui, outcome) = workspace_step(ui, &pointer(PointerKind::MouseMove), &moving, &doc);
    assert_eq!(outcome, consumed());
    assert_eq!(ui.draft_drag, Some(DraftDrag { index: 1, moved: true }));
    let (mut ui, outcome) = workspace_step(ui, &pointer(PointerKind::MouseRelease), &on_page(), &doc);
    assert_eq!(outcome, consumed());
    assert_eq!(ui.draft_len, 3);
    let mut no_editor = None;
    assert!(ui.cancel_draft(&mut no_editor));
    assert_eq!(ui.draft_len, 0);
    assert!(!ui.cancel_draft(&mut no_editor));
}

#[test]
fn a_moved_first_vertex_does_not_close_the_polygon() {
    let doc = doc();
    let press = pointer(PointerKind::MousePress);
    let (ui, _) =
        workspace_step(WorkspaceState::new(), &pointer(PointerKind::CtrlClick), &on_page(), &doc);
    let (ui, _) = workspace_step(ui, &press, &on_page(), &doc);
    let (ui, _) = workspace_step(ui, &press, &on_page(), &doc);
    let first = WorkspaceHit { draft_vertex_at: Some(0), ..on_page() };
    let (ui, _) = workspace_step(ui, &press, &first, &doc);
    let moving = WorkspaceHit { draft_vertex_moved: true, ..on_page() };
    let (ui, _) = workspace_step(ui, &pointer(PointerKind::MouseMove), &moving, &doc);
    let (ui, outcome) = workspace_step(ui, &pointer(PointerKind::MouseRelease), &first, &doc);
    assert_eq!(outcome, consumed());
    assert_eq!(ui.draft_len, 3);
}

#[test]
fn single_click_selects_and_drag_moves_without_editing_text() {
    let doc = doc();
    let (ui, outcome) =
        workspace_step(WorkspaceState::new(), &pointer(PointerKind::MousePress), &on_bubble(10), &doc);
    assert_eq!(outcome, consumed());
    assert_eq!(ui.selected_bubble, Some(10));
    assert_eq!(ui.bubble_drag, Some(10));
    let (ui, outcome) = workspace_step(ui, &pointer(PointerKind::MouseMove), &on_page(), &doc);
    assert_eq!(outcome, consumed());
    let moved = WorkspaceHit { drag_changed: true, ..on_page() };
    let (ui, outcome) = workspace_step(ui, &pointer(PointerKind::MouseRelease), &moved, &doc);
    assert_eq!(outcome, WorkspaceOutcome::SetBubblePoints { bubble_id: 10 });
    let (ui, outcome) = workspace_step(ui, &UiEvent::Delete, &nowhere(), &doc);
    assert_eq!(
        outcome,
        WorkspaceOutcome::Respond(EventResponse::Action(UiAction::ComicDubsRemoveBubble(10)))
    );
    assert_eq!(ui.selected_bubble, None);
}

#[test]
fn selected_vertices_move_independently_and_empty_canvas_deselects() {
    let doc = doc();
    let press = pointer(PointerKind::MousePress);
    let release = pointer(PointerKind::MouseRelease);
    let (ui, _) = workspace_step(WorkspaceState::new(), &press, &on_bubble(10), &doc);
    let (ui, outcome) = workspace_step(ui, &release, &on_bubble(10), &doc);
    assert_eq!(outcome, consumed());
    let vertex = WorkspaceHit { selected_vertex_at: Some(0), ..on_bubble(10) };
    let (ui, _) = workspace_step(ui, &press, &vertex, &doc);
    assert_eq!(ui.vertex_drag, Some(VertexDrag { bubble_id: 10, index: 0, keyframe_at_ms: None }));
    let moved = WorkspaceHit { drag_changed: true, ..on_page() };
    let (ui, outcome) = workspace_step(ui, &release, &moved, &doc);
    assert_eq!(outcome, WorkspaceOutcome::SetBubblePoints { bubble_id: 10 });
    let (ui, outcome) = workspace_step(ui, &press, &on_page(), &doc);
    assert_eq!(outcome, consumed());
    assert_eq!(ui.selected_bubble, None);
}

#[test]
fn audio_drag_assigns_and_right_click_plays_the_drop_target_bubble() {
    let mut doc = doc();
    let ui = WorkspaceState { media_tab: MediaTab::Audios, ..WorkspaceState::new() };
    let row = WorkspaceHit {
        in_sidebar: true,
        media_row: Some(MediaRowHit { row: 0, zone: MediaZone::Body }),
        ..nowhere()
    };
    let (ui, outcome) = workspace_step(ui, &pointer(PointerKind::MousePress), &row, &doc);
    assert_eq!(outcome, consumed());
    assert_eq!(ui.dragging_audio, Some(40));
    let (ui, outcome) = workspace_step(ui, &pointer(PointerKind::MouseRelease), &on_bubble(10), &doc);
    assert_eq!(
        outcome,
        WorkspaceOutcome::Respond(EventResponse::Action(UiAction::ComicDubsAssignAudio {
            bubble_id: 10,
            audio_id: Some(40),
        }))
    );
    doc.bubbles[0].audio_id = Some(40);
    let (ui, outcome) = workspace_step(ui, &pointer(PointerKind::ContextMenu), &on_bubble(10), &doc);
    assert_eq!(
        outcome,
        WorkspaceOutcome::Respond(EventResponse::Action(UiAction::ComicDubsAssignAudio {
            bubble_id: 10,
            audio_id: Some(40),
        }))
    );
    assert_eq!(ui.selected_bubble, Some(10));
}

#[test]
fn a_context_menu_off_any_bubble_is_not_the_workspace_s() {
    let (_, outcome) =
        workspace_step(WorkspaceState::new(), &pointer(PointerKind::ContextMenu), &on_page(), &doc());
    assert_eq!(outcome, WorkspaceOutcome::Respond(EventResponse::Ignored));
}

#[test]
fn escape_cancels_the_polygon_being_drawn() {
    let doc = doc();
    let (ui, _) =
        workspace_step(WorkspaceState::new(), &pointer(PointerKind::CtrlClick), &on_page(), &doc);
    let (ui, outcome) = workspace_step(ui, &UiEvent::KeyInput { text: "\x1b".into() }, &nowhere(), &doc);
    assert_eq!(outcome, consumed());
    assert_eq!(ui.draft_len, 0);
    let (_, outcome) = workspace_step(ui, &UiEvent::KeyInput { text: "\x1b".into() }, &nowhere(), &doc);
    assert_eq!(outcome, WorkspaceOutcome::Respond(EventResponse::Ignored));
}

#[test]
fn the_polygon_being_drawn_stops_at_128_points() {
    let doc = doc();
    let ui = WorkspaceState { draft_len: 128, ..WorkspaceState::new() };
    let (ui, outcome) = workspace_step(ui, &pointer(PointerKind::MousePress), &on_page(), &doc);
    assert_eq!(outcome, consumed());
    assert_eq!(ui.draft_len, 128);
}

#[test]
fn inspector_buttons_answer_for_the_selected_bubble() {
    let mut doc = doc();
    doc.bubbles[0].bold = true;
    let selected = WorkspaceState { selected_bubble: Some(10), ..WorkspaceState::new() };
    let at = |spot| WorkspaceHit { inspector: Some(spot), ..nowhere() };
    let press = pointer(PointerKind::MousePress);
    let (_, outcome) = workspace_step(selected, &press, &at(InspectorHit::Style(StyleFlag::Bold)), &doc);
    assert_eq!(
        outcome,
        WorkspaceOutcome::Respond(EventResponse::Action(UiAction::ComicDubsSetBubbleTextStyle {
            bubble_id: 10,
            bold: false,
            strikethrough: false,
            underline: false,
        }))
    );
    let (_, outcome) =
        workspace_step(selected, &press, &at(InspectorHit::Align(TextAlignment::Right)), &doc);
    assert_eq!(
        outcome,
        WorkspaceOutcome::Respond(EventResponse::Action(UiAction::ComicDubsSetBubbleTextAlignment {
            bubble_id: 10,
            alignment: TextAlignment::Right,
        }))
    );
    let (_, outcome) = workspace_step(selected, &press, &at(InspectorHit::MoveEarlier), &doc);
    assert_eq!(
        outcome,
        WorkspaceOutcome::Respond(EventResponse::Action(UiAction::ComicDubsMoveBubble {
            bubble_id: 10,
            delta: -1,
        }))
    );
    let (_, outcome) =
        workspace_step(selected, &press, &at(InspectorHit::Value(ValueControl::FontLarger)), &doc);
    assert_eq!(
        outcome,
        WorkspaceOutcome::Inspector { bubble_id: 10, control: ValueControl::FontLarger }
    );
    let (ui, outcome) = workspace_step(selected, &press, &at(InspectorHit::Delete), &doc);
    assert_eq!(
        outcome,
        WorkspaceOutcome::Respond(EventResponse::Action(UiAction::ComicDubsRemoveBubble(10)))
    );
    assert_eq!(ui.selected_bubble, None);
    let (_, outcome) =
        workspace_step(WorkspaceState::new(), &press, &at(InspectorHit::MoveLater), &doc);
    assert_eq!(outcome, consumed());
}

#[test]
fn tabs_header_and_wheel() {
    let doc = doc();
    let press = pointer(PointerKind::MousePress);
    let scrolled = WorkspaceState { media_scroll: 1, ..WorkspaceState::new() };
    let tab = WorkspaceHit { tab: Some(MediaTab::Audios), ..nowhere() };
    let (ui, outcome) = workspace_step(scrolled, &press, &tab, &doc);
    assert_eq!(outcome, consumed());
    assert_eq!(ui.media_tab, MediaTab::Audios);
    assert_eq!(ui.media_scroll, 0);
    let next = WorkspaceHit { header: Some(true), ..nowhere() };
    let (_, outcome) = workspace_step(ui, &press, &next, &doc);
    assert_eq!(
        outcome,
        WorkspaceOutcome::Respond(EventResponse::Action(UiAction::ComicDubsSelectPage(2)))
    );
    let wheel = WorkspaceHit {
        in_sidebar: true,
        visible_rows: 1,
        scroll: ScrollDirection::Down,
        ..nowhere()
    };
    let (ui, outcome) = workspace_step(WorkspaceState::new(), &pointer(PointerKind::Scroll), &wheel, &doc);
    assert_eq!(outcome, consumed());
    assert_eq!(ui.media_scroll, 1);
    let (ui, _) = workspace_step(ui, &pointer(PointerKind::Scroll), &wheel, &doc);
    assert_eq!(ui.media_scroll, 1);
}

#[test]
fn a_double_click_on_a_bubble_starts_typing_and_gone_bubbles_are_deselected() {
    let doc = doc();
    let (ui, outcome) =
        workspace_step(WorkspaceState::new(), &pointer(PointerKind::DoubleClick), &on_bubble(10), &doc);
    assert_eq!(outcome, WorkspaceOutcome::BeginTextEdit { bubble_id: 10 });
    assert_eq!(ui.selected_bubble, Some(10));
    let gone = WorkspaceState { selected_bubble: Some(99), ..WorkspaceState::new() };
    let (ui, outcome) = workspace_step(gone, &UiEvent::Delete, &nowhere(), &doc);
    assert_eq!(outcome, WorkspaceOutcome::Respond(EventResponse::Ignored));
    assert_eq!(ui.selected_bubble, None);
}

fn editor_nowhere() -> VertexEditorHit {
    VertexEditorHit { button: None, track_ms: None, vertex_at: None, drag_changed: false }
}

#[test]
fn vertex_editor_dragging_creates_a_step_pose() {
    let editor = Some((10, VertexTimeline::new()));
    let keyframes: Vec<u64> = vec![];
    let on_vertex = VertexEditorHit { vertex_at: Some(0), ..editor_nowhere() };
    let (editor, drag, outcome) = vertex_editor_step(
        editor,
        None,
        &pointer(PointerKind::MousePress),
        &on_vertex,
        &keyframes,
        2_000,
        true,
        true,
    );
    assert_eq!(outcome, consumed());
    assert_eq!(drag, Some(VertexDrag { bubble_id: 10, index: 0, keyframe_at_ms: Some(0) }));
    let (editor, drag, outcome) = vertex_editor_step(
        editor,
        drag,
        &pointer(PointerKind::MouseMove),
        &editor_nowhere(),
        &keyframes,
        2_000,
        true,
        true,
    );
    assert_eq!(outcome, consumed());
    let moved = VertexEditorHit { drag_changed: true, ..editor_nowhere() };
    let (editor, drag, outcome) = vertex_editor_step(
        editor,
        drag,
        &pointer(PointerKind::MouseRelease),
        &moved,
        &keyframes,
        2_000,
        true,
        true,
    );
    assert_eq!(outcome, WorkspaceOutcome::SetVertexKeyframe { bubble_id: 10, at_ms: 0 });
    assert_eq!(drag, None);
    assert_eq!(editor.unwrap().1.selected_keyframe, Some(0));
    let (editor, _, outcome) = vertex_editor_step(
        editor,
        None,
        &UiEvent::KeyInput { text: "\x1b".into() },
        &editor_nowhere(),
        &keyframes,
        2_000,
        true,
        true,
    );
    assert_eq!(outcome, consumed());
    assert_eq!(editor, None);
}

#[test]
fn vertex_editor_buttons_track_and_keys() {
    let keyframes: Vec<u64> = vec![500, 1_500];
    let editor = Some((10, VertexTimeline::new()));
    let button = |b| VertexEditorHit { button: Some(b), ..editor_nowhere() };
    let press = pointer(PointerKind::MousePress);
    let (editor, _, outcome) =
        vertex_editor_step(editor, None, &press, &button(TimelineButton::Next), &keyframes, 2_000, true, true);
    assert_eq!(outcome, consumed());
    assert_eq!(editor.unwrap().1.playhead_ms, 500);
    assert_eq!(editor.unwrap().1.selected_keyframe, Some(500));
    let (editor, _, outcome) = vertex_editor_step(
        editor,
        None,
        &UiEvent::Delete,
        &editor_nowhere(),
        &keyframes,
        2_000,
        true,
        true,
    );
    assert_eq!(
        outcome,
        WorkspaceOutcome::Respond(EventResponse::Action(
            UiAction::ComicDubsRemoveBubbleVertexKeyframe { bubble_id: 10, at_ms: 500 }
        ))
    );
    let track = VertexEditorHit { track_ms: Some(5_000), ..editor_nowhere() };
    let (editor, _, _) = vertex_editor_step(editor, None, &press, &track, &keyframes, 2_000, true, true);
    assert_eq!(editor.unwrap().1.playhead_ms, 2_000);
    let (editor, _, outcome) =
        vertex_editor_step(editor, None, &press, &button(TimelineButton::Add), &keyframes, 2_000, true, true);
    assert_eq!(outcome, WorkspaceOutcome::SetVertexKeyframe { bubble_id: 10, at_ms: 2_000 });
    let (editor, _, outcome) =
        vertex_editor_step(editor, None, &press, &editor_nowhere(), &keyframes, 2_000, false, true);
    assert_eq!(outcome, consumed());
    assert_eq!(editor, None);
    let (_, _, outcome) =
        vertex_editor_step(None, None, &press, &editor_nowhere(), &keyframes, 2_000, true, true);
    assert_eq!(outcome, WorkspaceOutcome::Respond(EventResponse::Ignored));
}

#[test]
fn cancelling_with_the_vertex_editor_open_closes_it_and_keeps_the_draft() {
    let mut ui = WorkspaceState {
        draft_len: 2,
        vertex_drag: Some(VertexDrag { bubble_id: 10, index: 1, keyframe_at_ms: Some(0) }),
        ..WorkspaceState::new()
    };
    let mut editor = Some((10, VertexTimeline::new()));
    assert!(ui.cancel_draft(&mut editor));
    assert_eq!(editor, None);
    assert_eq!(ui.draft_len, 2);
    assert_eq!(ui.vertex_drag, None);
    assert!(ui.cancel_draft(&mut editor));
    assert_eq!(ui.draft_len, 0);
}
