use coquerythmo_ui::automation::{
    automation_step, available_roles, selected_roles, AutomationEdge, AutomationEditorState,
    AutomationGraphView, AutomationHit, AutomationNode, AutomationOutcome, Branch, ControlHit,
    EdgeKind, InputHit, NodeControl, NodeKind, Pending, PickerHit,
};
use coquerythmo_ui::comic_dubs::ScrollDirection;
use coquerythmo_ui::event::{EventResponse, PointerKind, UiAction, UiEvent};

/// A pointer in the zone over nothing.
fn nothing() -> AutomationHit {
    AutomationHit {
        in_zone: true,
        wheel: ScrollDirection::Still,
        menu_index: None,
        on_close: false,
        picker: None,
        picker_rows: 12,
        controls: Vec::new(),
        inputs: Vec::new(),
        card: None,
        on_node_or_pin: false,
    }
}

fn on_control(node_id: u64, control: NodeControl) -> AutomationHit {
    AutomationHit {
        controls: vec![ControlHit { node_id, control }],
        card: Some(node_id),
        on_node_or_pin: true,
        ..nothing()
    }
}

fn on_input(node_id: u64, kind: EdgeKind) -> AutomationHit {
    AutomationHit {
        controls: vec![ControlHit {
            node_id,
            control: match kind {
                EdgeKind::Execution => NodeControl::ExecInput,
                EdgeKind::Line => NodeControl::LineInput,
            },
        }],
        inputs: vec![InputHit { node_id, kind }],
        card: Some(node_id),
        on_node_or_pin: true,
        ..nothing()
    }
}

/// An entry node (1) and an IfRole node (2).
fn entry_and_condition() -> (AutomationGraphView, u64, u64) {
    let graph = AutomationGraphView {
        nodes: vec![
            AutomationNode { id: 1, kind: NodeKind::ForEachLine, enabled: true },
            AutomationNode { id: 2, kind: NodeKind::IfRole, enabled: true },
        ],
    };
    (graph, 1, 2)
}

fn opened() -> AutomationEditorState {
    let mut editor = AutomationEditorState::new();
    editor.open();
    editor
}

fn press() -> UiEvent {
    UiEvent::Pointer(PointerKind::MousePress)
}

fn release() -> UiEvent {
    UiEvent::Pointer(PointerKind::MouseRelease)
}

fn step(
    editor: AutomationEditorState,
    event: &UiEvent,
    hit: &AutomationHit,
    graph: &AutomationGraphView,
) -> (AutomationEditorState, AutomationOutcome) {
    automation_step(editor, event, hit, graph, &Vec::new())
}

fn consumed() -> AutomationOutcome {
    AutomationOutcome::Respond(EventResponse::Consumed)
}

#[test]
fn entry_checkbox_toggles_execution() {
    let (graph, entry, _) = entry_and_condition();
    assert!(graph.nodes[0].enabled);
    let (editor, outcome) =
        step(opened(), &press(), &on_control(entry, NodeControl::EntryToggle), &graph);
    assert_eq!(
        outcome,
        AutomationOutcome::Respond(EventResponse::Action(UiAction::AutomationSetNodeEnabled {
            node_id: entry,
            enabled: false,
        }))
    );
    assert_eq!(editor.selected_node, Some(entry));
}

#[test]
fn line_output_connects_only_to_the_line_input() {
    let (graph, entry, condition) = entry_and_condition();
    let (editor, outcome) =
        step(opened(), &press(), &on_control(entry, NodeControl::LineOutput), &graph);
    assert_eq!(outcome, consumed());
    let (editor, outcome) =
        step(editor, &release(), &on_input(condition, EdgeKind::Execution), &graph);
    assert_eq!(outcome, consumed());
    let (editor, outcome) =
        step(editor, &press(), &on_control(entry, NodeControl::LineOutput), &graph);
    assert_eq!(outcome, consumed());
    let (editor, outcome) = step(editor, &release(), &on_input(condition, EdgeKind::Line), &graph);
    assert!(matches!(
        outcome,
        AutomationOutcome::Respond(EventResponse::Action(UiAction::AutomationConnect {
            kind: EdgeKind::Line,
            ..
        }))
    ));
    assert_eq!(editor.pending, None);
}

#[test]
fn empty_canvas_drag_pans_nodes() {
    let (graph, _, _) = entry_and_condition();
    let (editor, outcome) = step(opened(), &press(), &nothing(), &graph);
    assert_eq!(outcome, AutomationOutcome::Pan);
    assert!(editor.panning);
    let (editor, outcome) =
        step(editor, &UiEvent::Pointer(PointerKind::MouseMove), &nothing(), &graph);
    assert_eq!(outcome, consumed());
    let (editor, outcome) = step(editor, &release(), &nothing(), &graph);
    assert_eq!(outcome, consumed());
    assert!(!editor.panning);
}

#[test]
fn right_click_menu_creates_a_node_at_the_canvas_position() {
    let graph = AutomationGraphView { nodes: Vec::new() };
    let (editor, outcome) =
        step(opened(), &UiEvent::Pointer(PointerKind::ContextMenu), &nothing(), &graph);
    assert_eq!(outcome, AutomationOutcome::OpenMenu { items: 4 });
    assert!(editor.context_menu.is_some());
    let first_row = AutomationHit { menu_index: Some(0), ..nothing() };
    let (editor, outcome) = step(editor, &press(), &first_row, &graph);
    assert_eq!(outcome, AutomationOutcome::AddNode { kind: NodeKind::ForEachLine });
    assert!(editor.context_menu.is_none());
}

#[test]
fn dropping_a_line_cable_on_empty_canvas_offers_a_connected_reroute() {
    let graph = AutomationGraphView {
        nodes: vec![AutomationNode { id: 7, kind: NodeKind::ForEachLine, enabled: true }],
    };
    let (editor, outcome) =
        step(opened(), &press(), &on_control(7, NodeControl::LineOutput), &graph);
    assert_eq!(outcome, consumed());
    let (editor, outcome) = step(editor, &release(), &nothing(), &graph);
    assert_eq!(outcome, AutomationOutcome::OpenMenu { items: 1 });
    let menu = editor.context_menu.unwrap();
    assert_eq!(menu.source, Some(7));
    let first_row = AutomationHit { menu_index: Some(0), ..nothing() };
    let (_, outcome) = step(editor, &press(), &first_row, &graph);
    assert_eq!(outcome, AutomationOutcome::AddConnectedNode { from_node: 7 });
}

#[test]
fn selected_node_is_deleted_by_delete_event() {
    let (graph, entry, _) = entry_and_condition();
    let card = AutomationHit { card: Some(entry), on_node_or_pin: true, ..nothing() };
    let (editor, outcome) = step(opened(), &press(), &card, &graph);
    assert_eq!(outcome, AutomationOutcome::Grab { node_id: entry });
    let (editor, outcome) = step(editor, &release(), &card, &graph);
    assert_eq!(outcome, AutomationOutcome::MoveNode { node_id: entry });
    let (editor, outcome) = step(editor, &UiEvent::Delete, &nothing(), &graph);
    assert_eq!(
        outcome,
        AutomationOutcome::Respond(EventResponse::Action(UiAction::AutomationDeleteNode {
            node_id: entry
        }))
    );
    assert_eq!(editor.selected_node, None);
}

#[test]
fn selected_node_is_deleted_by_windows_del_character() {
    let (graph, entry, _) = entry_and_condition();
    let card = AutomationHit { card: Some(entry), on_node_or_pin: true, ..nothing() };
    let (editor, _) = step(opened(), &press(), &card, &graph);
    let (editor, _) = step(editor, &release(), &card, &graph);
    let (_, outcome) = step(editor, &UiEvent::KeyInput { text: "\x7f".into() }, &nothing(), &graph);
    assert_eq!(
        outcome,
        AutomationOutcome::Respond(EventResponse::Action(UiAction::AutomationDeleteNode {
            node_id: entry
        }))
    );
}

#[test]
fn a_closed_editor_takes_nothing() {
    let (graph, _, _) = entry_and_condition();
    let (editor, outcome) = step(AutomationEditorState::new(), &UiEvent::Delete, &nothing(), &graph);
    assert_eq!(outcome, AutomationOutcome::Pass);
    assert!(!editor.is_open());
}

#[test]
fn delete_without_a_selection_is_swallowed() {
    let (graph, _, _) = entry_and_condition();
    let (_, outcome) = step(opened(), &UiEvent::Delete, &nothing(), &graph);
    assert_eq!(outcome, consumed());
}

#[test]
fn escape_drops_the_cable_the_picker_and_the_menu() {
    let (graph, entry, condition) = entry_and_condition();
    let (editor, _) = step(opened(), &press(), &on_control(condition, NodeControl::AddRole), &graph);
    assert_eq!(editor.role_picker_node, Some(condition));
    let (mut editor, _) =
        step(editor, &press(), &on_control(entry, NodeControl::LineOutput), &graph);
    editor.context_menu = None;
    let (editor, outcome) =
        step(editor, &UiEvent::KeyInput { text: "\x1b".into() }, &nothing(), &graph);
    assert_eq!(outcome, consumed());
    assert_eq!(editor.pending, None);
    assert_eq!(editor.role_picker_node, None);
    assert_eq!(editor.context_menu, None);
    assert_eq!(editor.selected_node, Some(entry));
}

#[test]
fn the_role_picker_scrolls_one_row_within_its_roles() {
    let (graph, _, condition) = entry_and_condition();
    let roles: Vec<String> = vec!["A".into(), "B".into(), "C".into(), "D".into()];
    let (editor, _) = automation_step(
        opened(),
        &press(),
        &on_control(condition, NodeControl::AddRole),
        &graph,
        &roles,
    );
    let wheel = |direction| AutomationHit { wheel: direction, picker_rows: 2, ..nothing() };
    let scroll = UiEvent::Pointer(PointerKind::Scroll);
    let (editor, outcome) =
        automation_step(editor, &scroll, &wheel(ScrollDirection::Down), &graph, &roles);
    assert_eq!(outcome, consumed());
    assert_eq!(editor.role_picker_scroll, 1);
    let (editor, _) = automation_step(editor, &scroll, &wheel(ScrollDirection::Down), &graph, &roles);
    let (editor, _) = automation_step(editor, &scroll, &wheel(ScrollDirection::Down), &graph, &roles);
    assert_eq!(editor.role_picker_scroll, 2);
    let (editor, _) = automation_step(editor, &scroll, &wheel(ScrollDirection::Up), &graph, &roles);
    assert_eq!(editor.role_picker_scroll, 1);
    let row = AutomationHit { picker: Some(PickerHit { row: Some(1) }), picker_rows: 2, ..nothing() };
    let (_, outcome) = automation_step(editor, &press(), &row, &graph, &roles);
    assert_eq!(
        outcome,
        AutomationOutcome::Respond(EventResponse::Action(UiAction::AutomationAddRole {
            node_id: condition,
            role: "C".into(),
        }))
    );
}

#[test]
fn execution_cables_keep_their_branch_and_skip_their_own_node() {
    let (graph, entry, condition) = entry_and_condition();
    let branch = Branch::Role("Alice".into());
    let (editor, _) = step(
        opened(),
        &press(),
        &on_control(condition, NodeControl::ExecOutput(branch.clone())),
        &graph,
    );
    assert_eq!(
        editor.pending,
        Some(Pending::Execution { node_id: condition, branch: branch.clone() })
    );
    let over = AutomationHit {
        inputs: vec![
            InputHit { node_id: condition, kind: EdgeKind::Execution },
            InputHit { node_id: entry, kind: EdgeKind::Execution },
        ],
        ..nothing()
    };
    let (_, outcome) = step(editor, &release(), &over, &graph);
    assert_eq!(
        outcome,
        AutomationOutcome::Respond(EventResponse::Action(UiAction::AutomationConnect {
            from_node: condition,
            kind: EdgeKind::Execution,
            branch,
            to_node: entry,
        }))
    );
}

#[test]
fn track_buttons_wrap_round_and_only_one_entry_is_allowed() {
    let graph = AutomationGraphView {
        nodes: vec![
            AutomationNode { id: 1, kind: NodeKind::ForEachLine, enabled: true },
            AutomationNode { id: 3, kind: NodeKind::SetTrack { track: 0 }, enabled: true },
        ],
    };
    let (_, outcome) = step(opened(), &press(), &on_control(3, NodeControl::TrackPrevious), &graph);
    assert_eq!(
        outcome,
        AutomationOutcome::Respond(EventResponse::Action(UiAction::AutomationSetTrack {
            node_id: 3,
            track: 3,
        }))
    );
    let (_, outcome) = step(opened(), &press(), &on_control(3, NodeControl::TrackNext), &graph);
    assert_eq!(
        outcome,
        AutomationOutcome::Respond(EventResponse::Action(UiAction::AutomationSetTrack {
            node_id: 3,
            track: 1,
        }))
    );
    let (editor, _) = step(opened(), &UiEvent::Pointer(PointerKind::ContextMenu), &nothing(), &graph);
    let first_row = AutomationHit { menu_index: Some(0), ..nothing() };
    let (_, outcome) = step(editor, &press(), &first_row, &graph);
    assert_eq!(outcome, consumed());
}

#[test]
fn the_close_button_asks_to_close() {
    let (graph, _, _) = entry_and_condition();
    let close = AutomationHit { on_close: true, ..nothing() };
    let (_, outcome) = step(opened(), &press(), &close, &graph);
    assert_eq!(outcome, AutomationOutcome::Respond(EventResponse::Action(UiAction::CloseAutomation)));
}

#[test]
fn picker_roles_leave_out_the_node_s_roles() {
    let edges = vec![
        AutomationEdge { from_node: 2, kind: EdgeKind::Execution, branch: Branch::Role("Bob".into()) },
        AutomationEdge { from_node: 2, kind: EdgeKind::Execution, branch: Branch::Role("Alice".into()) },
        AutomationEdge { from_node: 5, kind: EdgeKind::Execution, branch: Branch::Role("Carl".into()) },
        AutomationEdge { from_node: 2, kind: EdgeKind::Line, branch: Branch::Role("Dora".into()) },
    ];
    let selected = selected_roles(2, &vec!["Alice".into()], &edges);
    assert_eq!(selected, vec!["Alice".to_string(), "Bob".to_string()]);
    let known: Vec<String> =
        vec!["Alice".into(), "Bob".into(), "Carl".into(), "Dora".into()];
    assert_eq!(available_roles(&known, &selected), vec!["Carl".to_string(), "Dora".to_string()]);
}
