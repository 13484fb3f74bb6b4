//! The node editor of line automations: what a key, a press, a move, a
//! release or a wheel turn does to the editor and asks of the application.
//!
//! The canvas is drawn and hit-tested in window coordinates by the caller,
//! which reports for each event what lies under the pointer (an
//! `AutomationHit`): the pins and controls of the cards, topmost card
//! first, the card itself, the open menu's row, the role picker's row. The
//! caller also keeps the positions (a dragged card, the pan, where a menu
//! opened), which are floating point; the outcome tells it when to use
//! them.

use vstd::prelude::*;

use crate::comic_dubs::ScrollDirection;
use crate::event::{EventResponse, PointerKind, UiAction, UiEvent};

verus! {

/// Kind of a connection between two nodes.
#[derive(Clone, Copy, Debug, PartialEq, Eq, Structural)]
pub enum EdgeKind {
    /// Order of execution.
    Execution,
    /// The line handed from node to node.
    Line,
}

/// Which output of a node a connection leaves from.
#[derive(Clone, Debug, PartialEq, Eq)]
pub enum Branch {
    Next,
    /// The output taken when the line's role is this one.
    Role(String),
}

/// Kind of a node.
#[derive(Clone, Copy, Debug, PartialEq, Eq, Structural)]
pub enum NodeKind {
    /// Entry point: runs once for each line.
    ForEachLine,
    /// Branches on the role of the line.
    IfRole,
    /// Puts the line on track `track` (0 to 3).
    SetTrack { track: u8 },
    /// Passes the line on unchanged.
    LineReroute,
}

/// Highest track of a SetTrack node.
pub const LAST_TRACK: u8 = 3;

/// A node of the automation graph as the editor reads it.
#[derive(Clone, Copy, Debug, PartialEq, Eq, Structural)]
pub struct AutomationNode {
    pub id: u64,
    pub kind: NodeKind,
    pub enabled: bool,
}

/// The automation graph as the editor reads it: its nodes, in drawing
/// order.
#[derive(Clone, Debug)]
pub struct AutomationGraphView {
    pub nodes: Vec<AutomationNode>,
}

impl View for AutomationGraphView {
    type V = Seq<AutomationNode>;

    open spec fn view(&self) -> Seq<AutomationNode> {
        self.nodes@
    }
}

/// A connection of the graph, as far as the role list reads it.
#[derive(Clone, Debug, PartialEq, Eq)]
pub struct AutomationEdge {
    pub from_node: u64,
    pub kind: EdgeKind,
    pub branch: Branch,
}

/// A connection being drawn from an output pin.
#[derive(Clone, Debug, PartialEq, Eq)]
pub enum Pending {
    Execution { node_id: u64, branch: Branch },
    Line { node_id: u64 },
}

/// The node menu of the canvas. `source` is the node whose line cable was
/// dropped on empty canvas: the menu then offers only a connected reroute.
#[derive(Clone, Copy, Debug, PartialEq, Eq, Structural)]
pub struct MenuState {
    pub hovered: Option<usize>,
    pub source: Option<u64>,
}

/// Rows of the node menu.
pub open spec fn menu_items(m: MenuState) -> usize {
    if m.source is Some {
        1
    } else {
        4
    }
}

/// What the editor remembers between events.
#[derive(Debug)]
pub struct AutomationEditorState {
    pub open: bool,
    pub selected_node: Option<u64>,
    /// Card being dragged.
    pub dragging: Option<u64>,
    pub pending: Option<Pending>,
    /// IfRole node whose role picker is shown.
    pub role_picker_node: Option<u64>,
    /// First visible row of the role picker.
    pub role_picker_scroll: usize,
    /// Whether the canvas is being panned.
    pub panning: bool,
    pub context_menu: Option<MenuState>,
}

/// A control of a card.
#[derive(Clone, Debug, PartialEq, Eq)]
pub enum NodeControl {
    /// The checkbox of an entry node.
    EntryToggle,
    ExecInput,
    LineInput,
    ExecOutput(Branch),
    LineOutput,
    /// The remove button of a role of an IfRole node.
    RemoveRole(String),
    /// The add-role button of an IfRole node.
    AddRole,
    TrackPrevious,
    TrackNext,
}

/// A control under the pointer, on card `node_id`.
#[derive(Clone, Debug, PartialEq, Eq)]
pub struct ControlHit {
    pub node_id: u64,
    pub control: NodeControl,
}

/// An input pin under the pointer.
#[derive(Clone, Copy, Debug, PartialEq, Eq, Structural)]
pub struct InputHit {
    pub node_id: u64,
    pub kind: EdgeKind,
}

/// Where in the role picker a press landed: on its list, on row `row`
/// counted from the first visible one, or above the list (`None`).
#[derive(Clone, Copy, Debug, PartialEq, Eq, Structural)]
pub struct PickerHit {
    pub row: Option<usize>,
}

/// What lies under the pointer of an event, as the geometry layer finds it.
#[derive(Clone, Debug)]
pub struct AutomationHit {
    /// Inside the editor's zone, whose content area (where menus open and
    /// the canvas pans) is the whole zone.
    pub in_zone: bool,
    /// Wheel direction of a scroll event (towards the bottom: `Down`).
    pub wheel: ScrollDirection,
    /// Row of the open node menu under the pointer, if it has one there.
    pub menu_index: Option<usize>,
    /// On the close button.
    pub on_close: bool,
    /// Inside the role picker.
    pub picker: Option<PickerHit>,
    /// Most rows the role picker shows at once.
    pub picker_rows: usize,
    /// The controls under the pointer, topmost card first, and on each card
    /// in the order entry checkbox, execution input, line input, execution
    /// outputs, line output, role buttons, track buttons.
    pub controls: Vec<ControlHit>,
    /// The input pins under the pointer, topmost card first.
    pub inputs: Vec<InputHit>,
    /// Topmost card under the pointer.
    pub card: Option<u64>,
    /// Whether a card or one of its pins is under the pointer.
    pub on_node_or_pin: bool,
}

/// What an event asks of the caller.
#[derive(Clone, Debug, PartialEq, Eq)]
pub enum AutomationOutcome {
    /// Not the editor's event.
    Pass,
    Respond(EventResponse),
    /// Open the node menu, with `items` rows, at the pointer (consumed).
    OpenMenu { items: usize },
    /// Store the dragged card's position.
    MoveNode { node_id: u64 },
    /// Add a node of kind `kind` where the menu was opened.
    AddNode { kind: NodeKind },
    /// Add a line reroute where the menu was opened, fed by the line of
    /// `from_node`.
    AddConnectedNode { from_node: u64 },
    /// Start dragging card `node_id` from the pointer (consumed).
    Grab { node_id: u64 },
    /// Start panning the canvas from the pointer (consumed).
    Pan,
}

/// The first node `id` of the graph.
pub open spec fn node_of(nodes: Seq<AutomationNode>, id: u64, k: int) -> Option<AutomationNode>
    decreases nodes.len() - k,
{
    if k < 0 || k >= nodes.len() {
        None
    } else if nodes[k].id == id {
        Some(nodes[k])
    } else {
        node_of(nodes, id, k + 1)
    }
}

/// Whether the graph has an entry node among `nodes[k..]`.
pub open spec fn has_entry(nodes: Seq<AutomationNode>, k: int) -> bool
    decreases nodes.len() - k,
{
    if k < 0 || k >= nodes.len() {
        false
    } else if nodes[k].kind == NodeKind::ForEachLine {
        true
    } else {
        has_entry(nodes, k + 1)
    }
}

/// The node a pending connection leaves from.
pub open spec fn pending_source(p: Pending) -> u64 {
    match p {
        Pending::Execution { node_id, .. } => node_id,
        Pending::Line { node_id } => node_id,
    }
}

/// The kind of connection a pending one makes.
pub open spec fn pending_kind(p: Pending) -> EdgeKind {
    match p {
        Pending::Execution { .. } => EdgeKind::Execution,
        Pending::Line { .. } => EdgeKind::Line,
    }
}

/// The connection a pending one makes when released over the input pins
/// `inputs[k..]`: the first input of its kind on another node.
pub open spec fn connect_target(p: Pending, inputs: Seq<InputHit>, k: int) -> Option<InputHit>
    decreases inputs.len() - k,
{
    if k < 0 || k >= inputs.len() {
        None
    } else if inputs[k].node_id != pending_source(p) && inputs[k].kind == pending_kind(p) {
        Some(inputs[k])
    } else {
        connect_target(p, inputs, k + 1)
    }
}

/// The action of connecting `p` to `to`.
pub open spec fn connect_action(p: Pending, to: InputHit) -> UiAction {
    UiAction::AutomationConnect {
        from_node: pending_source(p),
        kind: pending_kind(p),
        branch: match p {
            Pending::Execution { branch, .. } => branch,
            Pending::Line { .. } => Branch::Next,
        },
        to_node: to.node_id,
    }
}

/// Last first-visible row of a role picker of `count` roles.
pub open spec fn picker_max_scroll(count: nat, rows: usize) -> usize {
    if count > rows {
        (count - rows) as usize
    } else {
        0
    }
}

/// The node kind behind row `index` of the node menu.
pub open spec fn menu_kind(index: usize) -> NodeKind {
    if index == 0 {
        NodeKind::ForEachLine
    } else if index == 1 {
        NodeKind::IfRole
    } else if index == 2 {
        NodeKind::SetTrack { track: 0 }
    } else {
        NodeKind::LineReroute
    }
}

/// The track before `track`, wrapping round.
pub open spec fn track_before(track: u8) -> u8 {
    if track == 0 {
        LAST_TRACK
    } else {
        (track - 1) as u8
    }
}

/// The track after `track`, wrapping round.
pub open spec fn track_after(track: u8) -> u8 {
    if track >= LAST_TRACK {
        0
    } else {
        (track + 1) as u8
    }
}

/// Whether `control` exists on a node of kind `kind`.
pub open spec fn control_fits(kind: NodeKind, control: NodeControl) -> bool {
    match control {
        NodeControl::EntryToggle => kind == NodeKind::ForEachLine,
        NodeControl::RemoveRole(_) | NodeControl::AddRole => kind == NodeKind::IfRole,
        NodeControl::TrackPrevious | NodeControl::TrackNext => kind is SetTrack,
        _ => true,
    }
}

/// `s` with nothing held, drawn or shown but the selection.
pub open spec fn released_all(s: AutomationEditorState) -> AutomationEditorState {
    AutomationEditorState {
        dragging: None,
        pending: None,
        role_picker_node: None,
        context_menu: None,
        ..s
    }
}

pub open spec fn answer(s: AutomationEditorState, r: EventResponse) -> Option<
    (AutomationEditorState, AutomationOutcome),
> {
    Some((s, AutomationOutcome::Respond(r)))
}

/// A wheel turn over the zone while a role picker is shown scrolls it by
/// one row, within its rows.
pub open spec fn wheel_stage(
    s: AutomationEditorState,
    event: UiEvent,
    hit: AutomationHit,
    nodes: Seq<AutomationNode>,
    roles: Seq<String>,
) -> Option<(AutomationEditorState, AutomationOutcome)> {
    if event == UiEvent::Pointer(PointerKind::Scroll) && hit.in_zone && s.role_picker_node is Some
        && node_of(nodes, s.role_picker_node.unwrap(), 0) is Some {
        let m = picker_max_scroll(roles.len(), hit.picker_rows);
        let scroll = s.role_picker_scroll;
        answer(
            AutomationEditorState {
                role_picker_scroll: match hit.wheel {
                    ScrollDirection::Down => if scroll + 1 <= m {
                        (scroll + 1) as usize
                    } else {
                        m
                    },
                    ScrollDirection::Up => if scroll >= 1 {
                        (scroll - 1) as usize
                    } else {
                        0
                    },
                    ScrollDirection::Still => scroll,
                },
                ..s
            },
            EventResponse::Consumed,
        )
    } else {
        None
    }
}

/// Whether `event` asks to delete: Delete, or the character DEL.
pub open spec fn is_delete(event: UiEvent) -> bool {
    match event {
        UiEvent::Delete => true,
        UiEvent::KeyInput { text } => text@ == "\x7f"@,
        _ => false,
    }
}

/// Delete removes the selected node, letting go of everything; without a
/// selection it is swallowed.
pub open spec fn delete_stage(s: AutomationEditorState, event: UiEvent) -> Option<
    (AutomationEditorState, AutomationOutcome),
> {
    if is_delete(event) {
        match s.selected_node {
            Some(id) => answer(
                AutomationEditorState { selected_node: None, ..released_all(s) },
                EventResponse::Action(UiAction::AutomationDeleteNode { node_id: id }),
            ),
            None => answer(s, EventResponse::Consumed),
        }
    } else {
        None
    }
}

/// Escape drops the connection being drawn, the role picker and the menu.
pub open spec fn escape_stage(s: AutomationEditorState, event: UiEvent) -> Option<
    (AutomationEditorState, AutomationOutcome),
> {
    match event {
        UiEvent::KeyInput { text } => if text@ == "\x1b"@ {
            answer(
                AutomationEditorState {
                    pending: None,
                    role_picker_node: None,
                    context_menu: None,
                    ..s
                },
                EventResponse::Consumed,
            )
        } else {
            None
        },
        _ => None,
    }
}

/// A context menu in the zone opens the node menu there; elsewhere it is
/// not the editor's.
pub open spec fn context_stage(s: AutomationEditorState, event: UiEvent, hit: AutomationHit) -> Option<
    (AutomationEditorState, AutomationOutcome),
> {
    if event == UiEvent::Pointer(PointerKind::ContextMenu) {
        if hit.in_zone {
            Some(
                (
                    AutomationEditorState {
                        context_menu: Some(MenuState { hovered: None, source: None }),
                        pending: None,
                        role_picker_node: None,
                        ..s
                    },
                    AutomationOutcome::OpenMenu { items: 4 },
                ),
            )
        } else {
            Some((s, AutomationOutcome::Pass))
        }
    } else {
        None
    }
}

/// A move hovers the menu's rows, or drags, pans or draws what is held.
pub open spec fn move_stage(s: AutomationEditorState, event: UiEvent, hit: AutomationHit) -> Option<
    (AutomationEditorState, AutomationOutcome),
> {
    if event != UiEvent::Pointer(PointerKind::MouseMove) {
        None
    } else if let Some(m) = s.context_menu {
        answer(
            AutomationEditorState {
                context_menu: Some(MenuState { hovered: hit.menu_index, source: m.source }),
                ..s
            },
            EventResponse::Consumed,
        )
    } else if s.dragging is Some || s.panning || s.pending is Some {
        answer(s, EventResponse::Consumed)
    } else {
        None
    }
}

/// A release drops the dragged card, connects the cable being drawn to a
/// compatible input under the pointer (a line cable dropped on empty canvas
/// opens a menu offering a connected reroute), or ends the pan.
pub open spec fn release_stage(s: AutomationEditorState, event: UiEvent, hit: AutomationHit) -> Option<
    (AutomationEditorState, AutomationOutcome),
> {
    if event != UiEvent::Pointer(PointerKind::MouseRelease) {
        None
    } else if let Some(id) = s.dragging {
        Some(
            (AutomationEditorState { dragging: None, ..s }, AutomationOutcome::MoveNode { node_id: id }),
        )
    } else if let Some(p) = s.pending {
        let dropped = AutomationEditorState { pending: None, ..s };
        match connect_target(p, hit.inputs@, 0) {
            Some(to) => answer(dropped, EventResponse::Action(connect_action(p, to))),
            None => if p is Line && hit.in_zone && !hit.on_node_or_pin {
                Some(
                    (
                        AutomationEditorState {
                            context_menu: Some(
                                MenuState { hovered: Some(0), source: Some(pending_source(p)) },
                            ),
                            ..dropped
                        },
                        AutomationOutcome::OpenMenu { items: 1 },
                    ),
                )
            } else {
                answer(dropped, EventResponse::Consumed)
            },
        }
    } else if s.panning {
        answer(AutomationEditorState { panning: false, ..s }, EventResponse::Consumed)
    } else {
        None
    }
}

/// A press while the node menu is open closes it, adding the node of the
/// pressed row (a second entry node is refused).
pub open spec fn menu_press(s: AutomationEditorState, m: MenuState, hit: AutomationHit, nodes: Seq<AutomationNode>) -> (
    AutomationEditorState,
    AutomationOutcome,
) {
    let closed = AutomationEditorState { context_menu: None, ..s };
    match hit.menu_index {
        Some(i) => if i < menu_items(m) {
            match m.source {
                Some(n) => (closed, AutomationOutcome::AddConnectedNode { from_node: n }),
                None => if menu_kind(i) == NodeKind::ForEachLine && has_entry(nodes, 0) {
                    (closed, AutomationOutcome::Respond(EventResponse::Consumed))
                } else {
                    (closed, AutomationOutcome::AddNode { kind: menu_kind(i) })
                },
            }
        } else {
            (closed, AutomationOutcome::Respond(EventResponse::Consumed))
        },
        None => (closed, AutomationOutcome::Respond(EventResponse::Consumed)),
    }
}

/// Whether the connection being drawn leaves role `role` of node `node`.
pub open spec fn pending_on_role(p: Option<Pending>, node: u64, role: Seq<char>) -> bool {
    match p {
        Some(Pending::Execution { node_id, branch: Branch::Role(r) }) => node_id == node && r@ == role,
        _ => false,
    }
}

/// A press on control `control` of node `n`.
pub open spec fn control_press(s: AutomationEditorState, n: AutomationNode, control: NodeControl) -> (
    AutomationEditorState,
    AutomationOutcome,
) {
    let chosen = AutomationEditorState { selected_node: Some(n.id), ..s };
    match control {
        NodeControl::EntryToggle => (
            chosen,
            AutomationOutcome::Respond(
                EventResponse::Action(
                    UiAction::AutomationSetNodeEnabled { node_id: n.id, enabled: !n.enabled },
                ),
            ),
        ),
        NodeControl::ExecInput | NodeControl::LineInput => (
            s,
            AutomationOutcome::Respond(EventResponse::Consumed),
        ),
        NodeControl::ExecOutput(branch) => (
            AutomationEditorState {
                pending: Some(Pending::Execution { node_id: n.id, branch }),
                ..chosen
            },
            AutomationOutcome::Respond(EventResponse::Consumed),
        ),
        NodeControl::LineOutput => (
            AutomationEditorState { pending: Some(Pending::Line { node_id: n.id }), ..chosen },
            AutomationOutcome::Respond(EventResponse::Consumed),
        ),
        NodeControl::RemoveRole(role) => (
            if pending_on_role(s.pending, n.id, role@) {
                AutomationEditorState { pending: None, ..s }
            } else {
                s
            },
            AutomationOutcome::Respond(
                EventResponse::Action(UiAction::AutomationRemoveRole { node_id: n.id, role }),
            ),
        ),
        NodeControl::AddRole => (
            AutomationEditorState {
                role_picker_node: Some(n.id),
                role_picker_scroll: 0,
                ..chosen
            },
            AutomationOutcome::Respond(EventResponse::Consumed),
        ),
        NodeControl::TrackPrevious => (
            s,
            AutomationOutcome::Respond(
                EventResponse::Action(
                    UiAction::AutomationSetTrack {
                        node_id: n.id,
                        track: track_before(n.kind->track),
                    },
                ),
            ),
        ),
        NodeControl::TrackNext => (
            s,
            AutomationOutcome::Respond(
                EventResponse::Action(
                    UiAction::AutomationSetTrack { node_id: n.id, track: track_after(n.kind->track) },
                ),
            ),
        ),
    }
}

/// The first of the controls `controls[k..]` that its node has.
pub open spec fn controls_press(
    s: AutomationEditorState,
    controls: Seq<ControlHit>,
    nodes: Seq<AutomationNode>,
    k: int,
) -> Option<(AutomationEditorState, AutomationOutcome)>
    decreases controls.len() - k,
{
    if k < 0 || k >= controls.len() {
        None
    } else {
        match node_of(nodes, controls[k].node_id, 0) {
            Some(n) => if control_fits(n.kind, controls[k].control) {
                Some(control_press(s, n, controls[k].control))
            } else {
                controls_press(s, controls, nodes, k + 1)
            },
            None => controls_press(s, controls, nodes, k + 1),
        }
    }
}

/// A press in the zone with no menu open and not on the close button: the
/// role picker first, then the cards' controls, then a card, then the
/// empty canvas, which deselects and starts a pan.
pub open spec fn canvas_press(
    s: AutomationEditorState,
    hit: AutomationHit,
    nodes: Seq<AutomationNode>,
    roles: Seq<String>,
) -> (AutomationEditorState, AutomationOutcome) {
    let shown = s.role_picker_node is Some && node_of(nodes, s.role_picker_node.unwrap(), 0) is Some;
    let m = picker_max_scroll(roles.len(), hit.picker_rows);
    let clamped = AutomationEditorState {
        role_picker_scroll: if s.role_picker_scroll <= m {
            s.role_picker_scroll
        } else {
            m
        },
        ..s
    };
    if shown && hit.picker is Some {
        let scroll = clamped.role_picker_scroll;
        match hit.picker.unwrap().row {
            Some(row) => if row < hit.picker_rows && scroll + row < roles.len() {
                (
                    clamped,
                    AutomationOutcome::Respond(
                        EventResponse::Action(
                            UiAction::AutomationAddRole {
                                node_id: s.role_picker_node.unwrap(),
                                role: roles[scroll + row],
                            },
                        ),
                    ),
                )
            } else {
                (clamped, AutomationOutcome::Respond(EventResponse::Consumed))
            },
            None => (clamped, AutomationOutcome::Respond(EventResponse::Consumed)),
        }
    } else {
        let s1 = if shown {
            AutomationEditorState { role_picker_node: None, ..clamped }
        } else {
            s
        };
        match controls_press(s1, hit.controls@, nodes, 0) {
            Some(r) => r,
            None => match hit.card {
                Some(id) => (
                    AutomationEditorState { selected_node: Some(id), dragging: Some(id), ..s1 },
                    AutomationOutcome::Grab { node_id: id },
                ),
                None => (
                    AutomationEditorState {
                        selected_node: None,
                        pending: None,
                        role_picker_node: None,
                        panning: true,
                        ..s1
                    },
                    AutomationOutcome::Pan,
                ),
            },
        }
    }
}

/// The editor's answer to `event`, `hit` being what lies under its
/// position, `nodes` the graph's nodes and `roles` the roles the shown
/// role picker offers. A closed editor takes nothing.
pub open spec fn automation_step_spec(
    s: AutomationEditorState,
    event: UiEvent,
    hit: AutomationHit,
    nodes: Seq<AutomationNode>,
    roles: Seq<String>,
) -> (AutomationEditorState, AutomationOutcome) {
    if !s.open {
        (s, AutomationOutcome::Pass)
    } else if let Some(r) = wheel_stage(s, event, hit, nodes, roles) {
        r
    } else if let Some(r) = delete_stage(s, event) {
        r
    } else if let Some(r) = escape_stage(s, event) {
        r
    } else if let Some(r) = context_stage(s, event, hit) {
        r
    } else if let Some(r) = move_stage(s, event, hit) {
        r
    } else if let Some(r) = release_stage(s, event, hit) {
        r
    } else if event == UiEvent::Pointer(PointerKind::DoubleClick) && hit.in_zone {
        (s, AutomationOutcome::Respond(EventResponse::Consumed))
    } else if event != UiEvent::Pointer(PointerKind::MousePress) || !hit.in_zone {
        (s, AutomationOutcome::Pass)
    } else if let Some(m) = s.context_menu {
        menu_press(s, m, hit, nodes)
    } else if hit.on_close {
        (s, AutomationOutcome::Respond(EventResponse::Action(UiAction::CloseAutomation)))
    } else {
        canvas_press(s, hit, nodes, roles)
    }
}

impl AutomationEditorState {
    /// A closed editor, nothing selected, held or shown.
    pub fn new() -> (r: Self)
        ensures
            !r.open && r.selected_node is None && r.dragging is None && r.pending is None,
            r.role_picker_node is None && r.role_picker_scroll == 0 && !r.panning,
            r.context_menu is None,
    {
        AutomationEditorState {
            open: false,
            selected_node: None,
            dragging: None,
            pending: None,
            role_picker_node: None,
            role_picker_scroll: 0,
            panning: false,
            context_menu: None,
        }
    }

    pub fn is_open(&self) -> (r: bool)
        ensures
            r == self.open,
    {
        self.open
    }

    /// Shows the editor, as it was left.
    pub fn open(&mut self)
        ensures
            *final(self) == (AutomationEditorState { open: true, ..*old(self) }),
    {
        self.open = true;
    }

    /// Hides the editor, letting go of what is held or shown; the
    /// selection stays.
    pub fn close(&mut self)
        ensures
            *final(self) == (AutomationEditorState {
                open: false,
                dragging: None,
                pending: None,
                role_picker_node: None,
                panning: false,
                context_menu: None,
                ..*old(self)
            }),
    {
        self.open = false;
        self.dragging = None;
        self.pending = None;
        self.role_picker_node = None;
        self.panning = false;
        self.context_menu = None;
    }

    /// The selected node, to be deleted: it is deselected and everything
    /// held or shown is let go. None while closed or with no selection,
    /// and then nothing changes.
    pub fn take_selected_node_for_deletion(&mut self) -> (r: Option<u64>)
        ensures
            (old(self).open && old(self).selected_node is Some) ==> r == old(self).selected_node
                && *final(self) == (AutomationEditorState {
                selected_node: None,
                ..released_all(*old(self))
            }),
            !(old(self).open && old(self).selected_node is Some) ==> r is None && *final(self)
                == *old(self),
    {
        if !self.open {
            return None;
        }
        match self.selected_node {
            Some(id) => {
                self.selected_node = None;
                self.dragging = None;
                self.pending = None;
                self.role_picker_node = None;
                self.context_menu = None;
                Some(id)
            },
            None => None,
        }
    }
}

/// A stage's result: its answer, or the state untouched.
pub open spec fn staged(
    s: AutomationEditorState,
    r: Option<(AutomationEditorState, AutomationOutcome)>,
) -> (AutomationEditorState, Option<AutomationOutcome>) {
    match r {
        Some((t, o)) => (t, Some(o)),
        None => (s, None),
    }
}

fn node_lookup(nodes: &Vec<AutomationNode>, id: u64) -> (r: Option<AutomationNode>)
    ensures
        r == node_of(nodes@, id, 0),
{
    let mut k: usize = 0;
    while k < nodes.len()
        invariant
            k <= nodes@.len(),
            node_of(nodes@, id, 0) == node_of(nodes@, id, k as int),
        decreases nodes@.len() - k,
    {
        if nodes[k].id == id {
            return Some(nodes[k]);
        }
        k = k + 1;
    }
    None
}

fn any_entry(nodes: &Vec<AutomationNode>) -> (r: bool)
    ensures
        r == has_entry(nodes@, 0),
{
    let mut k: usize = 0;
    while k < nodes.len()
        invariant
            k <= nodes@.len(),
            has_entry(nodes@, 0) == has_entry(nodes@, k as int),
        decreases nodes@.len() - k,
    {
        if nodes[k].kind == NodeKind::ForEachLine {
            return true;
        }
        k = k + 1;
    }
    false
}

fn copy_branch(b: &Branch) -> (r: Branch)
    ensures
        r == *b,
{
    match b {
        Branch::Next => Branch::Next,
        Branch::Role(role) => Branch::Role(role.clone()),
    }
}

fn source_of(p: &Pending) -> (r: u64)
    ensures
        r == pending_source(*p),
{
    match p {
        Pending::Execution { node_id, .. } => *node_id,
        Pending::Line { node_id } => *node_id,
    }
}

fn kind_of(p: &Pending) -> (r: EdgeKind)
    ensures
        r == pending_kind(*p),
{
    match p {
        Pending::Execution { .. } => EdgeKind::Execution,
        Pending::Line { .. } => EdgeKind::Line,
    }
}

fn find_target(p: &Pending, inputs: &Vec<InputHit>) -> (r: Option<InputHit>)
    ensures
        r == connect_target(*p, inputs@, 0),
{
    let from = source_of(p);
    let kind = kind_of(p);
    let mut k: usize = 0;
    while k < inputs.len()
        invariant
            k <= inputs@.len(),
            from == pending_source(*p),
            kind == pending_kind(*p),
            connect_target(*p, inputs@, 0) == connect_target(*p, inputs@, k as int),
        decreases inputs@.len() - k,
    {
        if inputs[k].node_id != from && inputs[k].kind == kind {
            return Some(inputs[k]);
        }
        k = k + 1;
    }
    None
}

fn is_pointer(event: &UiEvent, kind: PointerKind) -> (r: bool)
    ensures
        r == (*event == UiEvent::Pointer(kind)),
{
    match event {
        UiEvent::Pointer(k) => *k == kind,
        _ => false,
    }
}

fn wheel_step(
    s: AutomationEditorState,
    event: &UiEvent,
    hit: &AutomationHit,
    graph: &AutomationGraphView,
    roles: &Vec<String>,
) -> (r: (AutomationEditorState, Option<AutomationOutcome>))
    ensures
        r == staged(s, wheel_stage(s, *event, *hit, graph@, roles@)),
{
    if !(is_pointer(event, PointerKind::Scroll) && hit.in_zone) {
        return (s, None);
    }
    let shown = match s.role_picker_node {
        Some(id) => node_lookup(&graph.nodes, id).is_some(),
        None => false,
    };
    if !shown {
        return (s, None);
    }
    let m = roles.len().saturating_sub(hit.picker_rows);
    let scroll = s.role_picker_scroll;
    let next = match hit.wheel {
        ScrollDirection::Down => {
            let down = scroll.saturating_add(1);
            if down <= m {
                down
            } else {
                m
            }
        },
        ScrollDirection::Up => scroll.saturating_sub(1),
        ScrollDirection::Still => scroll,
    };
    let mut t = s;
    t.role_picker_scroll = next;
    (t, Some(AutomationOutcome::Respond(EventResponse::Consumed)))
}

fn delete_requested(event: &UiEvent) -> (r: bool)
    ensures
        r == is_delete(*event),
{
    match event {
        UiEvent::Delete => true,
        UiEvent::KeyInput { text } => crate::event::key_is(text, "\x7f"),
        _ => false,
    }
}

fn menu_step(
    s: AutomationEditorState,
    m: MenuState,
    hit: &AutomationHit,
    graph: &AutomationGraphView,
) -> (r: (AutomationEditorState, AutomationOutcome))
    ensures
        r == menu_press(s, m, *hit, graph@),
{
    let mut closed = s;
    closed.context_menu = None;
    let items: usize = if m.source.is_some() {
        1
    } else {
        4
    };
    match hit.menu_index {
        Some(i) => if i < items {
            match m.source {
                Some(n) => (closed, AutomationOutcome::AddConnectedNode { from_node: n }),
                None => {
                    let kind = if i == 0 {
                        NodeKind::ForEachLine
                    } else if i == 1 {
                        NodeKind::IfRole
                    } else if i == 2 {
                        NodeKind::SetTrack { track: 0 }
                    } else {
                        NodeKind::LineReroute
                    };
                    if i == 0 && any_entry(&graph.nodes) {
                        (closed, AutomationOutcome::Respond(EventResponse::Consumed))
                    } else {
                        (closed, AutomationOutcome::AddNode { kind })
                    }
                },
            }
        } else {
            (closed, AutomationOutcome::Respond(EventResponse::Consumed))
        },
        None => (closed, AutomationOutcome::Respond(EventResponse::Consumed)),
    }
}

fn fits(kind: NodeKind, control: &NodeControl) -> (r: bool)
    ensures
        r == control_fits(kind, *control),
{
    match control {
        NodeControl::EntryToggle => kind == NodeKind::ForEachLine,
        NodeControl::RemoveRole(_) | NodeControl::AddRole => kind == NodeKind::IfRole,
        NodeControl::TrackPrevious | NodeControl::TrackNext => match kind {
            NodeKind::SetTrack { .. } => true,
            _ => false,
        },
        _ => true,
    }
}

fn on_role(p: &Option<Pending>, node: u64, role: &String) -> (r: bool)
    ensures
        r == pending_on_role(*p, node, role@),
{
    match p {
        Some(Pending::Execution { node_id, branch: Branch::Role(r) }) => *node_id == node && *r
            == *role,
        _ => false,
    }
}

fn control_step(s: AutomationEditorState, n: AutomationNode, control: &NodeControl) -> (r: (
    AutomationEditorState,
    AutomationOutcome,
))
    requires
        control_fits(n.kind, *control),
    ensures
        r == control_press(s, n, *control),
{
    let mut t = s;
    match control {
        NodeControl::EntryToggle => {
            t.selected_node = Some(n.id);
            (
                t,
                AutomationOutcome::Respond(
                    EventResponse::Action(
                        UiAction::AutomationSetNodeEnabled { node_id: n.id, enabled: !n.enabled },
                    ),
                ),
            )
        },
        NodeControl::ExecInput | NodeControl::LineInput => (
            t,
            AutomationOutcome::Respond(EventResponse::Consumed),
        ),
        NodeControl::ExecOutput(branch) => {
            t.selected_node = Some(n.id);
            t.pending = Some(Pending::Execution { node_id: n.id, branch: copy_branch(branch) });
            (t, AutomationOutcome::Respond(EventResponse::Consumed))
        },
        NodeControl::LineOutput => {
            t.selected_node = Some(n.id);
            t.pending = Some(Pending::Line { node_id: n.id });
            (t, AutomationOutcome::Respond(EventResponse::Consumed))
        },
        NodeControl::RemoveRole(role) => {
            if on_role(&t.pending, n.id, role) {
                t.pending = None;
            }
            (
                t,
                AutomationOutcome::Respond(
                    EventResponse::Action(
                        UiAction::AutomationRemoveRole { node_id: n.id, role: role.clone() },
                    ),
                ),
            )
        },
        NodeControl::AddRole => {
            t.selected_node = Some(n.id);
            t.role_picker_node = Some(n.id);
            t.role_picker_scroll = 0;
            (t, AutomationOutcome::Respond(EventResponse::Consumed))
        },
        NodeControl::TrackPrevious => {
            let track = match n.kind {
                NodeKind::SetTrack { track } => track,
                _ => 0,
            };
            let to: u8 = if track == 0 {
                LAST_TRACK
            } else {
                track - 1
            };
            (
                t,
                AutomationOutcome::Respond(
                    EventResponse::Action(UiAction::AutomationSetTrack { node_id: n.id, track: to }),
                ),
            )
        },
        NodeControl::TrackNext => {
            let track = match n.kind {
                NodeKind::SetTrack { track } => track,
                _ => 0,
            };
            let to: u8 = if track >= LAST_TRACK {
                0
            } else {
                track + 1
            };
            (
                t,
                AutomationOutcome::Respond(
                    EventResponse::Action(UiAction::AutomationSetTrack { node_id: n.id, track: to }),
                ),
            )
        },
    }
}

fn controls_step(s: AutomationEditorState, controls: &Vec<ControlHit>, graph: &AutomationGraphView) -> (r:
    (AutomationEditorState, Option<AutomationOutcome>))
    ensures
        r == staged(s, controls_press(s, controls@, graph@, 0)),
{
    let mut k: usize = 0;
    while k < controls.len()
        invariant
            k <= controls@.len(),
            controls_press(s, controls@, graph@, 0) == controls_press(s, controls@, graph@, k as int),
        decreases controls@.len() - k,
    {
        if let Some(n) = node_lookup(&graph.nodes, controls[k].node_id) {
            if fits(n.kind, &controls[k].control) {
                let (t, o) = control_step(s, n, &controls[k].control);
                return (t, Some(o));
            }
        }
        k = k + 1;
    }
    (s, None)
}

fn canvas_step(
    s: AutomationEditorState,
    hit: &AutomationHit,
    graph: &AutomationGraphView,
    roles: &Vec<String>,
) -> (r: (AutomationEditorState, AutomationOutcome))
    ensures
        r == canvas_press(s, *hit, graph@, roles@),
{
    let ghost s0 = s;
    let shown = match s.role_picker_node {
        Some(id) => node_lookup(&graph.nodes, id).is_some(),
        None => false,
    };
    let mut s = s;
    if shown {
        let m = roles.len().saturating_sub(hit.picker_rows);
        if s.role_picker_scroll > m {
            s.role_picker_scroll = m;
        }
        if let Some(picker) = hit.picker {
            let scroll = s.role_picker_scroll;
            let node_id = s.role_picker_node.unwrap();
            if let Some(row) = picker.row {
                if row < hit.picker_rows && row < roles.len() && scroll < roles.len() - row {
                    let role = roles[scroll + row].clone();
                    return (
                        s,
                        AutomationOutcome::Respond(
                            EventResponse::Action(UiAction::AutomationAddRole { node_id, role }),
                        ),
                    );
                }
            }
            return (s, AutomationOutcome::Respond(EventResponse::Consumed));
        }
        s.role_picker_node = None;
    }
    let ghost s1 = s;
    let (s, answered) = controls_step(s, &hit.controls, graph);
    if let Some(o) = answered {
        return (s, o);
    }
    let mut s = s;
    match hit.card {
        Some(id) => {
            s.selected_node = Some(id);
            s.dragging = Some(id);
            (s, AutomationOutcome::Grab { node_id: id })
        },
        None => {
            s.selected_node = None;
            s.pending = None;
            s.role_picker_node = None;
            s.panning = true;
            (s, AutomationOutcome::Pan)
        },
    }
}

/// The editor's answer to `event` (see `automation_step_spec`): `hit` is
/// what lies under its position, `graph` the automation graph, and `roles`
/// the roles the shown role picker offers (`available_roles` of its node).
pub fn automation_step(
    s: AutomationEditorState,
    event: &UiEvent,
    hit: &AutomationHit,
    graph: &AutomationGraphView,
    roles: &Vec<String>,
) -> (r: (AutomationEditorState, AutomationOutcome))
    ensures
        r == automation_step_spec(s, *event, *hit, graph@, roles@),
{
    if !s.open {
        return (s, AutomationOutcome::Pass);
    }
    let (s, o) = wheel_step(s, event, hit, graph, roles);
    if let Some(o) = o {
        return (s, o);
    }
    let mut s = s;
    if delete_requested(event) {
        match s.selected_node {
            Some(id) => {
                s.selected_node = None;
                s.dragging = None;
                s.pending = None;
                s.role_picker_node = None;
                s.context_menu = None;
                return (
                    s,
                    AutomationOutcome::Respond(
                        EventResponse::Action(UiAction::AutomationDeleteNode { node_id: id }),
                    ),
                );
            },
            None => {
                return (s, AutomationOutcome::Respond(EventResponse::Consumed));
            },
        }
    }
    if let UiEvent::KeyInput { text } = event {
        if crate::event::key_is(text, "\x1b") {
            s.pending = None;
            s.role_picker_node = None;
            s.context_menu = None;
            return (s, AutomationOutcome::Respond(EventResponse::Consumed));
        }
    }
    if is_pointer(event, PointerKind::ContextMenu) {
        if hit.in_zone {
            s.context_menu = Some(MenuState { hovered: None, source: None });
            s.pending = None;
            s.role_picker_node = None;
            return (s, AutomationOutcome::OpenMenu { items: 4 });
        }
        return (s, AutomationOutcome::Pass);
    }
    if is_pointer(event, PointerKind::MouseMove) {
        if let Some(m) = s.context_menu {
            s.context_menu = Some(MenuState { hovered: hit.menu_index, source: m.source });
            return (s, AutomationOutcome::Respond(EventResponse::Consumed));
        }
        if s.dragging.is_some() || s.panning || s.pending.is_some() {
            return (s, AutomationOutcome::Respond(EventResponse::Consumed));
        }
    }
    if is_pointer(event, PointerKind::MouseRelease) {
        if let Some(id) = s.dragging {
            s.dragging = None;
            return (s, AutomationOutcome::MoveNode { node_id: id });
        }
        if let Some(p) = s.pending.take() {
            match find_target(&p, &hit.inputs) {
                Some(to) => {
                    let from_node = source_of(&p);
                    let kind = kind_of(&p);
                    let branch = match p {
                        Pending::Execution { branch, .. } => branch,
                        Pending::Line { .. } => Branch::Next,
                    };
                    return (
                        s,
                        AutomationOutcome::Respond(
                            EventResponse::Action(
                                UiAction::AutomationConnect {
                                    from_node,
                                    kind,
                                    branch,
                                    to_node: to.node_id,
                                },
                            ),
                        ),
                    );
                },
                None => {
                    let line = match p {
                        Pending::Line { .. } => true,
                        _ => false,
                    };
                    if line && hit.in_zone && !hit.on_node_or_pin {
                        s.context_menu = Some(
                            MenuState { hovered: Some(0), source: Some(source_of(&p)) },
                        );
                        return (s, AutomationOutcome::OpenMenu { items: 1 });
                    }
                    return (s, AutomationOutcome::Respond(EventResponse::Consumed));
                },
            }
        }
        if s.panning {
            s.panning = false;
            return (s, AutomationOutcome::Respond(EventResponse::Consumed));
        }
    }
    if is_pointer(event, PointerKind::DoubleClick) && hit.in_zone {
        return (s, AutomationOutcome::Respond(EventResponse::Consumed));
    }
    if !is_pointer(event, PointerKind::MousePress) || !hit.in_zone {
        return (s, AutomationOutcome::Pass);
    }
    if let Some(m) = s.context_menu {
        return menu_step(s, m, hit, graph);
    }
    if hit.on_close {
        return (s, AutomationOutcome::Respond(EventResponse::Action(UiAction::CloseAutomation)));
    }
    canvas_step(s, hit, graph, roles)
}

/// The texts of `v`.
pub open spec fn texts(v: Seq<String>) -> Seq<Seq<char>> {
    Seq::new(v.len(), |i: int| v[i]@)
}

/// The roles of node `node`: its own roles `start`, then the roles of its
/// execution branches among `edges[..k]` not listed yet, in edge order.
pub open spec fn roles_upto(start: Seq<Seq<char>>, edges: Seq<AutomationEdge>, node: u64, k: int) -> Seq<
    Seq<char>,
>
    decreases k,
{
    if k <= 0 || k > edges.len() {
        start
    } else {
        let prev = roles_upto(start, edges, node, k - 1);
        let e = edges[k - 1];
        match e.branch {
            Branch::Role(r) => if e.kind == EdgeKind::Execution && e.from_node == node
                && !prev.contains(r@) {
                prev.push(r@)
            } else {
                prev
            },
            Branch::Next => prev,
        }
    }
}

/// The roles of `known[..k]` that are not among `selected`, in order.
pub open spec fn free_roles_upto(known: Seq<Seq<char>>, selected: Seq<Seq<char>>, k: int) -> Seq<
    Seq<char>,
>
    decreases k,
{
    if k <= 0 || k > known.len() {
        Seq::empty()
    } else {
        let prev = free_roles_upto(known, selected, k - 1);
        if selected.contains(known[k - 1]) {
            prev
        } else {
            prev.push(known[k - 1])
        }
    }
}

fn lists(v: &Vec<String>, t: &String) -> (r: bool)
    ensures
        r == texts(v@).contains(t@),
{
    let mut j: usize = 0;
    while j < v.len()
        invariant
            j <= v@.len(),
            forall|i: int| 0 <= i < j ==> v@[i]@ != t@,
        decreases v@.len() - j,
    {
        if v[j] == *t {
            assert(texts(v@)[j as int] == t@);
            return true;
        }
        j = j + 1;
    }
    proof {
        if texts(v@).contains(t@) {
            let i = choose|i: int| 0 <= i < texts(v@).len() && texts(v@)[i] == t@;
            assert(v@[i]@ == t@);
        }
    }
    false
}

/// The roles an IfRole node `node` branches on: its own `node_roles`,
/// then those of its execution connections in `edges` not listed yet.
pub fn selected_roles(node: u64, node_roles: &Vec<String>, edges: &Vec<AutomationEdge>) -> (r: Vec<
    String,
>)
    ensures
        texts(r@) == roles_upto(texts(node_roles@), edges@, node, edges@.len() as int),
{
    let mut roles: Vec<String> = Vec::new();
    let mut j: usize = 0;
    while j < node_roles.len()
        invariant
            j <= node_roles@.len(),
            roles@.len() == j,
            forall|i: int| 0 <= i < j ==> #[trigger] roles@[i]@ == node_roles@[i]@,
        decreases node_roles@.len() - j,
    {
        let role = node_roles[j].clone();
        assert(role@ == node_roles@[j as int]@);
        roles.push(role);
        j = j + 1;
    }
    assert(texts(roles@) =~= texts(node_roles@));
    let mut k: usize = 0;
    while k < edges.len()
        invariant
            k <= edges@.len(),
            texts(roles@) == roles_upto(texts(node_roles@), edges@, node, k as int),
        decreases edges@.len() - k,
    {
        let e = &edges[k];
        if let Branch::Role(role) = &e.branch {
            if e.kind == EdgeKind::Execution && e.from_node == node && !lists(&roles, role) {
                roles.push(role.clone());
                assert(texts(roles@) =~= roles_upto(texts(node_roles@), edges@, node, k as int).push(
                    role@,
                ));
            }
        }
        k = k + 1;
    }
    roles
}

/// The roles the role picker offers: those of `known` (the project's
/// characters, in order) that are not among `selected`.
pub fn available_roles(known: &Vec<String>, selected: &Vec<String>) -> (r: Vec<String>)
    ensures
        texts(r@) == free_roles_upto(texts(known@), texts(selected@), known@.len() as int),
{
    let mut free: Vec<String> = Vec::new();
    let mut k: usize = 0;
    while k < known.len()
        invariant
            k <= known@.len(),
            texts(free@) == free_roles_upto(texts(known@), texts(selected@), k as int),
        decreases known@.len() - k,
    {
        if !lists(selected, &known[k]) {
            free.push(known[k].clone());
            assert(texts(free@) =~= free_roles_upto(texts(known@), texts(selected@), k as int).push(
                known@[k as int]@,
            ));
        }
        k = k + 1;
    }
    free
}

/// A closed editor takes no event and stays as it is.
pub proof fn lemma_closed_editor_passes(
    s: AutomationEditorState,
    event: UiEvent,
    hit: AutomationHit,
    nodes: Seq<AutomationNode>,
    roles: Seq<String>,
)
    requires
        !s.open,
    ensures
        automation_step_spec(s, event, hit, nodes, roles) == (s, AutomationOutcome::Pass),
{
}

/// Delete (or DEL) in an open editor deletes the selected node and lets go
/// of everything; with nothing selected it is swallowed and changes nothing.
pub proof fn lemma_delete_selected_node(
    s: AutomationEditorState,
    event: UiEvent,
    hit: AutomationHit,
    nodes: Seq<AutomationNode>,
    roles: Seq<String>,
)
    requires
        s.open,
        is_delete(event),
    ensures
        ({
            let (t, o) = automation_step_spec(s, event, hit, nodes, roles);
            match s.selected_node {
                Some(id) => {
                    &&& o == AutomationOutcome::Respond(
                        EventResponse::Action(UiAction::AutomationDeleteNode { node_id: id }),
                    )
                    &&& t.selected_node is None && t.dragging is None && t.pending is None
                    &&& t.role_picker_node is None && t.context_menu is None
                },
                None => t == s && o == AutomationOutcome::Respond(EventResponse::Consumed),
            }
        }),
{
}

/// Escape in an open editor drops the connection being drawn, the role
/// picker and the node menu.
pub proof fn lemma_escape_clears_overlays(
    s: AutomationEditorState,
    text: String,
    hit: AutomationHit,
    nodes: Seq<AutomationNode>,
    roles: Seq<String>,
)
    requires
        s.open,
        text@ == "\x1b"@,
    ensures
        ({
            let (t, o) = automation_step_spec(s, UiEvent::KeyInput { text }, hit, nodes, roles);
            &&& t.pending is None && t.role_picker_node is None && t.context_menu is None
            &&& t.selected_node == s.selected_node
            &&& o == AutomationOutcome::Respond(EventResponse::Consumed)
        }),
{
    reveal_strlit("\x1b");
    reveal_strlit("\x7f");
    assert("\x1b"@[0] == '\x1b');
    assert("\x7f"@[0] == '\x7f');
    assert("\x1b"@ != "\x7f"@);
}

/// A wheel turn over a shown role picker moves it by at most one row and
/// keeps it within its rows.
pub proof fn lemma_wheel_stays_in_picker(
    s: AutomationEditorState,
    hit: AutomationHit,
    nodes: Seq<AutomationNode>,
    roles: Seq<String>,
)
    requires
        s.open,
        hit.in_zone,
        s.role_picker_node is Some,
        node_of(nodes, s.role_picker_node.unwrap(), 0) is Some,
        s.role_picker_scroll <= picker_max_scroll(roles.len(), hit.picker_rows),
    ensures
        ({
            let (t, o) = automation_step_spec(
                s,
                UiEvent::Pointer(PointerKind::Scroll),
                hit,
                nodes,
                roles,
            );
            &&& t.role_picker_scroll <= picker_max_scroll(roles.len(), hit.picker_rows)
            &&& s.role_picker_scroll - 1 <= t.role_picker_scroll <= s.role_picker_scroll + 1
            &&& o == AutomationOutcome::Respond(EventResponse::Consumed)
        }),
{
}

/// Releasing a cable over an input of its kind on another node connects
/// the two with the cable's kind, and the cable is gone.
pub proof fn lemma_release_connects(
    s: AutomationEditorState,
    hit: AutomationHit,
    nodes: Seq<AutomationNode>,
    roles: Seq<String>,
    to: InputHit,
)
    requires
        s.open,
        s.dragging is None,
        s.pending is Some,
        connect_target(s.pending.unwrap(), hit.inputs@, 0) == Some(to),
    ensures
        ({
            let p = s.pending.unwrap();
            let (t, o) = automation_step_spec(
                s,
                UiEvent::Pointer(PointerKind::MouseRelease),
                hit,
                nodes,
                roles,
            );
            &&& o == AutomationOutcome::Respond(EventResponse::Action(connect_action(p, to)))
            &&& t.pending is None
        }),
{
}

/// A connection found for a cable joins an input of the cable's kind on a
/// node other than the one it leaves.
pub proof fn lemma_target_is_compatible(p: Pending, inputs: Seq<InputHit>, k: int)
    requires
        0 <= k,
        connect_target(p, inputs, k) is Some,
    ensures
        ({
            let to = connect_target(p, inputs, k).unwrap();
            &&& to.kind == pending_kind(p)
            &&& to.node_id != pending_source(p)
            &&& inputs.contains(to)
        }),
    decreases inputs.len() - k,
{
    if k < inputs.len() && !(inputs[k].node_id != pending_source(p) && inputs[k].kind
        == pending_kind(p)) {
        lemma_target_is_compatible(p, inputs, k + 1);
    }
}

/// The track buttons of a SetTrack node go round the four tracks: next
/// moves to `(t + 1) % 4`, previous to `(t + 3) % 4`, and each undoes the
/// other.
pub proof fn lemma_track_buttons_go_round(s: AutomationEditorState, n: AutomationNode, t: u8)
    requires
        n.kind == (NodeKind::SetTrack { track: t }),
        t <= 3,
    ensures
        control_press(s, n, NodeControl::TrackNext).1 == AutomationOutcome::Respond(
            EventResponse::Action(
                UiAction::AutomationSetTrack { node_id: n.id, track: ((t + 1) % 4) as u8 },
            ),
        ),
        control_press(s, n, NodeControl::TrackPrevious).1 == AutomationOutcome::Respond(
            EventResponse::Action(
                UiAction::AutomationSetTrack { node_id: n.id, track: ((t + 3) % 4) as u8 },
            ),
        ),
        track_before(track_after(t)) == t,
        track_after(track_before(t)) == t,
        track_after(t) <= 3 && track_before(t) <= 3,
{
}

} // verus!
