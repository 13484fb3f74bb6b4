//! Keyboard navigation of the file tree and what it announces to screen
//! readers.
//!
//! The tree's drawing layer reports how many rows fit in the panel
//! (`visible`, at least one); everything else is the tree's own state.

use vstd::prelude::*;

use crate::event::{
    is_activation_spec, keyboard_activation, key_is, AccessibilityEvent, EventResponse, UiAction,
    UiEvent,
};
use crate::i18n::{msg_text, t, Msg};
use crate::project::MediaId;
use crate::text::{decimal, owned, push_decimal, push_str};

use super::data::{
    audio_index, band_index, join_spec, join_strings, lemma_band_index, lemma_video_index,
    video_index, AudioData, BandData, FileTreeData, VideoData,
};
use super::rows::{
    expanded_get, flatten, flatten_spec, parent_video, row_position, set_metrics,
    set_metrics_spec, AudioRowId, ExpandedSet, GroupKind, Row, RowId,
};
use super::{find_band, group_label, parent_group, parent_group_spec, RenameTarget};

verus! {

/// Where the keyboard is in the tree: expanded groups, selected and
/// focused rows, and the first row shown.
#[derive(Clone, Copy, Debug, PartialEq, Eq, Structural)]
pub struct TreeNav {
    pub expanded: ExpandedSet,
    pub selected: Option<RowId>,
    pub focused: Option<RowId>,
    pub scroll: usize,
}

/// What a key did, beyond the tree's own state.
#[derive(Clone, Debug, PartialEq, Eq)]
pub enum TreeKeyOutcome {
    /// Answer the application with this response.
    Respond(EventResponse),
    /// Open the context menu of this row.
    OpenContextMenu(RowId),
    /// Start renaming this element.
    StartRename(RenameTarget),
}

/// The rows shown with `nav`'s groups.
pub open spec fn nav_rows(nav: TreeNav, data: FileTreeData) -> Seq<Row> {
    flatten_spec(data.videos@, data.bands@, data.audios@, nav.expanded)
}

/// Position of the focused row among the rows shown.
pub open spec fn focus_index(nav: TreeNav, rows: Seq<Row>) -> Option<int> {
    match nav.focused {
        Some(id) => row_position(rows, id, 0),
        None => None,
    }
}

/// `scroll` moved just enough to show row `index`, then kept within the
/// rows.
pub open spec fn scrolled_to(scroll: int, index: Option<int>, visible: int, count: int) -> int {
    let s = match index {
        Some(i) => if i < scroll {
            i
        } else if i >= scroll + visible {
            i + 1 - visible
        } else {
            scroll
        },
        None => scroll,
    };
    let max = if count > visible {
        count - visible
    } else {
        0
    };
    match index {
        Some(_) => if s < max {
            s
        } else {
            max
        },
        None => scroll,
    }
}

/// `nav` with the focused row scrolled into view.
pub open spec fn revealed(nav: TreeNav, visible: int, data: FileTreeData) -> TreeNav {
    let rows = nav_rows(nav, data);
    TreeNav {
        scroll: scrolled_to(
            nav.scroll as int,
            focus_index(nav, rows),
            visible,
            rows.len() as int,
        ) as usize,
        ..nav
    }
}

/// Identifier of the active band, or the largest `u64` when none is.
pub open spec fn active_band_id(bands: Seq<BandData>) -> u64
    decreases bands.len(),
{
    if bands.len() == 0 {
        u64::MAX
    } else if bands[0].active {
        bands[0].id
    } else {
        active_band_id(bands.drop_first())
    }
}

/// What removing row `id` asks of the application.
pub open spec fn remove_action_spec(id: RowId) -> Option<UiAction> {
    match id {
        RowId::Video(m) => Some(UiAction::MediaVideoRemove { id: m }),
        RowId::Audio(AudioRowId::Media(m)) => Some(UiAction::MediaAudioRemove { id: m }),
        RowId::Band(b) => Some(UiAction::DeleteLanguage { id: b }),
        _ => None,
    }
}

/// What renaming row `id` edits.
pub open spec fn rename_target_spec(id: RowId) -> Option<RenameTarget> {
    match id {
        RowId::Video(m) => Some(RenameTarget::Video(m)),
        RowId::Audio(AudioRowId::Media(m)) => Some(RenameTarget::Audio(m)),
        RowId::Band(b) => Some(RenameTarget::Band(b)),
        _ => None,
    }
}

/// Text shown on the header of group `kind`.
pub open spec fn group_text(kind: GroupKind) -> Seq<char> {
    msg_text(
        match kind {
            GroupKind::Videos => Msg::FileTreeGroupVideos,
            GroupKind::Bands => Msg::FileTreeGroupBands,
            GroupKind::Audios => Msg::FileTreeGroupAudios,
        },
    )
}

/// Number of entries of group `kind`.
pub open spec fn group_count(kind: GroupKind, data: FileTreeData) -> int {
    match kind {
        GroupKind::Videos => data.videos@.len() as int,
        GroupKind::Bands => data.bands@.len() as int,
        GroupKind::Audios => data.audios@.len() as int,
    }
}

/// Name of video `id`, empty when it is not in the tree.
pub open spec fn video_name(videos: Seq<VideoData>, id: MediaId) -> Seq<char> {
    match video_index(videos, id, 0) {
        Some(i) => videos[i].name@,
        None => Seq::empty(),
    }
}

/// `v` followed by `x` when `cond` holds.
pub open spec fn push_if(v: Seq<Seq<char>>, cond: bool, x: Seq<char>) -> Seq<Seq<char>> {
    if cond {
        v.push(x)
    } else {
        v
    }
}

/// What is said of row `id` itself, or `None` when it names nothing in
/// the tree.
pub open spec fn row_parts(id: RowId, data: FileTreeData) -> Option<Seq<Seq<char>>> {
    match id {
        RowId::Root => Some(seq![msg_text(Msg::A11yProject) + data.root_name@]),
        RowId::Group(kind) => {
            let count = group_count(kind, data);
            Some(
                seq![
                    msg_text(Msg::A11yGroup) + group_text(kind),
                    if count == 1 {
                        msg_text(Msg::A11yOneItem)
                    } else {
                        decimal(count as nat) + msg_text(Msg::A11yManyItems)
                    },
                ],
            )
        },
        RowId::Video(vid) => match video_index(data.videos@, vid, 0) {
            None => None,
            Some(i) => {
                let v = data.videos@[i];
                let first = match v.proxy_of {
                    Some(src) => msg_text(Msg::A11yVideoProxy) + video_name(data.videos@, src)
                        + msg_text(Msg::A11yVideoProxySeparator) + v.name@,
                    None => msg_text(Msg::A11yVideoSource) + v.name@,
                };
                let p0 = seq![first];
                let p1 = push_if(p0, v.proxy_of is Some, msg_text(Msg::A11yIsProxy));
                let p2 = push_if(p1, v.is_default, msg_text(Msg::BadgeDefault));
                let p3 = push_if(p2, v.is_proxy_source, msg_text(Msg::BadgeHasProxy));
                let p4 = push_if(p3, v.active, msg_text(Msg::A11yActive));
                Some(push_if(p4, v.missing, msg_text(Msg::A11yMissing)))
            },
        },
        RowId::Band(bid) => match band_index(data.bands@, bid, 0) {
            None => None,
            Some(i) => {
                let b = data.bands@[i];
                Some(
                    push_if(
                        seq![msg_text(Msg::A11yBand) + b.name@],
                        b.active,
                        msg_text(Msg::AccessibilitySelected),
                    ),
                )
            },
        },
        RowId::Audio(AudioRowId::OriginalVideo) => Some(seq![msg_text(Msg::A11yOriginalAudio)]),
        RowId::Audio(aid) => match audio_index(data.audios@, aid, 0) {
            None => None,
            Some(i) => {
                let a = data.audios@[i];
                let owners = Seq::new(a.instrumental_of@.len(), |k: int| a.instrumental_of@[k]@);
                Some(
                    push_if(
                        seq![msg_text(Msg::A11yAudio) + a.name@],
                        owners.len() > 0,
                        msg_text(Msg::A11yInstrumental) + join_spec(owners, ", "@),
                    ),
                )
            },
        },
    }
}

/// What a screen reader says of row `id`: the row itself, whether it is
/// the selected one (bands say so themselves when active), and its place
/// among its visible siblings.
pub open spec fn a11y_label(nav: TreeNav, id: RowId, data: FileTreeData) -> Seq<char> {
    match row_parts(id, data) {
        None => Seq::empty(),
        Some(parts) => {
            let with_selected = push_if(
                parts,
                nav.selected == Some(id) && !(id is Band),
                msg_text(Msg::AccessibilitySelected),
            );
            let all = match set_metrics_spec(nav_rows(nav, data), id) {
                Some((p, n)) => with_selected.push(
                    decimal(p as nat) + msg_text(Msg::A11yPositionOf) + decimal(n as nat),
                ),
                None => with_selected,
            };
            join_spec(all, ", "@)
        },
    }
}

/// The announcement of the focused row.
pub open spec fn focus_event_ok(nav: TreeNav, data: FileTreeData, r: EventResponse) -> bool {
    match nav.focused {
        None => r == EventResponse::Consumed,
        Some(id) => r matches EventResponse::Action(
            UiAction::Accessibility(AccessibilityEvent::Focus { label, role }),
        ) && label@ == a11y_label(nav, id, data) && role@ == "tree item"@,
    }
}

/// The announcement that group `kind` opened or closed.
pub open spec fn expand_event_ok(nav: TreeNav, kind: GroupKind, data: FileTreeData, r: EventResponse) -> bool {
    r matches EventResponse::Action(
        UiAction::Accessibility(AccessibilityEvent::ValueChanged { label, value }),
    ) && label@ == a11y_label(nav, RowId::Group(kind), data) && value@ == msg_text(
        if expanded_get(nav.expanded, kind) {
            Msg::AccessibilityExpanded
        } else {
            Msg::AccessibilityCollapsed
        },
    )
}

/// `nav` with group `kind` opened or closed.
pub open spec fn toggled_group(nav: TreeNav, kind: GroupKind) -> TreeNav {
    TreeNav {
        expanded: match kind {
            GroupKind::Videos => ExpandedSet { videos: !nav.expanded.videos, ..nav.expanded },
            GroupKind::Bands => ExpandedSet { bands: !nav.expanded.bands, ..nav.expanded },
            GroupKind::Audios => ExpandedSet { audios: !nav.expanded.audios, ..nav.expanded },
        },
        ..nav
    }
}

/// Index of row `index + 1`, stopping at the last row.
pub open spec fn next_index(index: Option<int>, count: int) -> int {
    match index {
        Some(i) => if i + 1 < count - 1 {
            i + 1
        } else {
            count - 1
        },
        None => 0,
    }
}

/// `nav` focused on row `k` of the rows shown.
pub open spec fn focused_on(nav: TreeNav, rows: Seq<Row>, k: int) -> TreeNav {
    TreeNav { focused: Some(rows[k].id), ..nav }
}

/// What activating row `id` does: a group opens or closes, a video is
/// used, a band other than the active one is loaded.
pub open spec fn activation(nav: TreeNav, id: RowId, data: FileTreeData) -> (TreeNav, Option<EventResponse>) {
    match id {
        RowId::Group(kind) => (toggled_group(nav, kind), None),
        RowId::Video(m) => (nav, Some(EventResponse::Action(UiAction::MediaVideoUse { id: m }))),
        RowId::Band(b) => (nav, Some(if b == active_band_id(data.bands@) {
            EventResponse::Consumed
        } else {
            EventResponse::Action(UiAction::SelectLanguage { id: b })
        })),
        _ => (nav, Some(EventResponse::Consumed)),
    }
}

/// The tree after a key, and what it answers: `Some` for a fixed outcome,
/// `None` for an announcement (of the focused row, or of a group toggled
/// open or closed; see `tree_key_announcement_ok`).
pub open spec fn tree_key_step(nav: TreeNav, event: UiEvent, visible: int, data: FileTreeData) -> (
    TreeNav,
    Option<TreeKeyOutcome>,
) {
    let rows = nav_rows(nav, data);
    let n = rows.len() as int;
    let index = focus_index(nav, rows);
    match event {
        UiEvent::KeyInput { text } => if text@ == "\x1b"@ {
            (nav, Some(TreeKeyOutcome::Respond(EventResponse::Action(UiAction::CloseFileTree))))
        } else if text@ == "F2"@ {
            (nav, Some(match nav.focused {
                Some(id) => match rename_target_spec(id) {
                    Some(target) => TreeKeyOutcome::StartRename(target),
                    None => TreeKeyOutcome::Respond(EventResponse::Consumed),
                },
                None => TreeKeyOutcome::Respond(EventResponse::Consumed),
            }))
        } else if is_activation_spec(&event) {
            match nav.focused {
                None => (nav, Some(TreeKeyOutcome::Respond(EventResponse::Consumed))),
                Some(id) => {
                    let (after, r) = activation(nav, id, data);
                    (after, match r {
                        Some(x) => Some(TreeKeyOutcome::Respond(x)),
                        None => None,
                    })
                },
            }
        } else {
            (nav, Some(TreeKeyOutcome::Respond(EventResponse::Consumed)))
        },
        UiEvent::CursorDown | UiEvent::FocusNext => (
            revealed(focused_on(nav, rows, next_index(index, n)), visible, data),
            None,
        ),
        UiEvent::CursorUp | UiEvent::FocusPrevious => {
            let k = match index {
                Some(i) => if i > 0 {
                    i - 1
                } else {
                    0
                },
                None => n - 1,
            };
            (revealed(focused_on(nav, rows, k), visible, data), None)
        },
        UiEvent::PageDown | UiEvent::PageUp => {
            let k = match index {
                Some(i) => if event is PageUp {
                    if i > visible {
                        i - visible
                    } else {
                        0
                    }
                } else if i + visible < n - 1 {
                    i + visible
                } else {
                    n - 1
                },
                None => 0,
            };
            (revealed(focused_on(nav, rows, k), visible, data), None)
        },
        UiEvent::Home => (TreeNav { scroll: 0, ..focused_on(nav, rows, 0) }, None),
        UiEvent::End => (revealed(focused_on(nav, rows, n - 1), visible, data), None),
        UiEvent::CursorRight => match nav.focused {
            Some(RowId::Group(kind)) => if !expanded_get(nav.expanded, kind) {
                (toggled_group(nav, kind), None)
            } else {
                (nav, None)
            },
            Some(_) => (revealed(focused_on(nav, rows, next_index(index, n)), visible, data), None),
            None => (nav, None),
        },
        UiEvent::CursorLeft => match nav.focused {
            Some(RowId::Group(kind)) => if expanded_get(nav.expanded, kind) {
                (toggled_group(nav, kind), None)
            } else {
                (nav, None)
            },
            _ => {
                let parent = match index {
                    Some(i) => if rows[i].depth == 3 {
                        parent_video(rows, i)
                    } else {
                        None
                    },
                    None => None,
                };
                match parent {
                    Some(p) => (TreeNav { focused: Some(rows[p].id), ..nav }, None),
                    None => match nav.focused {
                        Some(id) => match parent_group_spec(id) {
                            Some(kind) => (TreeNav { focused: Some(RowId::Group(kind)), ..nav }, None),
                            None => (nav, None),
                        },
                        None => (nav, None),
                    },
                }
            },
        },
        UiEvent::Activate => match nav.focused {
            None => (nav, Some(TreeKeyOutcome::Respond(EventResponse::Consumed))),
            Some(id) => {
                let (after, r) = activation(nav, id, data);
                (after, match r {
                    Some(x) => Some(TreeKeyOutcome::Respond(x)),
                    None => None,
                })
            },
        },
        UiEvent::OpenContextMenu => (nav, Some(match nav.focused {
            Some(id) => TreeKeyOutcome::OpenContextMenu(id),
            None => TreeKeyOutcome::Respond(EventResponse::Consumed),
        })),
        UiEvent::Delete => (nav, Some(TreeKeyOutcome::Respond(match nav.focused {
            Some(id) => match remove_action_spec(id) {
                Some(a) => EventResponse::Action(a),
                None => EventResponse::Consumed,
            },
            None => EventResponse::Consumed,
        }))),
        _ => (nav, Some(TreeKeyOutcome::Respond(EventResponse::Consumed))),
    }
}

/// When a key's answer is an announcement: a group toggled open or closed
/// announces its new state; any other key announces the focused row.
pub open spec fn tree_key_announcement_ok(
    before: TreeNav,
    after: TreeNav,
    data: FileTreeData,
    r: TreeKeyOutcome,
) -> bool {
    if after.expanded != before.expanded {
        match before.focused {
            Some(RowId::Group(kind)) => r matches TreeKeyOutcome::Respond(x) && expand_event_ok(
                after,
                kind,
                data,
                x,
            ),
            _ => false,
        }
    } else {
        r matches TreeKeyOutcome::Respond(x) && focus_event_ok(after, data, x)
    }
}

/// The views of a list of strings, in order.
pub open spec fn string_views(v: Seq<String>) -> Seq<Seq<char>> {
    Seq::new(v.len(), |i: int| v[i]@)
}

fn push_part(parts: &mut Vec<String>, s: String)
    ensures
        string_views(final(parts)@) == string_views(old(parts)@).push(s@),
{
    let ghost before = string_views(parts@);
    let ghost sv = s@;
    parts.push(s);
    assert(string_views(parts@) =~= before.push(sv));
}

fn concat(a: &str, b: &str) -> (r: String)
    ensures
        r@ == a@ + b@,
{
    let mut s = owned(a);
    push_str(&mut s, b);
    s
}

proof fn lemma_row_position(rows: Seq<Row>, id: RowId, k: int)
    ensures
        row_position(rows, id, k) matches Some(i) ==> k <= i < rows.len() && rows[i].id == id,
    decreases rows.len() - k,
{
    if 0 <= k < rows.len() && rows[k].id != id {
        lemma_row_position(rows, id, k + 1);
    }
}

proof fn lemma_parent_video(rows: Seq<Row>, k: int)
    ensures
        parent_video(rows, k) matches Some(p) ==> 0 <= p < k && p < rows.len(),
    decreases k,
{
    if 0 < k <= rows.len() && !super::rows::is_entry_video(rows, k - 1) {
        lemma_parent_video(rows, k - 1);
    }
}

/// Position of row `id` among `rows`.
fn find_row(rows: &Vec<Row>, id: RowId) -> (r: Option<usize>)
    ensures
        match r {
            Some(i) => row_position(rows@, id, 0) == Some(i as int),
            None => row_position(rows@, id, 0) is None,
        },
{
    let mut i: usize = 0;
    while i < rows.len()
        invariant
            i <= rows@.len(),
            row_position(rows@, id, 0) == row_position(rows@, id, i as int),
        decreases rows@.len() - i,
    {
        if rows[i].id == id {
            return Some(i);
        }
        i = i + 1;
    }
    None
}

/// The proxy's parent video row: the closest entry video before row `k`.
fn find_parent_video(rows: &Vec<Row>, k: usize) -> (r: Option<usize>)
    requires
        k <= rows@.len(),
    ensures
        match r {
            Some(p) => parent_video(rows@, k as int) == Some(p as int),
            None => parent_video(rows@, k as int) is None,
        },
{
    let mut j: usize = k;
    while j > 0
        invariant
            j <= k <= rows@.len(),
            parent_video(rows@, k as int) == parent_video(rows@, j as int),
        decreases j,
    {
        if rows[j - 1].depth == 2 && matches!(rows[j - 1].id, RowId::Video(_)) {
            return Some(j - 1);
        }
        j = j - 1;
    }
    None
}

/// Identifier of the active band, or the largest `u64` when none is.
fn active_band(bands: &Vec<BandData>) -> (r: u64)
    ensures
        r == active_band_id(bands@),
{
    let mut i: usize = 0;
    assert(bands@.skip(0) =~= bands@);
    while i < bands.len()
        invariant
            i <= bands@.len(),
            active_band_id(bands@) == active_band_id(bands@.skip(i as int)),
        decreases bands@.len() - i,
    {
        if bands[i].active {
            assert(bands@.skip(i as int)[0] == bands@[i as int]);
            return bands[i].id;
        }
        assert(bands@.skip(i as int).drop_first() =~= bands@.skip(i + 1));
        i = i + 1;
    }
    u64::MAX
}

impl TreeNav {
    /// The tree as it opens: every group expanded, nothing selected or
    /// focused.
    pub fn new() -> (r: Self)
        ensures
            r.expanded == (ExpandedSet { videos: true, bands: true, audios: true }),
            r.selected is None,
            r.focused is None,
            r.scroll == 0,
    {
        TreeNav { expanded: ExpandedSet::all_expanded(), selected: None, focused: None, scroll: 0 }
    }

    fn toggle_group(&mut self, kind: GroupKind)
        ensures
            *final(self) == toggled_group(*old(self), kind),
    {
        match kind {
            GroupKind::Videos => self.expanded.videos = !self.expanded.videos,
            GroupKind::Bands => self.expanded.bands = !self.expanded.bands,
            GroupKind::Audios => self.expanded.audios = !self.expanded.audios,
        }
    }

    fn scroll_to_focus(&mut self, visible: usize, data: &FileTreeData)
        requires
            visible >= 1,
        ensures
            *final(self) == revealed(*old(self), visible as int, *data),
    {
        let rows = flatten(data, &self.expanded);
        let index = match self.focused {
            Some(id) => find_row(&rows, id),
            None => None,
        };
        proof {
            if let Some(id) = self.focused {
                lemma_row_position(rows@, id, 0);
            }
        }
        match index {
            Some(i) => {
                let s = if i < self.scroll {
                    i
                } else if i - self.scroll >= visible {
                    i - visible + 1
                } else {
                    self.scroll
                };
                let max = if rows.len() > visible {
                    rows.len() - visible
                } else {
                    0
                };
                self.scroll = if s < max {
                    s
                } else {
                    max
                };
            },
            None => {},
        }
    }

    /// What is said of row `id` itself (`None` when it names nothing).
    fn row_parts_of(id: RowId, data: &FileTreeData) -> (r: Option<Vec<String>>)
        ensures
            match r {
                Some(v) => row_parts(id, *data) == Some(string_views(v@)),
                None => row_parts(id, *data) is None,
            },
    {
        let mut parts: Vec<String> = Vec::new();
        match id {
            RowId::Root => {
                push_part(&mut parts, concat(t(Msg::A11yProject), data.root_name.as_str()));
            },
            RowId::Group(kind) => {
                push_part(&mut parts, concat(t(Msg::A11yGroup), group_label(kind)));
                let count = match kind {
                    GroupKind::Videos => data.videos.len(),
                    GroupKind::Bands => data.bands.len(),
                    GroupKind::Audios => data.audios.len(),
                };
                if count == 1 {
                    push_part(&mut parts, owned(t(Msg::A11yOneItem)));
                } else {
                    let mut s = String::new();
                    push_decimal(&mut s, count as u64);
                    push_str(&mut s, t(Msg::A11yManyItems));
                    push_part(&mut parts, s);
                }
            },
            RowId::Video(vid) => {
                let video = match data.video(vid) {
                    Some(v) => v,
                    None => return None,
                };
                let first = match video.proxy_of {
                    Some(src) => {
                        let mut s = owned(t(Msg::A11yVideoProxy));
                        match data.video(src) {
                            Some(source) => push_str(&mut s, source.name.as_str()),
                            None => {},
                        }
                        push_str(&mut s, t(Msg::A11yVideoProxySeparator));
                        push_str(&mut s, video.name.as_str());
                        s
                    },
                    None => concat(t(Msg::A11yVideoSource), video.name.as_str()),
                };
                push_part(&mut parts, first);
                if video.proxy_of.is_some() {
                    push_part(&mut parts, owned(t(Msg::A11yIsProxy)));
                }
                if video.is_default {
                    push_part(&mut parts, owned(t(Msg::BadgeDefault)));
                }
                if video.is_proxy_source {
                    push_part(&mut parts, owned(t(Msg::BadgeHasProxy)));
                }
                if video.active {
                    push_part(&mut parts, owned(t(Msg::A11yActive)));
                }
                if video.missing {
                    push_part(&mut parts, owned(t(Msg::A11yMissing)));
                }
            },
            RowId::Band(bid) => {
                let band = match find_band(&data.bands, bid) {
                    Some(b) => b,
                    None => return None,
                };
                push_part(&mut parts, concat(t(Msg::A11yBand), band.name.as_str()));
                if band.active {
                    push_part(&mut parts, owned(t(Msg::AccessibilitySelected)));
                }
            },
            RowId::Audio(AudioRowId::OriginalVideo) => {
                push_part(&mut parts, owned(t(Msg::A11yOriginalAudio)));
            },
            RowId::Audio(aid) => {
                let audio = match data.audio(aid) {
                    Some(a) => a,
                    None => return None,
                };
                push_part(&mut parts, concat(t(Msg::A11yAudio), audio.name.as_str()));
                if audio.instrumental_of.len() > 0 {
                    let owners = join_strings(&audio.instrumental_of, ", ");
                    push_part(&mut parts, concat(t(Msg::A11yInstrumental), owners.as_str()));
                }
            },
        }
        Some(parts)
    }

    /// What a screen reader says of row `id`.
    pub fn accessibility_label(&self, id: RowId, data: &FileTreeData) -> (r: String)
        ensures
            r@ == a11y_label(*self, id, *data),
    {
        let mut parts = match Self::row_parts_of(id, data) {
            Some(p) => p,
            None => return String::new(),
        };
        let ghost base = string_views(parts@);
        let is_band = match id {
            RowId::Band(_) => true,
            _ => false,
        };
        if self.selected == Some(id) && !is_band {
            push_part(&mut parts, owned(t(Msg::AccessibilitySelected)));
        }
        let rows = flatten(data, &self.expanded);
        match set_metrics(rows.as_slice(), id) {
            Some((p, n)) => {
                let mut s = String::new();
                push_decimal(&mut s, p as u64);
                push_str(&mut s, t(Msg::A11yPositionOf));
                push_decimal(&mut s, n as u64);
                push_part(&mut parts, s);
            },
            None => {},
        }
        join_strings(&parts, ", ")
    }

    fn focus_event(&self, data: &FileTreeData) -> (r: EventResponse)
        ensures
            focus_event_ok(*self, *data, r),
    {
        match self.focused {
            None => EventResponse::Consumed,
            Some(id) => EventResponse::Action(
                UiAction::Accessibility(
                    AccessibilityEvent::Focus {
                        label: self.accessibility_label(id, data),
                        role: owned("tree item"),
                    },
                ),
            ),
        }
    }

    fn expand_event(&self, kind: GroupKind, data: &FileTreeData) -> (r: EventResponse)
        ensures
            expand_event_ok(*self, kind, *data, r),
    {
        let value = if self.expanded.get(kind) {
            owned(t(Msg::AccessibilityExpanded))
        } else {
            owned(t(Msg::AccessibilityCollapsed))
        };
        EventResponse::Action(
            UiAction::Accessibility(
                AccessibilityEvent::ValueChanged {
                    label: self.accessibility_label(RowId::Group(kind), data),
                    value,
                },
            ),
        )
    }

    /// Activates row `id`, as Enter or a double click does.
    pub fn activate_row(&mut self, id: RowId, data: &FileTreeData) -> (r: EventResponse)
        ensures
            *final(self) == activation(*old(self), id, *data).0,
            match activation(*old(self), id, *data).1 {
                Some(x) => r == x,
                None => id matches RowId::Group(kind) && expand_event_ok(
                    *final(self),
                    kind,
                    *data,
                    r,
                ),
            },
    {
        match id {
            RowId::Group(kind) => {
                self.toggle_group(kind);
                self.expand_event(kind, data)
            },
            RowId::Video(m) => EventResponse::Action(UiAction::MediaVideoUse { id: m }),
            RowId::Band(b) => {
                if b == active_band(&data.bands) {
                    EventResponse::Consumed
                } else {
                    EventResponse::Action(UiAction::SelectLanguage { id: b })
                }
            },
            _ => EventResponse::Consumed,
        }
    }

    fn answer_activation(&mut self, data: &FileTreeData) -> (r: TreeKeyOutcome)
        requires
            old(self).focused is Some,
        ensures
            *final(self) == activation(*old(self), old(self).focused->0, *data).0,
            match activation(*old(self), old(self).focused->0, *data).1 {
                Some(x) => r == TreeKeyOutcome::Respond(x),
                None => tree_key_announcement_ok(*old(self), *final(self), *data, r),
            },
    {
        let id = self.focused.unwrap();
        let r = self.activate_row(id, data);
        proof {
            if let RowId::Group(kind) = id {
                assert(self.expanded != old(self).expanded) by {
                    assert(expanded_get(self.expanded, kind) != expanded_get(old(self).expanded, kind));
                }
            }
        }
        TreeKeyOutcome::Respond(r)
    }

    /// Handles a key while the tree has the keyboard; `visible` is the
    /// number of rows the panel shows.
    pub fn handle_tree_keyboard(&mut self, event: &UiEvent, visible: usize, data: &FileTreeData) -> (r: TreeKeyOutcome)
        requires
            visible >= 1,
        ensures
            *final(self) == tree_key_step(*old(self), *event, visible as int, *data).0,
            match tree_key_step(*old(self), *event, visible as int, *data).1 {
                Some(x) => r == x,
                None => tree_key_announcement_ok(*old(self), *final(self), *data, r),
            },
    {
        let rows = flatten(data, &self.expanded);
        let n = rows.len();
        let index = match self.focused {
            Some(id) => find_row(&rows, id),
            None => None,
        };
        proof {
            if let Some(id) = self.focused {
                lemma_row_position(rows@, id, 0);
            }
        }
        match event {
            UiEvent::KeyInput { text } => {
                if key_is(text, "\x1b") {
                    TreeKeyOutcome::Respond(EventResponse::Action(UiAction::CloseFileTree))
                } else if key_is(text, "F2") {
                    match self.focused {
                        Some(RowId::Video(m)) => TreeKeyOutcome::StartRename(RenameTarget::Video(m)),
                        Some(RowId::Audio(AudioRowId::Media(m))) => TreeKeyOutcome::StartRename(
                            RenameTarget::Audio(m),
                        ),
                        Some(RowId::Band(b)) => TreeKeyOutcome::StartRename(RenameTarget::Band(b)),
                        _ => TreeKeyOutcome::Respond(EventResponse::Consumed),
                    }
                } else if keyboard_activation(event) {
                    if self.focused.is_none() {
                        TreeKeyOutcome::Respond(EventResponse::Consumed)
                    } else {
                        self.answer_activation(data)
                    }
                } else {
                    TreeKeyOutcome::Respond(EventResponse::Consumed)
                }
            },
            UiEvent::Activate => {
                if self.focused.is_none() {
                    TreeKeyOutcome::Respond(EventResponse::Consumed)
                } else {
                    self.answer_activation(data)
                }
            },
            UiEvent::CursorDown | UiEvent::FocusNext => {
                let k = match index {
                    Some(i) => if i + 1 < n - 1 {
                        i + 1
                    } else {
                        n - 1
                    },
                    None => 0,
                };
                self.focused = Some(rows[k].id);
                self.scroll_to_focus(visible, data);
                TreeKeyOutcome::Respond(self.focus_event(data))
            },
            UiEvent::CursorUp | UiEvent::FocusPrevious => {
                let k = match index {
                    Some(i) => if i > 0 {
                        i - 1
                    } else {
                        0
                    },
                    None => n - 1,
                };
                self.focused = Some(rows[k].id);
                self.scroll_to_focus(visible, data);
                TreeKeyOutcome::Respond(self.focus_event(data))
            },
            UiEvent::PageDown | UiEvent::PageUp => {
                let up = match event {
                    UiEvent::PageUp => true,
                    _ => false,
                };
                let k = match index {
                    Some(i) => if up {
                        if i > visible {
                            i - visible
                        } else {
                            0
                        }
                    } else if visible < n - 1 - i {
                        i + visible
                    } else {
                        n - 1
                    },
                    None => 0,
                };
                self.focused = Some(rows[k].id);
                self.scroll_to_focus(visible, data);
                TreeKeyOutcome::Respond(self.focus_event(data))
            },
            UiEvent::Home => {
                self.focused = Some(rows[0].id);
                self.scroll = 0;
                TreeKeyOutcome::Respond(self.focus_event(data))
            },
            UiEvent::End => {
                self.focused = Some(rows[n - 1].id);
                self.scroll_to_focus(visible, data);
                TreeKeyOutcome::Respond(self.focus_event(data))
            },
            UiEvent::CursorRight => {
                match self.focused {
                    Some(RowId::Group(kind)) => {
                        if !self.expanded.get(kind) {
                            self.toggle_group(kind);
                            return TreeKeyOutcome::Respond(self.expand_event(kind, data));
                        }
                    },
                    Some(_) => {
                        let k = match index {
                            Some(i) => if i + 1 < n - 1 {
                                i + 1
                            } else {
                                n - 1
                            },
                            None => 0,
                        };
                        self.focused = Some(rows[k].id);
                        self.scroll_to_focus(visible, data);
                    },
                    None => {},
                }
                TreeKeyOutcome::Respond(self.focus_event(data))
            },
            UiEvent::CursorLeft => {
                match self.focused {
                    Some(RowId::Group(kind)) => {
                        if self.expanded.get(kind) {
                            self.toggle_group(kind);
                            return TreeKeyOutcome::Respond(self.expand_event(kind, data));
                        }
                    },
                    _ => {
                        let parent = match index {
                            Some(i) => if rows[i].depth == 3 {
                                find_parent_video(&rows, i)
                            } else {
                                None
                            },
                            None => None,
                        };
                        proof {
                            if let Some(i) = index {
                                lemma_parent_video(rows@, i as int);
                            }
                        }
                        match parent {
                            Some(p) => {
                                self.focused = Some(rows[p].id);
                            },
                            None => {
                                match self.focused {
                                    Some(id) => match parent_group(id) {
                                        Some(kind) => {
                                            self.focused = Some(RowId::Group(kind));
                                        },
                                        None => {},
                                    },
                                    None => {},
                                }
                            },
                        }
                    },
                }
                TreeKeyOutcome::Respond(self.focus_event(data))
            },
            UiEvent::OpenContextMenu => match self.focused {
                Some(id) => TreeKeyOutcome::OpenContextMenu(id),
                None => TreeKeyOutcome::Respond(EventResponse::Consumed),
            },
            UiEvent::Delete => TreeKeyOutcome::Respond(
                match self.focused {
                    Some(id) => match super::remove_action(id) {
                        Some(action) => EventResponse::Action(action),
                        None => EventResponse::Consumed,
                    },
                    None => EventResponse::Consumed,
                },
            ),
            _ => TreeKeyOutcome::Respond(EventResponse::Consumed),
        }
    }
}

/// Page Up moves the focus one page (`visible` rows) up, stopping at the
/// first row, and Page Down one page down, stopping at the last; the rows
/// shown stay the same.
pub proof fn lemma_page_keys_move_one_page(nav: TreeNav, visible: int, data: FileTreeData, i: int)
    requires
        visible >= 0,
        focus_index(nav, nav_rows(nav, data)) == Some(i),
    ensures
        ({
            let rows = nav_rows(nav, data);
            let up = tree_key_step(nav, UiEvent::PageUp, visible, data).0;
            let down = tree_key_step(nav, UiEvent::PageDown, visible, data).0;
            &&& up.focused == Some(rows[if i - visible >= 0 { i - visible } else { 0 }].id)
            &&& down.focused == Some(
                rows[if i + visible <= rows.len() - 1 { i + visible } else { rows.len() - 1 }].id,
            )
            &&& up.expanded == nav.expanded && down.expanded == nav.expanded
        }),
{
}

} // verus!
