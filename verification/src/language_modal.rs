//! The media explorer dialog: videos, audios and rythmo bands (languages)
//! of the project, with their keyboard focus order and actions.
//!
//! Focus positions 0 to 2 are the three tabs, `CONTENT_FOCUS + n` is
//! control `n` of the shown tab, and `CLOSE_FOCUS` is the close button.
//! Geometry (which control the pointer is on, list scrolling) belongs to
//! the drawing layer, which reports a press as a [`LanguageTarget`].

use vstd::prelude::*;

use crate::event::{is_activation_spec, keyboard_activation, key_is, PointerKind, UiEvent};
use crate::i18n::{msg_text, t, Msg};
use crate::project::{next_syllable_language, SyllableLanguage};
use crate::text::{append_typed, typed_capped, 
    chars_of, char_count, is_blank, lemma_blank_iff_trimmed_empty, owned, push_char, push_str,
    str_is_blank, string_from, trim, trimmed,
};

verus! {

/// First focus position of a tab's controls.
pub const CONTENT_FOCUS: usize = 3;

/// Focus position of the close button.
pub const CLOSE_FOCUS: usize = usize::MAX;

/// Longest band name typed, in characters.
pub const MAX_NAME_CHARS: usize = 80;

/// The dialog's tabs.
#[derive(Clone, Copy, Debug, PartialEq, Eq, Structural)]
pub enum MediaExplorerTab {
    Videos,
    Audios,
    RythmoBands,
}

impl Default for MediaExplorerTab {
    fn default() -> (r: Self)
        ensures
            r == MediaExplorerTab::Videos,
    {
        MediaExplorerTab::Videos
    }
}

/// Position of a tab in the tab row.
pub open spec fn tab_index(tab: MediaExplorerTab) -> usize {
    match tab {
        MediaExplorerTab::Videos => 0,
        MediaExplorerTab::Audios => 1,
        MediaExplorerTab::RythmoBands => 2,
    }
}

/// The tab at position `index` (the last one past the end).
pub open spec fn tab_at(index: int) -> MediaExplorerTab {
    if index <= 0 {
        MediaExplorerTab::Videos
    } else if index == 1 {
        MediaExplorerTab::Audios
    } else {
        MediaExplorerTab::RythmoBands
    }
}

/// Text of a tab.
pub open spec fn tab_text(tab: MediaExplorerTab) -> Seq<char> {
    msg_text(
        match tab {
            MediaExplorerTab::Videos => Msg::MediaExplorerTabVideos,
            MediaExplorerTab::Audios => Msg::MediaExplorerTabAudios,
            MediaExplorerTab::RythmoBands => Msg::MediaExplorerTabRythmoBands,
        },
    )
}

impl MediaExplorerTab {
    /// Position of the tab in the tab row.
    pub fn index(self) -> (r: usize)
        ensures
            r == tab_index(self),
    {
        match self {
            MediaExplorerTab::Videos => 0,
            MediaExplorerTab::Audios => 1,
            MediaExplorerTab::RythmoBands => 2,
        }
    }

    /// The tab at position `index`; past the last, the last one.
    pub fn from_index(index: usize) -> (r: Self)
        ensures
            r == tab_at(index as int),
    {
        if index == 0 {
            MediaExplorerTab::Videos
        } else if index == 1 {
            MediaExplorerTab::Audios
        } else {
            MediaExplorerTab::RythmoBands
        }
    }

    /// Text of the tab.
    pub fn label(self) -> (r: &'static str)
        ensures
            r@ == tab_text(self),
    {
        match self {
            MediaExplorerTab::Videos => t(Msg::MediaExplorerTabVideos),
            MediaExplorerTab::Audios => t(Msg::MediaExplorerTabAudios),
            MediaExplorerTab::RythmoBands => t(Msg::MediaExplorerTabRythmoBands),
        }
    }
}

/// One video of the videos tab.
#[derive(Clone, Debug, PartialEq)]
pub struct MediaVideoItem {
    pub name: String,
    pub path: String,
    pub summary: String,
    pub audio_summary: Option<String>,
}

/// The source video and its proxy, and which of them is in use.
#[derive(Clone, Debug, PartialEq)]
pub struct MediaExplorerData {
    pub source: Option<MediaVideoItem>,
    pub proxy: Option<MediaVideoItem>,
    pub active_proxy: bool,
    pub default_proxy: bool,
    pub can_persist_default: bool,
}

impl Default for MediaExplorerData {
    fn default() -> (r: Self)
        ensures
            r.source is None,
            r.proxy is None,
            !r.active_proxy && !r.default_proxy && !r.can_persist_default,
    {
        MediaExplorerData {
            source: None,
            proxy: None,
            active_proxy: false,
            default_proxy: false,
            can_persist_default: false,
        }
    }
}

/// One rythmo band (language) of the project.
#[derive(Clone, Debug, PartialEq)]
pub struct LanguageListItem {
    pub id: u64,
    pub name: String,
    pub instrumental_audio_path: Option<String>,
    pub syllable_language: SyllableLanguage,
}

/// What the dialog asks of the application.
#[derive(Debug, PartialEq)]
pub enum LanguageModalResult {
    Consumed,
    Close,
    Create { name: String },
    Rename { id: u64, name: String },
    Delete { id: u64 },
    Select { id: u64 },
    SetSyllableLanguage { id: u64, language: SyllableLanguage },
    PickInstrumental { id: u64 },
    ClearInstrumental { id: u64 },
    AddVideo,
    CreateProxy,
    SwitchVideo { use_proxy: bool },
    SetDefaultVideo { use_proxy: bool },
    DeleteVideo { use_proxy: bool },
}

/// A band, as values.
pub struct LanguageView {
    pub id: u64,
    pub name: Seq<char>,
    pub has_instrumental: bool,
    pub syllable_language: SyllableLanguage,
}

/// The videos, as values.
pub struct MediaView {
    pub source: Option<Seq<char>>,
    pub proxy: Option<Seq<char>>,
    pub active_proxy: bool,
    pub default_proxy: bool,
    pub can_persist_default: bool,
}

/// The dialog's state, as values.
pub struct LanguageModalView {
    pub languages: Seq<LanguageView>,
    pub active_language_id: u64,
    pub selected_id: u64,
    pub name: Seq<char>,
    pub editing_name: bool,
    pub replace_name: bool,
    pub focus: usize,
    pub tab: MediaExplorerTab,
    pub media: MediaView,
}

/// The view of a band.
pub open spec fn language_view(l: LanguageListItem) -> LanguageView {
    LanguageView {
        id: l.id,
        name: l.name@,
        has_instrumental: l.instrumental_audio_path is Some,
        syllable_language: l.syllable_language,
    }
}

/// The views of the bands.
pub open spec fn language_views(v: Seq<LanguageListItem>) -> Seq<LanguageView> {
    Seq::new(v.len(), |i: int| language_view(v[i]))
}

/// The view of the videos.
pub open spec fn media_view(m: MediaExplorerData) -> MediaView {
    MediaView {
        source: match m.source {
            Some(v) => Some(v.name@),
            None => None,
        },
        proxy: match m.proxy {
            Some(v) => Some(v.name@),
            None => None,
        },
        active_proxy: m.active_proxy,
        default_proxy: m.default_proxy,
        can_persist_default: m.can_persist_default,
    }
}

/// The media explorer dialog.
pub struct LanguageModal {
    languages: Vec<LanguageListItem>,
    active_language_id: u64,
    selected_id: u64,
    name_input: String,
    editing_name: bool,
    replace_name: bool,
    keyboard_focus: usize,
    tab: MediaExplorerTab,
    media: MediaExplorerData,
}

impl View for LanguageModal {
    type V = LanguageModalView;

    closed spec fn view(&self) -> LanguageModalView {
        LanguageModalView {
            languages: language_views(self.languages@),
            active_language_id: self.active_language_id,
            selected_id: self.selected_id,
            name: self.name_input@,
            editing_name: self.editing_name,
            replace_name: self.replace_name,
            focus: self.keyboard_focus,
            tab: self.tab,
            media: media_view(self.media),
        }
    }
}

/// Position of the first band with identifier `id` at or after `k`, or the
/// count.
pub open spec fn band_pos(langs: Seq<LanguageView>, id: u64, k: int) -> int
    decreases langs.len() - k,
{
    if k < 0 || k >= langs.len() {
        langs.len() as int
    } else if langs[k].id == id {
        k
    } else {
        band_pos(langs, id, k + 1)
    }
}

/// Position of the selected band, or the count when it is gone.
pub open spec fn selected_pos(m: LanguageModalView) -> int {
    band_pos(m.languages, m.selected_id, 0)
}

/// Whether the selected band exists.
pub open spec fn has_selected(m: LanguageModalView) -> bool {
    selected_pos(m) < m.languages.len()
}

/// The band a list opens on: the active one, else the first, else none
/// (keeping `active`).
pub open spec fn initial_selection(langs: Seq<LanguageView>, active: u64) -> u64 {
    if band_pos(langs, active, 0) < langs.len() {
        active
    } else if langs.len() > 0 {
        langs[0].id
    } else {
        active
    }
}

/// Name of band `id`, empty when it is gone.
pub open spec fn band_name(langs: Seq<LanguageView>, id: u64) -> Seq<char> {
    let k = band_pos(langs, id, 0);
    if k < langs.len() {
        langs[k].name
    } else {
        Seq::empty()
    }
}

/// Focus positions the keyboard goes through, in order: the tabs, the
/// shown tab's controls that can act, the close button.
pub open spec fn focus_order(m: LanguageModalView) -> Seq<usize> {
    let content = match m.tab {
        MediaExplorerTab::Videos => video_focus(m.media),
        MediaExplorerTab::Audios => audio_focus(m.languages, m.languages.len() as int),
        MediaExplorerTab::RythmoBands => band_focus(m),
    };
    seq![0usize, 1usize, 2usize] + content + seq![CLOSE_FOCUS]
}

/// Focus positions of the videos tab: each video's use, make-default and
/// delete controls when they can act, then add, then create-proxy.
pub open spec fn video_focus(md: MediaView) -> Seq<usize> {
    let c = CONTENT_FOCUS;
    let src = md.source is Some;
    let prx = md.proxy is Some;
    let s0 = if src && md.active_proxy {
        seq![c]
    } else {
        Seq::empty()
    };
    let s1 = if src && md.can_persist_default && md.default_proxy {
        seq![(c + 1) as usize]
    } else {
        Seq::empty()
    };
    let s2 = if src {
        seq![(c + 2) as usize]
    } else {
        Seq::empty()
    };
    let p0 = if prx && !md.active_proxy {
        seq![(c + 3) as usize]
    } else {
        Seq::empty()
    };
    let p1 = if prx && md.can_persist_default && !md.default_proxy {
        seq![(c + 4) as usize]
    } else {
        Seq::empty()
    };
    let p2 = if prx {
        seq![(c + 5) as usize]
    } else {
        Seq::empty()
    };
    let tail = if src {
        seq![(c + 6) as usize, (c + 7) as usize]
    } else {
        seq![(c + 6) as usize]
    };
    s0 + s1 + s2 + p0 + p1 + p2 + tail
}

/// Focus positions of the bands tab: the list, the name field, then the
/// actions that can act on the selected band.
pub open spec fn band_focus(m: LanguageModalView) -> Seq<usize> {
    let c = CONTENT_FOCUS;
    let named = !is_blank(m.name);
    let sel = has_selected(m);
    let sp = selected_pos(m);
    (if m.languages.len() > 0 {
        seq![c]
    } else {
        Seq::empty()
    }) + seq![(c + 1) as usize] + (if named {
        seq![(c + 2) as usize]
    } else {
        Seq::empty()
    }) + if sel {
        (if named {
            seq![(c + 3) as usize]
        } else {
            Seq::empty()
        }) + (if m.selected_id != m.active_language_id {
            seq![(c + 4) as usize]
        } else {
            Seq::empty()
        }) + seq![(c + 5) as usize] + (if m.languages.len() > 1 {
            seq![(c + 6) as usize]
        } else {
            Seq::empty()
        }) + seq![(c + 7) as usize] + (if m.languages[sp].has_instrumental {
            seq![(c + 8) as usize]
        } else {
            Seq::empty()
        })
    } else {
        Seq::empty()
    }
}

/// Focus positions of the audios tab for the first `k` bands: each band's
/// "choose" control, and its "remove" control when it has an instrumental.
pub open spec fn audio_focus(langs: Seq<LanguageView>, k: int) -> Seq<usize>
    decreases k,
{
    if k <= 0 || k > langs.len() {
        Seq::empty()
    } else {
        let i = k - 1;
        audio_focus(langs, i) + seq![(CONTENT_FOCUS + i * 2) as usize] + if langs[i].has_instrumental {
            seq![(CONTENT_FOCUS + i * 2 + 1) as usize]
        } else {
            Seq::empty()
        }
    }
}

/// Position of `x` in `s`, or `s.len()`.
pub open spec fn pos_in(s: Seq<usize>, x: usize, k: int) -> int
    decreases s.len() - k,
{
    if k < 0 || k >= s.len() {
        s.len() as int
    } else if s[k] == x {
        k
    } else {
        pos_in(s, x, k + 1)
    }
}

/// The dialog after Tab (`forward`) or Shift+Tab: the next focus position
/// of the order, wrapping; the band name is edited when it gets the focus.
pub open spec fn focus_moved(m: LanguageModalView, forward: bool) -> LanguageModalView {
    let order = focus_order(m);
    let n = order.len() as int;
    let found = pos_in(order, m.focus, 0);
    let cur = if found < n {
        found
    } else if forward {
        n - 1
    } else {
        0
    };
    let next = if forward {
        order[(cur + 1) % n]
    } else {
        order[(cur + n - 1) % n]
    };
    let editing = m.tab == MediaExplorerTab::RythmoBands && next == CONTENT_FOCUS + 1;
    LanguageModalView { focus: next, editing_name: editing, replace_name: editing, ..m }
}

/// The dialog showing tab `tab`, its tab focused, the name not edited.
pub open spec fn tab_set(m: LanguageModalView, tab: MediaExplorerTab) -> LanguageModalView {
    LanguageModalView {
        tab,
        focus: tab_index(tab),
        editing_name: false,
        replace_name: false,
        ..m
    }
}

/// Index of the focused control of the shown tab, if any.
pub open spec fn content_focus(m: LanguageModalView) -> Option<int> {
    if m.focus >= CONTENT_FOCUS && m.focus != CLOSE_FOCUS {
        Some(m.focus - CONTENT_FOCUS)
    } else {
        None
    }
}

/// The band a list opens on among `langs`.
fn initial_selected(langs: &Vec<LanguageListItem>, active: u64) -> (r: u64)
    ensures
        r == initial_selection(language_views(langs@), active),
{
    if find_band_pos(langs, active) < langs.len() {
        active
    } else if langs.len() > 0 {
        langs[0].id
    } else {
        active
    }
}

/// Position of band `id`, or the count.
fn find_band_pos(langs: &Vec<LanguageListItem>, id: u64) -> (r: usize)
    ensures
        r == band_pos(language_views(langs@), id, 0),
        r <= langs@.len(),
        r < langs@.len() ==> langs@[r as int].id == id,
{
    let ghost lv = language_views(langs@);
    let mut i: usize = 0;
    while i < langs.len()
        invariant
            i <= langs@.len(),
            lv == language_views(langs@),
            band_pos(lv, id, 0) == band_pos(lv, id, i as int),
        decreases langs@.len() - i,
    {
        if langs[i].id == id {
            return i;
        }
        i = i + 1;
    }
    i
}

/// `s` as an owned string.
fn name_of(langs: &Vec<LanguageListItem>, id: u64) -> (r: String)
    ensures
        r@ == band_name(language_views(langs@), id),
{
    let k = find_band_pos(langs, id);
    if k < langs.len() {
        owned(langs[k].name.as_str())
    } else {
        String::new()
    }
}

impl LanguageModal {
    /// Bands and focus positions stay within machine integers.
    pub open spec fn wf(&self) -> bool {
        self@.languages.len() < 0x1000_0000
    }

    /// The dialog over `languages` with `active_language_id` the active
    /// band: the active band selected (else the first), its name in the
    /// name field, the videos tab shown and focused.
    pub fn new(languages: Vec<LanguageListItem>, active_language_id: u64) -> (r: Self)
        requires
            languages@.len() < 0x1000_0000,
        ensures
            r.wf(),
            r@ == (LanguageModalView {
                languages: language_views(languages@),
                active_language_id,
                selected_id: initial_selection(language_views(languages@), active_language_id),
                name: band_name(
                    language_views(languages@),
                    initial_selection(language_views(languages@), active_language_id),
                ),
                editing_name: false,
                replace_name: false,
                focus: 0,
                tab: MediaExplorerTab::Videos,
                media: media_view(MediaExplorerData {
                    source: None,
                    proxy: None,
                    active_proxy: false,
                    default_proxy: false,
                    can_persist_default: false,
                }),
            }),
    {
        let selected_id = initial_selected(&languages, active_language_id);
        let name_input = name_of(&languages, selected_id);
        LanguageModal {
            languages,
            active_language_id,
            selected_id,
            name_input,
            editing_name: false,
            replace_name: false,
            keyboard_focus: 0,
            tab: MediaExplorerTab::Videos,
            media: MediaExplorerData::default(),
        }
    }

    /// The same as `new`, with `media` in the videos tab.
    pub fn with_media(languages: Vec<LanguageListItem>, active_language_id: u64, media: MediaExplorerData) -> (r: Self)
        requires
            languages@.len() < 0x1000_0000,
        ensures
            r.wf(),
            r@ == (LanguageModalView {
                media: media_view(media),
                ..Self::new_spec(languages@, active_language_id)
            }),
    {
        let mut m = Self::new(languages, active_language_id);
        m.media = media;
        m
    }

    /// What `new` builds.
    pub open spec fn new_spec(languages: Seq<LanguageListItem>, active: u64) -> LanguageModalView {
        LanguageModalView {
            languages: language_views(languages),
            active_language_id: active,
            selected_id: initial_selection(language_views(languages), active),
            name: band_name(language_views(languages), initial_selection(language_views(languages), active)),
            editing_name: false,
            replace_name: false,
            focus: 0,
            tab: MediaExplorerTab::Videos,
            media: media_view(MediaExplorerData {
                source: None,
                proxy: None,
                active_proxy: false,
                default_proxy: false,
                can_persist_default: false,
            }),
        }
    }

    fn video_focus_vec(&self) -> (r: Vec<usize>)
        ensures
            r@ == video_focus(self@.media),
    {
        let c = CONTENT_FOCUS;
        let mut v: Vec<usize> = Vec::new();
        let md = &self.media;
        let src = md.source.is_some();
        let prx = md.proxy.is_some();
        if src && md.active_proxy {
            v.push(c);
        }
        if src && md.can_persist_default && md.default_proxy {
            v.push(c + 1);
        }
        if src {
            v.push(c + 2);
        }
        if prx && !md.active_proxy {
            v.push(c + 3);
        }
        if prx && md.can_persist_default && !md.default_proxy {
            v.push(c + 4);
        }
        if prx {
            v.push(c + 5);
        }
        v.push(c + 6);
        if src {
            v.push(c + 7);
        }
        assert(v@ =~= video_focus(self@.media));
        v
    }

    fn audio_focus_vec(&self) -> (r: Vec<usize>)
        requires
            self.wf(),
        ensures
            r@ == audio_focus(self@.languages, self@.languages.len() as int),
    {
        let mut v: Vec<usize> = Vec::new();
        let ghost lv = self@.languages;
        assert(lv.len() == self.languages@.len());
        let mut i: usize = 0;
        while i < self.languages.len()
            invariant
                lv == language_views(self.languages@),
                lv.len() == self.languages@.len(),
                self.languages@.len() < 0x1000_0000,
                i <= self.languages@.len(),
                v@ == audio_focus(lv, i as int),
            decreases self.languages@.len() - i,
        {
            assert(lv[i as int].has_instrumental == self.languages@[i as int].instrumental_audio_path is Some);
            v.push(CONTENT_FOCUS + i * 2);
            if self.languages[i].instrumental_audio_path.is_some() {
                v.push(CONTENT_FOCUS + i * 2 + 1);
            }
            i = i + 1;
            assert(v@ =~= audio_focus(lv, i as int));
        }
        v
    }

    fn band_focus_vec(&self) -> (r: Vec<usize>)
        ensures
            r@ == band_focus(self@),
    {
        let c = CONTENT_FOCUS;
        let mut v: Vec<usize> = Vec::new();
        let named = !str_is_blank(self.name_input.as_str());
        let sp = find_band_pos(&self.languages, self.selected_id);
        if self.languages.len() > 0 {
            v.push(c);
        }
        v.push(c + 1);
        if named {
            v.push(c + 2);
        }
        if sp < self.languages.len() {
            if named {
                v.push(c + 3);
            }
            if self.selected_id != self.active_language_id {
                v.push(c + 4);
            }
            v.push(c + 5);
            if self.languages.len() > 1 {
                v.push(c + 6);
            }
            v.push(c + 7);
            if self.languages[sp].instrumental_audio_path.is_some() {
                v.push(c + 8);
            }
        }
        assert(v@ =~= band_focus(self@));
        v
    }

    fn focus_order_vec(&self) -> (r: Vec<usize>)
        requires
            self.wf(),
        ensures
            r@ == focus_order(self@),
            r@.len() >= 4,
    {
        let mut content = match self.tab {
            MediaExplorerTab::Videos => self.video_focus_vec(),
            MediaExplorerTab::Audios => self.audio_focus_vec(),
            MediaExplorerTab::RythmoBands => self.band_focus_vec(),
        };
        let mut v: Vec<usize> = Vec::new();
        v.push(0);
        v.push(1);
        v.push(2);
        v.append(&mut content);
        v.push(CLOSE_FOCUS);
        assert(v@ =~= focus_order(self@));
        v
    }
}

/// An answer of the dialog, with names as character sequences.
pub enum Answer {
    Consumed,
    Close,
    Create(Seq<char>),
    Rename(u64, Seq<char>),
    Delete(u64),
    Select(u64),
    SetSyllableLanguage(u64, SyllableLanguage),
    PickInstrumental(u64),
    ClearInstrumental(u64),
    AddVideo,
    CreateProxy,
    SwitchVideo(bool),
    SetDefaultVideo(bool),
    DeleteVideo(bool),
}

/// The answer a result gives.
pub open spec fn answer_of(r: LanguageModalResult) -> Answer {
    match r {
        LanguageModalResult::Consumed => Answer::Consumed,
        LanguageModalResult::Close => Answer::Close,
        LanguageModalResult::Create { name } => Answer::Create(name@),
        LanguageModalResult::Rename { id, name } => Answer::Rename(id, name@),
        LanguageModalResult::Delete { id } => Answer::Delete(id),
        LanguageModalResult::Select { id } => Answer::Select(id),
        LanguageModalResult::SetSyllableLanguage { id, language } => Answer::SetSyllableLanguage(id, language),
        LanguageModalResult::PickInstrumental { id } => Answer::PickInstrumental(id),
        LanguageModalResult::ClearInstrumental { id } => Answer::ClearInstrumental(id),
        LanguageModalResult::AddVideo => Answer::AddVideo,
        LanguageModalResult::CreateProxy => Answer::CreateProxy,
        LanguageModalResult::SwitchVideo { use_proxy } => Answer::SwitchVideo(use_proxy),
        LanguageModalResult::SetDefaultVideo { use_proxy } => Answer::SetDefaultVideo(use_proxy),
        LanguageModalResult::DeleteVideo { use_proxy } => Answer::DeleteVideo(use_proxy),
    }
}

/// Where a press landed, as the drawing layer found it.
#[derive(Clone, Copy, Debug, PartialEq, Eq, Structural)]
pub enum LanguageTarget {
    /// Outside the dialog.
    Outside,
    CloseButton,
    /// Tab `n`.
    Tab(usize),
    /// Action `action` (0 to 2) of video row `row` (0 the source, 1 the
    /// proxy).
    VideoAction { row: usize, action: usize },
    /// Elsewhere on a video row.
    VideoRow { use_proxy: bool },
    /// Footer button `n` of the videos tab (0 add, 1 create proxy).
    FooterAction(usize),
    /// Action `action` (0 choose, 1 remove) of band `index` in the audios
    /// tab.
    AudioAction { index: usize, action: usize },
    /// Row `n` of the band list.
    ListRow(usize),
    NameField,
    /// Band action `n` (0 add, 1 rename, 2 select, 3 instrumental, 4
    /// delete).
    Action(usize),
    /// Syllable-language option `n` (0 French, 1 English, 2 Spanish).
    SyllableOption(usize),
    ClearAudio,
    /// Elsewhere in the dialog.
    Card,
}

/// The press positions stay within the dialog's controls.
pub open spec fn target_fits(t: LanguageTarget) -> bool {
    match t {
        LanguageTarget::Tab(i) => i < 3,
        LanguageTarget::VideoAction { row, action } => row < 2 && action < 3,
        LanguageTarget::FooterAction(i) => i < 2,
        LanguageTarget::AudioAction { index, action } => index < 0x1000_0000 && action < 2,
        LanguageTarget::Action(i) => i < 5,
        LanguageTarget::SyllableOption(i) => i < 3,
        _ => true,
    }
}

/// Syllable-language option `i`.
pub open spec fn syllable_option(i: int) -> SyllableLanguage {
    if i == 0 {
        SyllableLanguage::French
    } else if i == 1 {
        SyllableLanguage::English
    } else {
        SyllableLanguage::Spanish
    }
}

/// The option before (`right` false) or after `l`, going round.
pub open spec fn cycled_syllable(l: SyllableLanguage, right: bool) -> SyllableLanguage {
    match l {
        SyllableLanguage::French => if right {
            SyllableLanguage::English
        } else {
            SyllableLanguage::Spanish
        },
        SyllableLanguage::English => if right {
            SyllableLanguage::Spanish
        } else {
            SyllableLanguage::French
        },
        SyllableLanguage::Spanish => if right {
            SyllableLanguage::French
        } else {
            SyllableLanguage::English
        },
    }
}

/// What activating the focused video control asks.
pub open spec fn video_control(m: LanguageModalView) -> Answer {
    let md = m.media;
    let src = md.source is Some;
    let prx = md.proxy is Some;
    match content_focus(m) {
        Some(f) => if f == 0 && src && md.active_proxy {
            Answer::SwitchVideo(false)
        } else if f == 1 && src && md.can_persist_default && md.default_proxy {
            Answer::SetDefaultVideo(false)
        } else if f == 2 && src {
            Answer::DeleteVideo(false)
        } else if f == 3 && prx && !md.active_proxy {
            Answer::SwitchVideo(true)
        } else if f == 4 && prx && md.can_persist_default && !md.default_proxy {
            Answer::SetDefaultVideo(true)
        } else if f == 5 && prx {
            Answer::DeleteVideo(true)
        } else if f == 6 {
            Answer::AddVideo
        } else if f == 7 && src {
            Answer::CreateProxy
        } else {
            Answer::Consumed
        },
        None => Answer::Consumed,
    }
}

/// What activating the focused audio control asks.
pub open spec fn audio_control(m: LanguageModalView) -> Answer {
    match content_focus(m) {
        Some(f) => {
            let idx = f / 2;
            if idx >= m.languages.len() {
                Answer::Consumed
            } else if f % 2 == 0 {
                Answer::PickInstrumental(m.languages[idx].id)
            } else if m.languages[idx].has_instrumental {
                Answer::ClearInstrumental(m.languages[idx].id)
            } else {
                Answer::Consumed
            }
        },
        None => Answer::Consumed,
    }
}

/// Activating the focused control: a tab is shown, the close button
/// closes, a video or audio control acts.
pub open spec fn focus_activated(m: LanguageModalView) -> (LanguageModalView, Answer) {
    if m.focus < CONTENT_FOCUS {
        (tab_set(m, tab_at(m.focus as int)), Answer::Consumed)
    } else if m.focus == CLOSE_FOCUS {
        (m, Answer::Close)
    } else {
        (m, match m.tab {
            MediaExplorerTab::Videos => video_control(m),
            MediaExplorerTab::Audios => audio_control(m),
            MediaExplorerTab::RythmoBands => Answer::Consumed,
        })
    }
}

/// What Enter asks on the bands tab, by focused control.
pub open spec fn bands_enter(m: LanguageModalView) -> Answer {
    let tr = trimmed(m.name);
    let sel = has_selected(m);
    let id = m.selected_id;
    let sp = selected_pos(m);
    match content_focus(m) {
        Some(f) => if f == 2 && tr.len() > 0 {
            Answer::Create(tr)
        } else if f == 3 && tr.len() > 0 && sel {
            Answer::Rename(id, tr)
        } else if f == 4 && sel {
            Answer::Select(id)
        } else if f == 5 && sel {
            Answer::PickInstrumental(id)
        } else if f == 6 && m.languages.len() > 1 && sel {
            Answer::Delete(id)
        } else if f == 7 && sel {
            Answer::SetSyllableLanguage(id, next_syllable_language(m.languages[sp].syllable_language))
        } else if f == 8 && sel && m.languages[sp].has_instrumental {
            Answer::ClearInstrumental(id)
        } else {
            Answer::Consumed
        },
        None => Answer::Consumed,
    }
}

/// `name` after typing `text`: control characters are dropped and the
/// name stops growing at 80 characters.
pub open spec fn typed(name: Seq<char>, text: Seq<char>) -> Seq<char> {
    typed_capped(name, text, MAX_NAME_CHARS as nat)
}

/// The name field after a key.
pub open spec fn name_keyed(m: LanguageModalView, text: Seq<char>) -> LanguageModalView {
    if text == "\x08"@ || text == "\x7f"@ {
        if m.replace_name {
            LanguageModalView { name: Seq::empty(), replace_name: false, ..m }
        } else if m.name.len() > 0 {
            LanguageModalView { name: m.name.drop_last(), ..m }
        } else {
            m
        }
    } else if text == "\r"@ || text == "\n"@ || text == "\t"@ || text == "\x1b"@ {
        m
    } else {
        let base = if m.replace_name {
            Seq::empty()
        } else {
            m.name
        };
        LanguageModalView { name: typed(base, text), replace_name: false, ..m }
    }
}

/// Selecting band `k` of the list: its name fills the name field.
pub open spec fn band_picked(m: LanguageModalView, k: int) -> LanguageModalView {
    let id = m.languages[k].id;
    LanguageModalView { selected_id: id, name: band_name(m.languages, id), ..m }
}

/// Up or down in the band list.
pub open spec fn list_stepped(m: LanguageModalView, up: bool) -> LanguageModalView {
    if has_selected(m) {
        let sp = selected_pos(m);
        let next = if up {
            if sp > 0 {
                sp - 1
            } else {
                0
            }
        } else if sp + 1 < m.languages.len() - 1 {
            sp + 1
        } else {
            m.languages.len() - 1
        };
        band_picked(m, next)
    } else {
        m
    }
}

/// Left or right on the syllable-language control.
pub open spec fn syllable_keyed(m: LanguageModalView, right: bool) -> Answer {
    if has_selected(m) {
        let cur = m.languages[selected_pos(m)].syllable_language;
        Answer::SetSyllableLanguage(m.selected_id, cycled_syllable(cur, right))
    } else {
        Answer::Consumed
    }
}

/// A press on the videos tab.
pub open spec fn video_pressed(m: LanguageModalView, target: LanguageTarget) -> (LanguageModalView, Answer) {
    match target {
        LanguageTarget::VideoAction { row, action } => {
            let m2 = LanguageModalView { focus: (CONTENT_FOCUS + row * 3 + action) as usize, ..m };
            (m2, video_control(m2))
        },
        LanguageTarget::VideoRow { use_proxy } => (m, if (use_proxy && m.media.proxy is Some) || (
        !use_proxy && m.media.source is Some) {
            Answer::SwitchVideo(use_proxy)
        } else {
            Answer::Consumed
        }),
        LanguageTarget::FooterAction(i) => {
            let m2 = LanguageModalView { focus: (CONTENT_FOCUS + 6 + i) as usize, ..m };
            (m2, video_control(m2))
        },
        _ => (m, Answer::Consumed),
    }
}

/// A press on the audios tab.
pub open spec fn audio_pressed(m: LanguageModalView, target: LanguageTarget) -> (LanguageModalView, Answer) {
    match target {
        LanguageTarget::AudioAction { index, action } => if index < m.languages.len() {
            let m2 = LanguageModalView { focus: (CONTENT_FOCUS + index * 2 + action) as usize, ..m };
            let l = m.languages[index as int];
            (m2, if action == 0 {
                Answer::PickInstrumental(l.id)
            } else if l.has_instrumental {
                Answer::ClearInstrumental(l.id)
            } else {
                Answer::Consumed
            })
        } else {
            (m, Answer::Consumed)
        },
        _ => (m, Answer::Consumed),
    }
}

/// A press on the bands tab.
pub open spec fn band_pressed(m: LanguageModalView, target: LanguageTarget) -> (LanguageModalView, Answer) {
    let c = CONTENT_FOCUS;
    match target {
        LanguageTarget::ListRow(k) => {
            let m1 = LanguageModalView { focus: c, ..m };
            (if k < m.languages.len() {
                LanguageModalView {
                    editing_name: false,
                    replace_name: false,
                    ..band_picked(m1, k as int)
                }
            } else {
                m1
            }, Answer::Consumed)
        },
        LanguageTarget::NameField => (
            LanguageModalView { focus: (c + 1) as usize, editing_name: true, replace_name: true, ..m },
            Answer::Consumed,
        ),
        _ => {
            let m1 = LanguageModalView { editing_name: false, replace_name: false, ..m };
            let tr = trimmed(m.name);
            let sel = has_selected(m);
            let id = m.selected_id;
            let sp = selected_pos(m);
            match target {
                LanguageTarget::Action(i) => {
                    let m2 = LanguageModalView { focus: (c + 2 + i) as usize, ..m1 };
                    (m2, if i == 0 && tr.len() > 0 {
                        Answer::Create(tr)
                    } else if i == 1 && tr.len() > 0 && sel {
                        Answer::Rename(id, tr)
                    } else if i == 2 && sel {
                        Answer::Select(id)
                    } else if i == 3 && sel {
                        Answer::PickInstrumental(id)
                    } else if i == 4 && m.languages.len() > 1 && sel {
                        Answer::Delete(id)
                    } else {
                        Answer::Consumed
                    })
                },
                LanguageTarget::SyllableOption(i) => {
                    let m2 = LanguageModalView { focus: (c + 7) as usize, ..m1 };
                    (m2, if sel && m.languages[sp].syllable_language != syllable_option(i as int) {
                        Answer::SetSyllableLanguage(id, syllable_option(i as int))
                    } else {
                        Answer::Consumed
                    })
                },
                LanguageTarget::ClearAudio => if sel && m.languages[sp].has_instrumental {
                    (LanguageModalView { focus: (c + 8) as usize, ..m1 }, Answer::ClearInstrumental(id))
                } else {
                    (m1, Answer::Consumed)
                },
                _ => (m1, Answer::Consumed),
            }
        },
    }
}

/// Whether `event` is a press (single or double).
pub open spec fn is_press(event: UiEvent) -> bool {
    event == UiEvent::Pointer(PointerKind::MousePress) || event == UiEvent::Pointer(
        PointerKind::DoubleClick,
    )
}

/// The dialog after `event`, a press landing on `target`, and what it asks.
pub open spec fn language_step(m: LanguageModalView, event: UiEvent, target: LanguageTarget) -> (
    LanguageModalView,
    Answer,
) {
    let activation = is_activation_spec(&event);
    if event matches UiEvent::KeyInput { text } && text@ == "\x1b"@ {
        (m, Answer::Close)
    } else if event is FocusNext || event is FocusPrevious {
        (focus_moved(m, event is FocusNext), Answer::Consumed)
    } else if event matches UiEvent::KeyInput { text } && (text@ == "\t"@ || text@ == "\u{b}"@) {
        (focus_moved(m, event->text@ == "\t"@), Answer::Consumed)
    } else if m.focus < CONTENT_FOCUS && (event is CursorLeft || event is CursorRight) {
        let next = if event is CursorRight {
            (m.focus + 1) % 3
        } else {
            (m.focus + 2) % 3
        };
        (tab_set(m, tab_at(next as int)), Answer::Consumed)
    } else if m.focus < CONTENT_FOCUS && activation {
        focus_activated(m)
    } else if m.focus == CLOSE_FOCUS && activation {
        (m, Answer::Close)
    } else if is_press(event) && (target is Outside || target is CloseButton) {
        (m, Answer::Close)
    } else if is_press(event) && target matches LanguageTarget::Tab(i) {
        (tab_set(m, tab_at(target->Tab_0 as int)), Answer::Consumed)
    } else {
        match m.tab {
            MediaExplorerTab::Videos => if activation {
                focus_activated(m)
            } else if is_press(event) {
                video_pressed(m, target)
            } else {
                (m, Answer::Consumed)
            },
            MediaExplorerTab::Audios => if event is Activate {
                focus_activated(m)
            } else if activation {
                (m, audio_control(m))
            } else if is_press(event) {
                audio_pressed(m, target)
            } else {
                (m, Answer::Consumed)
            },
            MediaExplorerTab::RythmoBands => match event {
                UiEvent::KeyInput { text } => if text@ == "\r"@ || text@ == "\n"@ || (text@ == " "@
                    && content_focus(m) != Some(1int)) {
                    (m, bands_enter(m))
                } else if m.editing_name {
                    (name_keyed(m, text@), Answer::Consumed)
                } else {
                    (m, Answer::Consumed)
                },
                UiEvent::CursorUp => if content_focus(m) == Some(0int) {
                    (list_stepped(m, true), Answer::Consumed)
                } else {
                    (m, Answer::Consumed)
                },
                UiEvent::CursorDown => if content_focus(m) == Some(0int) {
                    (list_stepped(m, false), Answer::Consumed)
                } else {
                    (m, Answer::Consumed)
                },
                UiEvent::CursorLeft => if content_focus(m) == Some(7int) {
                    (m, syllable_keyed(m, false))
                } else {
                    (m, Answer::Consumed)
                },
                UiEvent::CursorRight => if content_focus(m) == Some(7int) {
                    (m, syllable_keyed(m, true))
                } else {
                    (m, Answer::Consumed)
                },
                _ => if is_press(event) {
                    band_pressed(m, target)
                } else {
                    (m, Answer::Consumed)
                },
            },
        }
    }
}

impl LanguageModal {
    fn selected_index(&self) -> (r: usize)
        ensures
            r == selected_pos(self@),
            r <= self@.languages.len(),
            r < self@.languages.len() ==> self@.languages[r as int].id == self@.selected_id,
    {
        find_band_pos(&self.languages, self.selected_id)
    }

    fn move_focus(&mut self, forward: bool)
        requires
            old(self).wf(),
        ensures
            final(self).wf(),
            final(self)@ == focus_moved(old(self)@, forward),
    {
        let order = self.focus_order_vec();
        let n = order.len();
        let ghost ord = order@;
        let mut i: usize = 0;
        while i < n && order[i] != self.keyboard_focus
            invariant
                n == order@.len(),
                ord == order@,
                i <= n,
                pos_in(ord, self@.focus, 0) == pos_in(ord, self@.focus, i as int),
            decreases n - i,
        {
            i = i + 1;
        }
        let cur = if i < n {
            i
        } else if forward {
            n - 1
        } else {
            0
        };
        let next = if forward {
            order[(cur + 1) % n]
        } else if cur == 0 {
            order[n - 1]
        } else {
            order[cur - 1]
        };
        proof {
            crate::dropdown::lemma_step_back(cur as int, n as int);
        }
        let editing = self.tab == MediaExplorerTab::RythmoBands && next == CONTENT_FOCUS + 1;
        self.keyboard_focus = next;
        self.editing_name = editing;
        self.replace_name = editing;
    }

    fn set_tab(&mut self, tab: MediaExplorerTab)
        ensures
            final(self)@ == tab_set(old(self)@, tab),
    {
        self.tab = tab;
        self.keyboard_focus = tab.index();
        self.editing_name = false;
        self.replace_name = false;
    }

    fn video_control_exec(&self) -> (r: LanguageModalResult)
        ensures
            answer_of(r) == video_control(self@),
    {
        if self.keyboard_focus < CONTENT_FOCUS || self.keyboard_focus == CLOSE_FOCUS {
            return LanguageModalResult::Consumed;
        }
        let f = self.keyboard_focus - CONTENT_FOCUS;
        let md = &self.media;
        let src = md.source.is_some();
        let prx = md.proxy.is_some();
        if f == 0 && src && md.active_proxy {
            LanguageModalResult::SwitchVideo { use_proxy: false }
        } else if f == 1 && src && md.can_persist_default && md.default_proxy {
            LanguageModalResult::SetDefaultVideo { use_proxy: false }
        } else if f == 2 && src {
            LanguageModalResult::DeleteVideo { use_proxy: false }
        } else if f == 3 && prx && !md.active_proxy {
            LanguageModalResult::SwitchVideo { use_proxy: true }
        } else if f == 4 && prx && md.can_persist_default && !md.default_proxy {
            LanguageModalResult::SetDefaultVideo { use_proxy: true }
        } else if f == 5 && prx {
            LanguageModalResult::DeleteVideo { use_proxy: true }
        } else if f == 6 {
            LanguageModalResult::AddVideo
        } else if f == 7 && src {
            LanguageModalResult::CreateProxy
        } else {
            LanguageModalResult::Consumed
        }
    }

    fn audio_control_exec(&self) -> (r: LanguageModalResult)
        ensures
            answer_of(r) == audio_control(self@),
    {
        if self.keyboard_focus < CONTENT_FOCUS || self.keyboard_focus == CLOSE_FOCUS {
            return LanguageModalResult::Consumed;
        }
        let f = self.keyboard_focus - CONTENT_FOCUS;
        let idx = f / 2;
        if idx >= self.languages.len() {
            return LanguageModalResult::Consumed;
        }
        let id = self.languages[idx].id;
        if f % 2 == 0 {
            LanguageModalResult::PickInstrumental { id }
        } else if self.languages[idx].instrumental_audio_path.is_some() {
            LanguageModalResult::ClearInstrumental { id }
        } else {
            LanguageModalResult::Consumed
        }
    }

    fn activate_focused(&mut self) -> (r: LanguageModalResult)
        ensures
            (final(self)@, answer_of(r)) == focus_activated(old(self)@),
    {
        if self.keyboard_focus < CONTENT_FOCUS {
            let tab = MediaExplorerTab::from_index(self.keyboard_focus);
            self.set_tab(tab);
            return LanguageModalResult::Consumed;
        }
        if self.keyboard_focus == CLOSE_FOCUS {
            return LanguageModalResult::Close;
        }
        match self.tab {
            MediaExplorerTab::Videos => self.video_control_exec(),
            MediaExplorerTab::Audios => self.audio_control_exec(),
            MediaExplorerTab::RythmoBands => LanguageModalResult::Consumed,
        }
    }

    fn bands_enter_exec(&self) -> (r: LanguageModalResult)
        ensures
            answer_of(r) == bands_enter(self@),
    {
        if self.keyboard_focus < CONTENT_FOCUS || self.keyboard_focus == CLOSE_FOCUS {
            return LanguageModalResult::Consumed;
        }
        let f = self.keyboard_focus - CONTENT_FOCUS;
        let tr = trim(self.name_input.as_str());
        let named = char_count(tr.as_str()) > 0;
        let sp = self.selected_index();
        let sel = sp < self.languages.len();
        let id = self.selected_id;
        if f == 2 && named {
            LanguageModalResult::Create { name: tr }
        } else if f == 3 && named && sel {
            LanguageModalResult::Rename { id, name: tr }
        } else if f == 4 && sel {
            LanguageModalResult::Select { id }
        } else if f == 5 && sel {
            LanguageModalResult::PickInstrumental { id }
        } else if f == 6 && self.languages.len() > 1 && sel {
            LanguageModalResult::Delete { id }
        } else if f == 7 && sel {
            LanguageModalResult::SetSyllableLanguage {
                id,
                language: self.languages[sp].syllable_language.toggled(),
            }
        } else if f == 8 && sel && self.languages[sp].instrumental_audio_path.is_some() {
            LanguageModalResult::ClearInstrumental { id }
        } else {
            LanguageModalResult::Consumed
        }
    }

    fn handle_name_key(&mut self, text: &str)
        ensures
            final(self)@ == name_keyed(old(self)@, text@),
    {
        if str_eq(text, "\x08") || str_eq(text, "\x7f") {
            if self.replace_name {
                self.name_input = String::new();
                self.replace_name = false;
            } else {
                let chars = chars_of(self.name_input.as_str());
                if chars.len() > 0 {
                    self.name_input = string_from(&chars, 0, chars.len() - 1);
                    assert(self.name_input@ =~= old(self)@.name.drop_last());
                }
            }
            return;
        }
        if str_eq(text, "\r") || str_eq(text, "\n") || str_eq(text, "\t") || str_eq(text, "\x1b") {
            return;
        }
        if self.replace_name {
            self.name_input = String::new();
            self.replace_name = false;
        }
        append_typed(&mut self.name_input, text, MAX_NAME_CHARS);
    }

    fn list_step(&mut self, up: bool)
        ensures
            final(self)@ == list_stepped(old(self)@, up),
    {
        let sp = self.selected_index();
        if sp >= self.languages.len() {
            return;
        }
        let last = self.languages.len() - 1;
        let next = if up {
            if sp > 0 {
                sp - 1
            } else {
                0
            }
        } else if sp + 1 < last {
            sp + 1
        } else {
            last
        };
        let id = self.languages[next].id;
        self.selected_id = id;
        self.name_input = name_of(&self.languages, id);
    }

    fn syllable_key(&self, right: bool) -> (r: LanguageModalResult)
        ensures
            answer_of(r) == syllable_keyed(self@, right),
    {
        let sp = self.selected_index();
        if sp >= self.languages.len() {
            return LanguageModalResult::Consumed;
        }
        let language = match self.languages[sp].syllable_language {
            SyllableLanguage::French => if right {
                SyllableLanguage::English
            } else {
                SyllableLanguage::Spanish
            },
            SyllableLanguage::English => if right {
                SyllableLanguage::Spanish
            } else {
                SyllableLanguage::French
            },
            SyllableLanguage::Spanish => if right {
                SyllableLanguage::French
            } else {
                SyllableLanguage::English
            },
        };
        LanguageModalResult::SetSyllableLanguage { id: self.selected_id, language }
    }
}

/// Whether `a` is exactly `b`.
fn str_eq(a: &str, b: &str) -> (r: bool)
    ensures
        r == (a@ == b@),
{
    let x = owned(a);
    let y = owned(b);
    x == y
}

impl LanguageModal {
    fn video_press(&mut self, target: LanguageTarget) -> (r: LanguageModalResult)
        requires
            target_fits(target),
        ensures
            (final(self)@, answer_of(r)) == video_pressed(old(self)@, target),
    {
        match target {
            LanguageTarget::VideoAction { row, action } => {
                self.keyboard_focus = CONTENT_FOCUS + row * 3 + action;
                self.video_control_exec()
            },
            LanguageTarget::VideoRow { use_proxy } => {
                let available = if use_proxy {
                    self.media.proxy.is_some()
                } else {
                    self.media.source.is_some()
                };
                if available {
                    LanguageModalResult::SwitchVideo { use_proxy }
                } else {
                    LanguageModalResult::Consumed
                }
            },
            LanguageTarget::FooterAction(i) => {
                self.keyboard_focus = CONTENT_FOCUS + 6 + i;
                self.video_control_exec()
            },
            _ => LanguageModalResult::Consumed,
        }
    }

    fn audio_press(&mut self, target: LanguageTarget) -> (r: LanguageModalResult)
        requires
            target_fits(target),
        ensures
            (final(self)@, answer_of(r)) == audio_pressed(old(self)@, target),
    {
        match target {
            LanguageTarget::AudioAction { index, action } => {
                if index >= self.languages.len() {
                    return LanguageModalResult::Consumed;
                }
                self.keyboard_focus = CONTENT_FOCUS + index * 2 + action;
                let id = self.languages[index].id;
                if action == 0 {
                    LanguageModalResult::PickInstrumental { id }
                } else if self.languages[index].instrumental_audio_path.is_some() {
                    LanguageModalResult::ClearInstrumental { id }
                } else {
                    LanguageModalResult::Consumed
                }
            },
            _ => LanguageModalResult::Consumed,
        }
    }

    fn band_press(&mut self, target: LanguageTarget) -> (r: LanguageModalResult)
        requires
            target_fits(target),
        ensures
            (final(self)@, answer_of(r)) == band_pressed(old(self)@, target),
    {
        match target {
            LanguageTarget::ListRow(k) => {
                self.keyboard_focus = CONTENT_FOCUS;
                if k < self.languages.len() {
                    let id = self.languages[k].id;
                    self.selected_id = id;
                    self.editing_name = false;
                    self.replace_name = false;
                    self.name_input = name_of(&self.languages, id);
                }
                return LanguageModalResult::Consumed;
            },
            LanguageTarget::NameField => {
                self.keyboard_focus = CONTENT_FOCUS + 1;
                self.editing_name = true;
                self.replace_name = true;
                return LanguageModalResult::Consumed;
            },
            _ => {},
        }
        self.editing_name = false;
        self.replace_name = false;
        let tr = trim(self.name_input.as_str());
        let named = char_count(tr.as_str()) > 0;
        let sp = self.selected_index();
        let sel = sp < self.languages.len();
        let id = self.selected_id;
        match target {
            LanguageTarget::Action(i) => {
                self.keyboard_focus = CONTENT_FOCUS + 2 + i;
                if i == 0 && named {
                    LanguageModalResult::Create { name: tr }
                } else if i == 1 && named && sel {
                    LanguageModalResult::Rename { id, name: tr }
                } else if i == 2 && sel {
                    LanguageModalResult::Select { id }
                } else if i == 3 && sel {
                    LanguageModalResult::PickInstrumental { id }
                } else if i == 4 && self.languages.len() > 1 && sel {
                    LanguageModalResult::Delete { id }
                } else {
                    LanguageModalResult::Consumed
                }
            },
            LanguageTarget::SyllableOption(i) => {
                self.keyboard_focus = CONTENT_FOCUS + 7;
                let option = if i == 0 {
                    SyllableLanguage::French
                } else if i == 1 {
                    SyllableLanguage::English
                } else {
                    SyllableLanguage::Spanish
                };
                if sel && self.languages[sp].syllable_language != option {
                    LanguageModalResult::SetSyllableLanguage { id, language: option }
                } else {
                    LanguageModalResult::Consumed
                }
            },
            LanguageTarget::ClearAudio => {
                if sel && self.languages[sp].instrumental_audio_path.is_some() {
                    self.keyboard_focus = CONTENT_FOCUS + 8;
                    LanguageModalResult::ClearInstrumental { id }
                } else {
                    LanguageModalResult::Consumed
                }
            },
            _ => LanguageModalResult::Consumed,
        }
    }

    /// Handles `event`; a press reports where it landed as `target`.
    pub fn handle_event(&mut self, event: &UiEvent, target: LanguageTarget) -> (r: LanguageModalResult)
        requires
            old(self).wf(),
            target_fits(target),
        ensures
            final(self).wf(),
            (final(self)@, answer_of(r)) == language_step(old(self)@, *event, target),
    {
        let activation = keyboard_activation(event);
        let press = match event {
            UiEvent::Pointer(PointerKind::MousePress) | UiEvent::Pointer(PointerKind::DoubleClick) => true,
            _ => false,
        };
        if let UiEvent::KeyInput { text } = event {
            if key_is(text, "\x1b") {
                return LanguageModalResult::Close;
            }
        }
        match event {
            UiEvent::FocusNext => {
                self.move_focus(true);
                return LanguageModalResult::Consumed;
            },
            UiEvent::FocusPrevious => {
                self.move_focus(false);
                return LanguageModalResult::Consumed;
            },
            UiEvent::KeyInput { text } => {
                if key_is(text, "\t") || key_is(text, "\u{b}") {
                    self.move_focus(key_is(text, "\t"));
                    return LanguageModalResult::Consumed;
                }
            },
            _ => {},
        }
        let horizontal = match event {
            UiEvent::CursorLeft | UiEvent::CursorRight => true,
            _ => false,
        };
        if self.keyboard_focus < CONTENT_FOCUS && horizontal {
            let right = match event {
                UiEvent::CursorRight => true,
                _ => false,
            };
            let next = if right {
                (self.keyboard_focus + 1) % 3
            } else {
                (self.keyboard_focus + 2) % 3
            };
            self.set_tab(MediaExplorerTab::from_index(next));
            return LanguageModalResult::Consumed;
        }
        if self.keyboard_focus < CONTENT_FOCUS && activation {
            return self.activate_focused();
        }
        if self.keyboard_focus == CLOSE_FOCUS && activation {
            return LanguageModalResult::Close;
        }
        if press {
            match target {
                LanguageTarget::Outside | LanguageTarget::CloseButton => {
                    return LanguageModalResult::Close;
                },
                LanguageTarget::Tab(i) => {
                    self.set_tab(MediaExplorerTab::from_index(i));
                    return LanguageModalResult::Consumed;
                },
                _ => {},
            }
        }
        match self.tab {
            MediaExplorerTab::Videos => {
                if activation {
                    self.activate_focused()
                } else if press {
                    self.video_press(target)
                } else {
                    LanguageModalResult::Consumed
                }
            },
            MediaExplorerTab::Audios => {
                let is_activate = match event {
                    UiEvent::Activate => true,
                    _ => false,
                };
                if is_activate {
                    self.activate_focused()
                } else if activation {
                    self.audio_control_exec()
                } else if press {
                    self.audio_press(target)
                } else {
                    LanguageModalResult::Consumed
                }
            },
            MediaExplorerTab::RythmoBands => {
                let cf1 = self.keyboard_focus == CONTENT_FOCUS + 1;
                match event {
                    UiEvent::KeyInput { text } => {
                        if key_is(text, "\r") || key_is(text, "\n") || (key_is(text, " ") && !cf1) {
                            self.bands_enter_exec()
                        } else if self.editing_name {
                            self.handle_name_key(text.as_str());
                            LanguageModalResult::Consumed
                        } else {
                            LanguageModalResult::Consumed
                        }
                    },
                    UiEvent::CursorUp => {
                        if self.keyboard_focus == CONTENT_FOCUS {
                            self.list_step(true);
                        }
                        LanguageModalResult::Consumed
                    },
                    UiEvent::CursorDown => {
                        if self.keyboard_focus == CONTENT_FOCUS {
                            self.list_step(false);
                        }
                        LanguageModalResult::Consumed
                    },
                    UiEvent::CursorLeft => {
                        if self.keyboard_focus == CONTENT_FOCUS + 7 {
                            self.syllable_key(false)
                        } else {
                            LanguageModalResult::Consumed
                        }
                    },
                    UiEvent::CursorRight => {
                        if self.keyboard_focus == CONTENT_FOCUS + 7 {
                            self.syllable_key(true)
                        } else {
                            LanguageModalResult::Consumed
                        }
                    },
                    _ => {
                        if press {
                            self.band_press(target)
                        } else {
                            LanguageModalResult::Consumed
                        }
                    },
                }
            },
        }
    }
}

/// Text of a syllable language.
pub open spec fn syllable_text(l: SyllableLanguage) -> Seq<char> {
    msg_text(
        match l {
            SyllableLanguage::French => Msg::LanguagesSyllablesFrench,
            SyllableLanguage::English => Msg::LanguagesSyllablesEnglish,
            SyllableLanguage::Spanish => Msg::LanguagesSyllablesSpanish,
        },
    )
}

/// Text of a syllable language.
pub fn syllable_language_label(language: SyllableLanguage) -> (r: &'static str)
    ensures
        r@ == syllable_text(language),
{
    match language {
        SyllableLanguage::French => t(Msg::LanguagesSyllablesFrench),
        SyllableLanguage::English => t(Msg::LanguagesSyllablesEnglish),
        SyllableLanguage::Spanish => t(Msg::LanguagesSyllablesSpanish),
    }
}

/// The states said of a video row: in use, default.
pub open spec fn video_status(md: MediaView, proxy_row: bool) -> Seq<char> {
    let a = md.active_proxy == proxy_row;
    let d = md.default_proxy == proxy_row;
    if a && d {
        msg_text(Msg::MediaExplorerActive) + ", "@ + msg_text(Msg::MediaExplorerDefault)
    } else if a {
        msg_text(Msg::MediaExplorerActive)
    } else if d {
        msg_text(Msg::MediaExplorerDefault)
    } else {
        Seq::empty()
    }
}

/// Text of video action `f` (0 to 5).
pub open spec fn video_action_text(f: int) -> Seq<char> {
    msg_text(
        if f == 0 || f == 3 {
            Msg::MediaExplorerUse
        } else if f == 1 || f == 4 {
            Msg::MediaExplorerMakeDefault
        } else if f == 2 {
            Msg::MediaExplorerUnlink
        } else {
            Msg::MediaExplorerDelete
        },
    )
}

/// What a screen reader says of the focused control.
pub open spec fn focus_label(m: LanguageModalView) -> Seq<char> {
    if m.focus < CONTENT_FOCUS {
        let tab = tab_at(m.focus as int);
        if tab == m.tab {
            tab_text(tab) + ", "@ + msg_text(Msg::AccessibilitySelected)
        } else {
            tab_text(tab)
        }
    } else if m.focus == CLOSE_FOCUS {
        msg_text(Msg::ProjectSettingsClose)
    } else {
        let f = m.focus - CONTENT_FOCUS;
        match m.tab {
            MediaExplorerTab::Videos => if f <= 5 {
                let proxy_row = f >= 3;
                let kind = msg_text(
                    if proxy_row {
                        Msg::MediaExplorerVideoProxy
                    } else {
                        Msg::MediaExplorerVideoOriginal
                    },
                );
                let item = if proxy_row {
                    m.media.proxy
                } else {
                    m.media.source
                };
                let name = match item {
                    Some(n) => n,
                    None => Seq::empty(),
                };
                let status = video_status(m.media, proxy_row);
                kind + " "@ + name + ", "@ + status + (if status.len() > 0 {
                    ": "@
                } else {
                    Seq::empty()
                }) + video_action_text(f)
            } else if f == 6 {
                msg_text(Msg::MediaExplorerVideoAdd)
            } else {
                msg_text(Msg::MediaExplorerVideoCreateProxy)
            },
            MediaExplorerTab::Audios => {
                let idx = f / 2;
                if idx < m.languages.len() {
                    m.languages[idx].name + ": "@ + msg_text(
                        if f % 2 == 0 {
                            Msg::MediaExplorerAudioAssign
                        } else {
                            Msg::MediaExplorerAudioRemove
                        },
                    )
                } else {
                    msg_text(Msg::MediaExplorerTabAudios)
                }
            },
            MediaExplorerTab::RythmoBands => if f == 0 {
                if has_selected(m) {
                    m.languages[selected_pos(m)].name
                } else {
                    msg_text(Msg::MediaExplorerTitle)
                }
            } else if f == 7 {
                msg_text(Msg::LanguagesSyllables) + ": "@ + if has_selected(m) {
                    syllable_text(m.languages[selected_pos(m)].syllable_language)
                } else {
                    msg_text(Msg::LanguagesSyllablesFrench)
                }
            } else {
                msg_text(
                    if f == 1 {
                        Msg::LanguagesName
                    } else if f == 2 {
                        Msg::LanguagesAdd
                    } else if f == 3 {
                        Msg::LanguagesRename
                    } else if f == 4 {
                        Msg::LanguagesSelect
                    } else if f == 5 {
                        Msg::LanguagesInstrumental
                    } else if f == 6 {
                        Msg::LanguagesDelete
                    } else {
                        Msg::LanguagesClearInstrumental
                    },
                )
            },
        }
    }
}

/// The role a screen reader gives the focused control.
pub open spec fn focus_role(m: LanguageModalView) -> Seq<char> {
    if m.focus < CONTENT_FOCUS {
        "tab"@
    } else if m.focus == CLOSE_FOCUS || m.tab != MediaExplorerTab::RythmoBands {
        "button"@
    } else {
        let f = m.focus - CONTENT_FOCUS;
        if f == 0 {
            "list box"@
        } else if f == 1 {
            "text field"@
        } else if f == 7 {
            "radio group"@
        } else {
            "button"@
        }
    }
}

impl LanguageModal {
    /// What a screen reader says of the focused control.
    pub fn keyboard_focus_label(&self) -> (r: String)
        ensures
            r@ == focus_label(self@),
    {
        let mut s = String::new();
        if self.keyboard_focus < CONTENT_FOCUS {
            let tab = MediaExplorerTab::from_index(self.keyboard_focus);
            push_str(&mut s, tab.label());
            if tab == self.tab {
                push_str(&mut s, ", ");
                push_str(&mut s, t(Msg::AccessibilitySelected));
            }
            return s;
        }
        if self.keyboard_focus == CLOSE_FOCUS {
            push_str(&mut s, t(Msg::ProjectSettingsClose));
            return s;
        }
        let f = self.keyboard_focus - CONTENT_FOCUS;
        match self.tab {
            MediaExplorerTab::Videos => {
                if f <= 5 {
                    let proxy_row = f >= 3;
                    push_str(
                        &mut s,
                        if proxy_row {
                            t(Msg::MediaExplorerVideoProxy)
                        } else {
                            t(Msg::MediaExplorerVideoOriginal)
                        },
                    );
                    push_str(&mut s, " ");
                    let item = if proxy_row {
                        &self.media.proxy
                    } else {
                        &self.media.source
                    };
                    match item {
                        Some(v) => push_str(&mut s, v.name.as_str()),
                        None => {},
                    }
                    push_str(&mut s, ", ");
                    let a = self.media.active_proxy == proxy_row;
                    let d = self.media.default_proxy == proxy_row;
                    if a {
                        push_str(&mut s, t(Msg::MediaExplorerActive));
                    }
                    if a && d {
                        push_str(&mut s, ", ");
                    }
                    if d {
                        push_str(&mut s, t(Msg::MediaExplorerDefault));
                    }
                    if a || d {
                        push_str(&mut s, ": ");
                    }
                    push_str(
                        &mut s,
                        if f == 0 || f == 3 {
                            t(Msg::MediaExplorerUse)
                        } else if f == 1 || f == 4 {
                            t(Msg::MediaExplorerMakeDefault)
                        } else if f == 2 {
                            t(Msg::MediaExplorerUnlink)
                        } else {
                            t(Msg::MediaExplorerDelete)
                        },
                    );
                    proof {
                        reveal_strlit(", ");
                        reveal_strlit("active");
                        reveal_strlit("par défaut");
                    }
                } else if f == 6 {
                    push_str(&mut s, t(Msg::MediaExplorerVideoAdd));
                } else {
                    push_str(&mut s, t(Msg::MediaExplorerVideoCreateProxy));
                }
            },
            MediaExplorerTab::Audios => {
                let idx = f / 2;
                if idx < self.languages.len() {
                    push_str(&mut s, self.languages[idx].name.as_str());
                    push_str(&mut s, ": ");
                    push_str(
                        &mut s,
                        if f % 2 == 0 {
                            t(Msg::MediaExplorerAudioAssign)
                        } else {
                            t(Msg::MediaExplorerAudioRemove)
                        },
                    );
                } else {
                    push_str(&mut s, t(Msg::MediaExplorerTabAudios));
                }
            },
            MediaExplorerTab::RythmoBands => {
                let sp = self.selected_index();
                if f == 0 {
                    if sp < self.languages.len() {
                        push_str(&mut s, self.languages[sp].name.as_str());
                    } else {
                        push_str(&mut s, t(Msg::MediaExplorerTitle));
                    }
                } else if f == 7 {
                    push_str(&mut s, t(Msg::LanguagesSyllables));
                    push_str(&mut s, ": ");
                    if sp < self.languages.len() {
                        push_str(&mut s, syllable_language_label(self.languages[sp].syllable_language));
                    } else {
                        push_str(&mut s, t(Msg::LanguagesSyllablesFrench));
                    }
                } else {
                    push_str(
                        &mut s,
                        if f == 1 {
                            t(Msg::LanguagesName)
                        } else if f == 2 {
                            t(Msg::LanguagesAdd)
                        } else if f == 3 {
                            t(Msg::LanguagesRename)
                        } else if f == 4 {
                            t(Msg::LanguagesSelect)
                        } else if f == 5 {
                            t(Msg::LanguagesInstrumental)
                        } else if f == 6 {
                            t(Msg::LanguagesDelete)
                        } else {
                            t(Msg::LanguagesClearInstrumental)
                        },
                    );
                }
            },
        }
        assert(s@ =~= focus_label(self@));
        s
    }

    /// The role a screen reader gives the focused control.
    pub fn keyboard_focus_role(&self) -> (r: &'static str)
        ensures
            r@ == focus_role(self@),
    {
        proof {
            reveal_strlit("tab");
            reveal_strlit("button");
            reveal_strlit("list box");
            reveal_strlit("text field");
            reveal_strlit("radio group");
        }
        if self.keyboard_focus < CONTENT_FOCUS {
            return "tab";
        }
        if self.keyboard_focus == CLOSE_FOCUS || self.tab != MediaExplorerTab::RythmoBands {
            return "button";
        }
        let f = self.keyboard_focus - CONTENT_FOCUS;
        if f == 0 {
            "list box"
        } else if f == 1 {
            "text field"
        } else if f == 7 {
            "radio group"
        } else {
            "button"
        }
    }

    /// The selected band's name, if it exists.
    pub fn keyboard_selection_label(&self) -> (r: Option<String>)
        ensures
            match r {
                Some(name) => has_selected(self@) && name@ == self@.languages[selected_pos(self@)].name,
                None => !has_selected(self@),
            },
    {
        let sp = self.selected_index();
        if sp < self.languages.len() {
            Some(owned(self.languages[sp].name.as_str()))
        } else {
            None
        }
    }

    fn focus_is_listed(&self) -> (r: bool)
        requires
            self.wf(),
        ensures
            r == focus_order(self@).contains(self@.focus),
    {
        let order = self.focus_order_vec();
        let mut i: usize = 0;
        while i < order.len()
            invariant
                i <= order@.len(),
                order@ == focus_order(self@),
                forall|j: int| 0 <= j < i ==> order@[j] != self@.focus,
            decreases order@.len() - i,
        {
            if order[i] == self.keyboard_focus {
                assert(order@[i as int] == self@.focus);
                return true;
            }
            i = i + 1;
        }
        false
    }

    /// Replaces the bands: a selection that is gone falls back to the
    /// active band (else the first), the name field follows the selection
    /// unless it is being edited, and a focus that no longer exists returns
    /// to the shown tab.
    pub fn refresh(&mut self, languages: Vec<LanguageListItem>, active_language_id: u64)
        requires
            languages@.len() < 0x1000_0000,
        ensures
            final(self).wf(),
            ({
                let langs = language_views(languages@);
                let sel = if band_pos(langs, old(self)@.selected_id, 0) < langs.len() {
                    old(self)@.selected_id
                } else {
                    initial_selection(langs, active_language_id)
                };
                let m1 = LanguageModalView {
                    languages: langs,
                    active_language_id,
                    selected_id: sel,
                    name: if old(self)@.editing_name {
                        old(self)@.name
                    } else {
                        band_name(langs, sel)
                    },
                    ..old(self)@
                };
                final(self)@ == if focus_order(m1).contains(m1.focus) {
                    m1
                } else {
                    LanguageModalView { focus: tab_index(m1.tab), ..m1 }
                }
            }),
    {
        self.languages = languages;
        self.active_language_id = active_language_id;
        if find_band_pos(&self.languages, self.selected_id) >= self.languages.len() {
            self.selected_id = initial_selected(&self.languages, active_language_id);
        }
        if !self.editing_name {
            self.name_input = name_of(&self.languages, self.selected_id);
        }
        if !self.focus_is_listed() {
            self.keyboard_focus = self.tab.index();
        }
    }

    /// Replaces the videos; a focus that no longer exists returns to the
    /// shown tab.
    pub fn refresh_media(&mut self, media: MediaExplorerData)
        requires
            old(self).wf(),
        ensures
            final(self).wf(),
            ({
                let m1 = LanguageModalView { media: media_view(media), ..old(self)@ };
                final(self)@ == if focus_order(m1).contains(m1.focus) {
                    m1
                } else {
                    LanguageModalView { focus: tab_index(m1.tab), ..m1 }
                }
            }),
    {
        self.media = media;
        if !self.focus_is_listed() {
            self.keyboard_focus = self.tab.index();
        }
    }

    /// The shown tab.
    pub fn tab(&self) -> (r: MediaExplorerTab)
        ensures
            r == self@.tab,
    {
        self.tab
    }

    /// The focus position.
    pub fn keyboard_focus(&self) -> (r: usize)
        ensures
            r == self@.focus,
    {
        self.keyboard_focus
    }

    /// Index of the focused control of the shown tab, if any.
    pub fn content_focus(&self) -> (r: Option<usize>)
        ensures
            match r {
                Some(f) => content_focus(self@) == Some(f as int),
                None => content_focus(self@) is None,
            },
    {
        if self.keyboard_focus >= CONTENT_FOCUS && self.keyboard_focus != CLOSE_FOCUS {
            Some(self.keyboard_focus - CONTENT_FOCUS)
        } else {
            None
        }
    }

    /// Shows tab `tab` with its tab focused.
    pub fn show_tab(&mut self, tab: MediaExplorerTab)
        ensures
            final(self)@ == tab_set(old(self)@, tab),
    {
        self.set_tab(tab);
    }

    /// The text of the name field.
    pub fn name_input(&self) -> (r: &str)
        ensures
            r@ == self@.name,
    {
        self.name_input.as_str()
    }

    /// Identifier of the selected band.
    pub fn selected_id(&self) -> (r: u64)
        ensures
            r == self@.selected_id,
    {
        self.selected_id
    }

    /// The bands listed.
    pub fn languages(&self) -> (r: &Vec<LanguageListItem>)
        ensures
            language_views(r@) == self@.languages,
    {
        &self.languages
    }

    /// The videos.
    pub fn media(&self) -> (r: &MediaExplorerData)
        ensures
            media_view(*r) == self@.media,
    {
        &self.media
    }
}

/// `s` rises strictly and its values lie in `[lo, hi)`.
pub open spec fn rising_within(s: Seq<usize>, lo: int, hi: int) -> bool {
    &&& forall|i: int| 0 <= i < s.len() ==> lo <= #[trigger] s[i] < hi
    &&& forall|i: int, j: int| 0 <= i < j < s.len() ==> #[trigger] s[i] < #[trigger] s[j]
}

proof fn lemma_rising_concat(a: Seq<usize>, b: Seq<usize>, lo: int, mid: int, hi: int)
    requires
        lo <= mid <= hi,
        rising_within(a, lo, mid),
        rising_within(b, mid, hi),
    ensures
        rising_within(a + b, lo, hi),
{
    let s = a + b;
    assert forall|i: int| 0 <= i < s.len() implies lo <= #[trigger] s[i] < hi by {
        if i < a.len() {
            assert(s[i] == a[i]);
        } else {
            assert(s[i] == b[i - a.len()]);
        }
    }
    assert forall|i: int, j: int| 0 <= i < j < s.len() implies #[trigger] s[i] < #[trigger] s[j] by {
        if j < a.len() {
            assert(s[i] == a[i] && s[j] == a[j]);
        } else if i < a.len() {
            assert(s[i] == a[i] && s[j] == b[j - a.len()]);
        } else {
            assert(s[i] == b[i - a.len()] && s[j] == b[j - a.len()]);
        }
    }
}

proof fn lemma_optional_rising(present: bool, v: int)
    requires
        0 <= v < usize::MAX,
    ensures
        rising_within(if present { seq![v as usize] } else { Seq::<usize>::empty() }, v, v + 1),
{
}

proof fn lemma_video_focus_rising(md: MediaView)
    ensures
        rising_within(video_focus(md), CONTENT_FOCUS as int, CONTENT_FOCUS + 8),
{
    let c = CONTENT_FOCUS as int;
    let src = md.source is Some;
    let prx = md.proxy is Some;
    lemma_optional_rising(src && md.active_proxy, c);
    lemma_optional_rising(src && md.can_persist_default && md.default_proxy, c + 1);
    lemma_optional_rising(src, c + 2);
    lemma_optional_rising(prx && !md.active_proxy, c + 3);
    lemma_optional_rising(prx && md.can_persist_default && !md.default_proxy, c + 4);
    lemma_optional_rising(prx, c + 5);
    let s0 = if src && md.active_proxy { seq![c as usize] } else { Seq::empty() };
    let s1 = if src && md.can_persist_default && md.default_proxy {
        seq![(c + 1) as usize]
    } else {
        Seq::empty()
    };
    let s2 = if src { seq![(c + 2) as usize] } else { Seq::empty() };
    let p0 = if prx && !md.active_proxy { seq![(c + 3) as usize] } else { Seq::empty() };
    let p1 = if prx && md.can_persist_default && !md.default_proxy {
        seq![(c + 4) as usize]
    } else {
        Seq::empty()
    };
    let p2 = if prx { seq![(c + 5) as usize] } else { Seq::empty() };
    let tail = if src {
        seq![(c + 6) as usize, (c + 7) as usize]
    } else {
        seq![(c + 6) as usize]
    };
    lemma_rising_concat(s0, s1, c, c + 1, c + 2);
    lemma_rising_concat(s0 + s1, s2, c, c + 2, c + 3);
    lemma_rising_concat(s0 + s1 + s2, p0, c, c + 3, c + 4);
    lemma_rising_concat(s0 + s1 + s2 + p0, p1, c, c + 4, c + 5);
    lemma_rising_concat(s0 + s1 + s2 + p0 + p1, p2, c, c + 5, c + 6);
    assert(rising_within(tail, c + 6, c + 8));
    lemma_rising_concat(s0 + s1 + s2 + p0 + p1 + p2, tail, c, c + 6, c + 8);
}

proof fn lemma_band_focus_rising(m: LanguageModalView)
    ensures
        rising_within(band_focus(m), CONTENT_FOCUS as int, CONTENT_FOCUS + 9),
{
    let c = CONTENT_FOCUS as int;
    let named = !is_blank(m.name);
    let sel = has_selected(m);
    let sp = selected_pos(m);
    let a0 = if m.languages.len() > 0 { seq![c as usize] } else { Seq::empty() };
    let a1 = seq![(c + 1) as usize];
    let a2 = if named { seq![(c + 2) as usize] } else { Seq::empty() };
    lemma_optional_rising(m.languages.len() > 0, c);
    lemma_optional_rising(true, c + 1);
    lemma_optional_rising(named, c + 2);
    lemma_rising_concat(a0, a1, c, c + 1, c + 2);
    lemma_rising_concat(a0 + a1, a2, c, c + 2, c + 3);
    if sel {
        let b0 = if named { seq![(c + 3) as usize] } else { Seq::empty() };
        let b1 = if m.selected_id != m.active_language_id {
            seq![(c + 4) as usize]
        } else {
            Seq::empty()
        };
        let b2 = seq![(c + 5) as usize];
        let b3 = if m.languages.len() > 1 { seq![(c + 6) as usize] } else { Seq::empty() };
        let b4 = seq![(c + 7) as usize];
        let b5 = if m.languages[sp].has_instrumental {
            seq![(c + 8) as usize]
        } else {
            Seq::empty()
        };
        lemma_optional_rising(named, c + 3);
        lemma_optional_rising(m.selected_id != m.active_language_id, c + 4);
        lemma_optional_rising(true, c + 5);
        lemma_optional_rising(m.languages.len() > 1, c + 6);
        lemma_optional_rising(true, c + 7);
        lemma_optional_rising(m.languages[sp].has_instrumental, c + 8);
        lemma_rising_concat(b0, b1, c + 3, c + 4, c + 5);
        lemma_rising_concat(b0 + b1, b2, c + 3, c + 5, c + 6);
        lemma_rising_concat(b0 + b1 + b2, b3, c + 3, c + 6, c + 7);
        lemma_rising_concat(b0 + b1 + b2 + b3, b4, c + 3, c + 7, c + 8);
        lemma_rising_concat(b0 + b1 + b2 + b3 + b4, b5, c + 3, c + 8, c + 9);
        lemma_rising_concat(a0 + a1 + a2, b0 + b1 + b2 + b3 + b4 + b5, c, c + 3, c + 9);
        assert(band_focus(m) == a0 + a1 + a2 + (b0 + b1 + b2 + b3 + b4 + b5));
    } else {
        assert(rising_within(Seq::<usize>::empty(), c + 3, c + 9));
        lemma_rising_concat(a0 + a1 + a2, Seq::<usize>::empty(), c, c + 3, c + 9);
        assert(band_focus(m) == a0 + a1 + a2 + Seq::<usize>::empty());
    }
}

proof fn lemma_audio_focus_rising(langs: Seq<LanguageView>, k: int)
    requires
        0 <= k <= langs.len(),
        langs.len() < 0x1000_0000,
    ensures
        rising_within(audio_focus(langs, k), CONTENT_FOCUS as int, CONTENT_FOCUS + 2 * k),
    decreases k,
{
    let c = CONTENT_FOCUS as int;
    if k > 0 {
        let i = k - 1;
        lemma_audio_focus_rising(langs, i);
        lemma_optional_rising(true, c + i * 2);
        lemma_optional_rising(langs[i].has_instrumental, c + i * 2 + 1);
        let own = seq![(c + i * 2) as usize];
        let extra = if langs[i].has_instrumental {
            seq![(c + i * 2 + 1) as usize]
        } else {
            Seq::empty()
        };
        lemma_rising_concat(audio_focus(langs, i), own, c, c + 2 * i, c + 2 * i + 1);
        lemma_rising_concat(audio_focus(langs, i) + own, extra, c, c + 2 * i + 1, c + 2 * k);
    }
}

proof fn lemma_focus_order_rising(m: LanguageModalView)
    requires
        m.languages.len() < 0x1000_0000,
    ensures
        rising_within(focus_order(m), 0, usize::MAX + 1),
{
    let c = CONTENT_FOCUS as int;
    let content = match m.tab {
        MediaExplorerTab::Videos => video_focus(m.media),
        MediaExplorerTab::Audios => audio_focus(m.languages, m.languages.len() as int),
        MediaExplorerTab::RythmoBands => band_focus(m),
    };
    match m.tab {
        MediaExplorerTab::Videos => lemma_video_focus_rising(m.media),
        MediaExplorerTab::Audios => lemma_audio_focus_rising(
            m.languages,
            m.languages.len() as int,
        ),
        MediaExplorerTab::RythmoBands => lemma_band_focus_rising(m),
    }
    let top = if m.tab == MediaExplorerTab::Videos {
        c + 8
    } else if m.tab == MediaExplorerTab::Audios {
        c + 2 * m.languages.len()
    } else {
        c + 9
    };
    assert(rising_within(content, c, usize::MAX as int)) by {
        assert(top <= usize::MAX);
    }
    let tabs = seq![0usize, 1usize, 2usize];
    assert(rising_within(tabs, 0, c));
    lemma_rising_concat(tabs, content, 0, c, usize::MAX as int);
    lemma_optional_rising(true, usize::MAX - 1);
    assert(rising_within(seq![CLOSE_FOCUS], usize::MAX as int, usize::MAX + 1));
    lemma_rising_concat(tabs + content, seq![CLOSE_FOCUS], 0, usize::MAX as int, usize::MAX + 1);
}

proof fn lemma_pos_in_rising(s: Seq<usize>, j: int, k: int)
    requires
        rising_within(s, 0, usize::MAX + 1),
        0 <= k <= j < s.len(),
    ensures
        pos_in(s, s[j], k) == j,
    decreases j - k,
{
    if s[k] != s[j] {
        lemma_pos_in_rising(s, j, k + 1);
    } else if k < j {
        assert(s[k] < s[j]);
    }
}

/// Tab then Shift+Tab (and Shift+Tab then Tab) bring the keyboard focus
/// back to the control it was on.
pub proof fn lemma_tab_and_shift_tab_undo_each_other(m: LanguageModalView)
    requires
        m.languages.len() < 0x1000_0000,
        focus_order(m).contains(m.focus),
    ensures
        focus_moved(focus_moved(m, true), false).focus == m.focus,
        focus_moved(focus_moved(m, false), true).focus == m.focus,
{
    let order = focus_order(m);
    let n = order.len() as int;
    lemma_focus_order_rising(m);
    let j = choose|j: int| 0 <= j < n && order[j] == m.focus;
    lemma_pos_in_rising(order, j, 0);
    let fwd = focus_moved(m, true);
    let back = focus_moved(m, false);
    assert(focus_order(fwd) == order);
    assert(focus_order(back) == order);
    let a = (j + 1) % n;
    let b = (j + n - 1) % n;
    assert(0 <= a < n) by {
        vstd::arithmetic::div_mod::lemma_mod_bound(j + 1, n);
    }
    assert(0 <= b < n) by {
        vstd::arithmetic::div_mod::lemma_mod_bound(j + n - 1, n);
    }
    assert(fwd.focus == order[a]);
    assert(back.focus == order[b]);
    lemma_pos_in_rising(order, a, 0);
    lemma_pos_in_rising(order, b, 0);
    crate::dropdown::lemma_step_back(a, n);
    crate::dropdown::lemma_step_back(j, n);
    if j == n - 1 {
        vstd::arithmetic::div_mod::lemma_mod_self_0(n);
        assert((j + 1) % n == 0);
    } else {
        vstd::arithmetic::div_mod::lemma_small_mod((j + 1) as nat, n as nat);
    }
    if b == n - 1 {
        vstd::arithmetic::div_mod::lemma_mod_self_0(n);
    } else {
        vstd::arithmetic::div_mod::lemma_small_mod((b + 1) as nat, n as nat);
    }
}

/// Left and right on the syllable control go round French, English,
/// Spanish: right moves one option on, left one option back, and each
/// undoes the other.
pub proof fn lemma_syllable_keys_go_round(l: SyllableLanguage, i: int)
    requires
        0 <= i < 3,
    ensures
        cycled_syllable(cycled_syllable(l, true), false) == l,
        cycled_syllable(cycled_syllable(l, false), true) == l,
        cycled_syllable(syllable_option(i), true) == syllable_option((i + 1) % 3),
        cycled_syllable(syllable_option(i), false) == syllable_option((i + 2) % 3),
        syllable_option(0) == SyllableLanguage::French,
        syllable_option(1) == SyllableLanguage::English,
        syllable_option(2) == SyllableLanguage::Spanish,
{
}

} // verus!
