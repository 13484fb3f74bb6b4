//! File tree side panel: the project media library (videos with proxy
//! children, rythmo bands, audios) as an expandable tree, with its context
//! menus. Events produce `UiAction`s consumed by the application.

pub mod data;
pub mod drop;
pub mod menu_keys;
pub mod rename;
pub mod rows;
pub mod tree_keys;
pub mod tree_pointer;

use vstd::prelude::*;

use crate::event::{AccessibilityEvent, EventResponse, UiAction, UiEvent};
use crate::i18n::{msg_text, t, Msg};
use crate::project::{MediaId, SyllableLanguage};
use crate::text::{owned, push_str};

use self::data::{
    audio_index, band_index, can_be_proxy_endpoint_spec, lemma_band_index, lemma_video_index,
    path_components_equal, paths_equal, video_index, AudioData, BandData, FileTreeData,
    VideoData,
};
use self::rows::{AudioRowId, GroupKind, RowId};

verus! {

#[derive(Clone, Debug, PartialEq, Eq, Structural)]
pub enum RenameTarget {
    Video(MediaId),
    Audio(MediaId),
    Band(u64),
}

#[derive(Clone, Copy, Debug, PartialEq, Eq, Structural)]
pub enum SubmenuKind {
    /// "Associer en tant que proxy de ▸" — eligible top-level videos.
    AssociateProxyTo,
    /// "Définir la langue de découpe ▸".
    SyllableLanguage,
    /// "Définir l'instrumental ▸".
    Instrumental,
}

/// One entry of a context menu: what it shows and what choosing it answers.
#[derive(Clone, Debug, PartialEq)]
pub struct MenuItem {
    pub label: String,
    pub enabled: bool,
    pub submenu: Option<SubmenuKind>,
    pub action: EventResponse,
}

/// Abstract menu entry.
pub struct MenuEntry {
    pub label: Seq<char>,
    pub enabled: bool,
    pub submenu: Option<SubmenuKind>,
    pub action: EventResponse,
}

pub open spec fn entry(
    label: Seq<char>,
    enabled: bool,
    submenu: Option<SubmenuKind>,
    action: EventResponse,
) -> MenuEntry {
    MenuEntry { label, enabled, submenu, action }
}

/// A plain enabled entry answering `action`.
pub open spec fn action_entry(msg: Msg, action: UiAction) -> MenuEntry {
    entry(msg_text(msg), true, None, EventResponse::Action(action))
}

/// An entry opening submenu `kind`.
pub open spec fn submenu_entry(msg: Msg, kind: SubmenuKind) -> MenuEntry {
    entry(msg_text(msg) + " ▸"@, true, Some(kind), EventResponse::Consumed)
}

/// `items` shows exactly `entries`.
pub open spec fn items_match(items: Seq<MenuItem>, entries: Seq<MenuEntry>) -> bool {
    &&& items.len() == entries.len()
    &&& forall|i: int|
        #![trigger items[i]]
        0 <= i < items.len() ==> {
            &&& items[i].label@ == entries[i].label
            &&& items[i].enabled == entries[i].enabled
            &&& items[i].submenu == entries[i].submenu
            &&& items[i].action == entries[i].action
        }
}

/// Whether a video row of `videos` is a proxy of `id`.
pub open spec fn has_proxy_row(videos: Seq<VideoData>, id: MediaId) -> bool {
    exists|j: int| 0 <= j < videos.len() && #[trigger] videos[j].proxy_of == Some(id)
}

/// The context menu of row `row`.
pub open spec fn context_menu_spec(row: RowId, data: FileTreeData) -> Seq<MenuEntry> {
    let videos = data.videos@;
    match row {
        RowId::Group(GroupKind::Videos) => seq![action_entry(Msg::FileTreeMenuAddVideo, UiAction::AddVideo)],
        RowId::Group(GroupKind::Audios) => seq![action_entry(Msg::FileTreeMenuAddAudio, UiAction::AddMediaAudio)],
        RowId::Video(id) => match video_index(videos, id, 0) {
            None => Seq::empty(),
            Some(i) => {
                let video = videos[i];
                let head = seq![
                    action_entry(Msg::FileTreeMenuUse, UiAction::MediaVideoUse { id }),
                    action_entry(Msg::FileTreeMenuMakeDefault, UiAction::MediaVideoSetDefault { id }),
                ];
                let middle = if video.proxy_of is Some {
                    seq![action_entry(Msg::FileTreeMenuDissociateProxy, UiAction::MediaVideoDissociateProxy { id })]
                } else {
                    seq![
                        entry(
                            msg_text(Msg::FileTreeMenuRestoreLink),
                            video.missing,
                            None,
                            EventResponse::Action(UiAction::MediaVideoRelink { id }),
                        ),
                        action_entry(
                            if has_proxy_row(videos, id) {
                                Msg::FileTreeMenuRecreateProxy
                            } else {
                                Msg::FileTreeMenuCreateProxy
                            },
                            UiAction::MediaVideoCreateProxy { id },
                        ),
                    ] + if can_be_proxy_endpoint_spec(videos, id) {
                        seq![submenu_entry(Msg::FileTreeMenuAssociateProxy, SubmenuKind::AssociateProxyTo)]
                    } else {
                        Seq::empty()
                    }
                };
                head + middle + seq![
                    action_entry(Msg::FileTreeMenuRename, UiAction::MediaVideoBeginRename { id }),
                    action_entry(Msg::FileTreeMenuRemove, UiAction::MediaVideoRemove { id }),
                ]
            },
        },
        RowId::Audio(AudioRowId::Media(id)) => seq![
            action_entry(Msg::FileTreeMenuRemove, UiAction::MediaAudioRemove { id }),
            action_entry(Msg::FileTreeMenuRename, UiAction::MediaAudioBeginRename { id }),
        ],
        RowId::Band(id) => seq![
            action_entry(Msg::FileTreeMenuRename, UiAction::LanguageBeginRename { id }),
            submenu_entry(Msg::FileTreeMenuSetSyllableLanguage, SubmenuKind::SyllableLanguage),
            submenu_entry(Msg::FileTreeMenuSetInstrumental, SubmenuKind::Instrumental),
            entry(
                msg_text(Msg::FileTreeMenuDelete),
                data.bands@.len() > 1,
                None,
                EventResponse::Action(UiAction::DeleteLanguage { id }),
            ),
        ],
        _ => Seq::empty(),
    }
}

fn item(label: String, enabled: bool, submenu: Option<SubmenuKind>, action: EventResponse) -> (r: MenuItem)
    ensures
        r.label@ == label@,
        r.enabled == enabled,
        r.submenu == submenu,
        r.action == action,
{
    MenuItem { label, enabled, submenu, action }
}

fn action_item(msg: Msg, action: UiAction) -> (r: MenuItem)
    ensures
        r.label@ == action_entry(msg, action).label,
        r.enabled == action_entry(msg, action).enabled,
        r.submenu == action_entry(msg, action).submenu,
        r.action == action_entry(msg, action).action,
{
    item(owned(t(msg)), true, None, EventResponse::Action(action))
}

fn submenu_item(msg: Msg, kind: SubmenuKind) -> (r: MenuItem)
    ensures
        r.label@ == submenu_entry(msg, kind).label,
        r.enabled == submenu_entry(msg, kind).enabled,
        r.submenu == submenu_entry(msg, kind).submenu,
        r.action == submenu_entry(msg, kind).action,
{
    let mut label = owned(t(msg));
    push_str(&mut label, " ▸");
    item(label, true, Some(kind), EventResponse::Consumed)
}

fn any_proxy_row(videos: &Vec<VideoData>, id: MediaId) -> (r: bool)
    ensures
        r == has_proxy_row(videos@, id),
{
    let mut j: usize = 0;
    while j < videos.len()
        invariant
            j <= videos@.len(),
            forall|k: int| 0 <= k < j ==> videos@[k].proxy_of != Some(id),
        decreases videos@.len() - j,
    {
        if videos[j].proxy_of == Some(id) {
            return true;
        }
        j = j + 1;
    }
    false
}

fn push_item(items: &mut Vec<MenuItem>, entries: Ghost<Seq<MenuEntry>>, it: MenuItem, e: Ghost<MenuEntry>)
    requires
        items_match(old(items)@, entries@),
        it.label@ == e@.label,
        it.enabled == e@.enabled,
        it.submenu == e@.submenu,
        it.action == e@.action,
    ensures
        items_match(final(items)@, entries@.push(e@)),
{
    items.push(it);
    assert forall|i: int| #![trigger final(items)@[i]] 0 <= i < final(items)@.len() implies {
        &&& final(items)@[i].label@ == entries@.push(e@)[i].label
        &&& final(items)@[i].enabled == entries@.push(e@)[i].enabled
        &&& final(items)@[i].submenu == entries@.push(e@)[i].submenu
        &&& final(items)@[i].action == entries@.push(e@)[i].action
    } by {
        if i < old(items)@.len() {
            assert(final(items)@[i] == old(items)@[i]);
        }
    }
}

/// The context menu of row `row`.
pub fn context_menu_items(row: RowId, data: &FileTreeData) -> (r: Vec<MenuItem>)
    ensures
        items_match(r@, context_menu_spec(row, *data)),
{
    let mut items: Vec<MenuItem> = Vec::new();
    let ghost mut es: Seq<MenuEntry> = Seq::empty();
    match row {
        RowId::Group(GroupKind::Videos) => {
            push_item(&mut items, Ghost(es), action_item(Msg::FileTreeMenuAddVideo, UiAction::AddVideo), Ghost(action_entry(Msg::FileTreeMenuAddVideo, UiAction::AddVideo)));
            proof { es = es.push(action_entry(Msg::FileTreeMenuAddVideo, UiAction::AddVideo)); }
        },
        RowId::Group(GroupKind::Audios) => {
            push_item(&mut items, Ghost(es), action_item(Msg::FileTreeMenuAddAudio, UiAction::AddMediaAudio), Ghost(action_entry(Msg::FileTreeMenuAddAudio, UiAction::AddMediaAudio)));
            proof { es = es.push(action_entry(Msg::FileTreeMenuAddAudio, UiAction::AddMediaAudio)); }
        },
        RowId::Video(id) => {
            let video = match data.video(id) {
                Some(v) => v,
                None => return items,
            };
            let a1 = UiAction::MediaVideoUse { id };
            push_item(&mut items, Ghost(es), action_item(Msg::FileTreeMenuUse, a1), Ghost(action_entry(Msg::FileTreeMenuUse, a1)));
            proof { es = es.push(action_entry(Msg::FileTreeMenuUse, a1)); }
            let a2 = UiAction::MediaVideoSetDefault { id };
            push_item(&mut items, Ghost(es), action_item(Msg::FileTreeMenuMakeDefault, a2), Ghost(action_entry(Msg::FileTreeMenuMakeDefault, a2)));
            proof { es = es.push(action_entry(Msg::FileTreeMenuMakeDefault, a2)); }
            if video.proxy_of.is_some() {
                let a3 = UiAction::MediaVideoDissociateProxy { id };
                push_item(&mut items, Ghost(es), action_item(Msg::FileTreeMenuDissociateProxy, a3), Ghost(action_entry(Msg::FileTreeMenuDissociateProxy, a3)));
                proof { es = es.push(action_entry(Msg::FileTreeMenuDissociateProxy, a3)); }
            } else {
                let relink = EventResponse::Action(UiAction::MediaVideoRelink { id });
                let ghost e3 = entry(msg_text(Msg::FileTreeMenuRestoreLink), video.missing, None, relink);
                push_item(&mut items, Ghost(es), item(owned(t(Msg::FileTreeMenuRestoreLink)), video.missing, None, relink), Ghost(e3));
                proof { es = es.push(e3); }
                let msg = if any_proxy_row(&data.videos, id) {
                    Msg::FileTreeMenuRecreateProxy
                } else {
                    Msg::FileTreeMenuCreateProxy
                };
                let a4 = UiAction::MediaVideoCreateProxy { id };
                push_item(&mut items, Ghost(es), action_item(msg, a4), Ghost(action_entry(msg, a4)));
                proof { es = es.push(action_entry(msg, a4)); }
                if data.can_be_proxy_endpoint(id) {
                    let k = SubmenuKind::AssociateProxyTo;
                    push_item(&mut items, Ghost(es), submenu_item(Msg::FileTreeMenuAssociateProxy, k), Ghost(submenu_entry(Msg::FileTreeMenuAssociateProxy, k)));
                    proof { es = es.push(submenu_entry(Msg::FileTreeMenuAssociateProxy, k)); }
                }
            }
            let a5 = UiAction::MediaVideoBeginRename { id };
            push_item(&mut items, Ghost(es), action_item(Msg::FileTreeMenuRename, a5), Ghost(action_entry(Msg::FileTreeMenuRename, a5)));
            proof { es = es.push(action_entry(Msg::FileTreeMenuRename, a5)); }
            let a6 = UiAction::MediaVideoRemove { id };
            push_item(&mut items, Ghost(es), action_item(Msg::FileTreeMenuRemove, a6), Ghost(action_entry(Msg::FileTreeMenuRemove, a6)));
            proof { es = es.push(action_entry(Msg::FileTreeMenuRemove, a6)); }
        },
        RowId::Audio(AudioRowId::Media(id)) => {
            let a1 = UiAction::MediaAudioRemove { id };
            push_item(&mut items, Ghost(es), action_item(Msg::FileTreeMenuRemove, a1), Ghost(action_entry(Msg::FileTreeMenuRemove, a1)));
            proof { es = es.push(action_entry(Msg::FileTreeMenuRemove, a1)); }
            let a2 = UiAction::MediaAudioBeginRename { id };
            push_item(&mut items, Ghost(es), action_item(Msg::FileTreeMenuRename, a2), Ghost(action_entry(Msg::FileTreeMenuRename, a2)));
            proof { es = es.push(action_entry(Msg::FileTreeMenuRename, a2)); }
        },
        RowId::Band(id) => {
            let a1 = UiAction::LanguageBeginRename { id };
            push_item(&mut items, Ghost(es), action_item(Msg::FileTreeMenuRename, a1), Ghost(action_entry(Msg::FileTreeMenuRename, a1)));
            proof { es = es.push(action_entry(Msg::FileTreeMenuRename, a1)); }
            let k1 = SubmenuKind::SyllableLanguage;
            push_item(&mut items, Ghost(es), submenu_item(Msg::FileTreeMenuSetSyllableLanguage, k1), Ghost(submenu_entry(Msg::FileTreeMenuSetSyllableLanguage, k1)));
            proof { es = es.push(submenu_entry(Msg::FileTreeMenuSetSyllableLanguage, k1)); }
            let k2 = SubmenuKind::Instrumental;
            push_item(&mut items, Ghost(es), submenu_item(Msg::FileTreeMenuSetInstrumental, k2), Ghost(submenu_entry(Msg::FileTreeMenuSetInstrumental, k2)));
            proof { es = es.push(submenu_entry(Msg::FileTreeMenuSetInstrumental, k2)); }
            let delete = EventResponse::Action(UiAction::DeleteLanguage { id });
            let enabled = data.bands.len() > 1;
            let ghost e4 = entry(msg_text(Msg::FileTreeMenuDelete), enabled, None, delete);
            push_item(&mut items, Ghost(es), item(owned(t(Msg::FileTreeMenuDelete)), enabled, None, delete), Ghost(e4));
            proof { es = es.push(e4); }
        },
        _ => {},
    }
    assert(es =~= context_menu_spec(row, *data));
    items
}

/// Whether video row `v` can become the source of proxy `proxy_id`.
pub open spec fn is_eligible_source(videos: Seq<VideoData>, v: VideoData, proxy_id: MediaId) -> bool {
    v.id != proxy_id && v.proxy_of is None && !has_proxy_row(videos, v.id)
}

/// Entries of the eligible sources among `videos[0..k]`.
pub open spec fn source_entries(videos: Seq<VideoData>, proxy_id: MediaId, k: int) -> Seq<MenuEntry>
    decreases k,
{
    if k <= 0 || k > videos.len() {
        Seq::empty()
    } else {
        let rest = source_entries(videos, proxy_id, k - 1);
        let v = videos[k - 1];
        if is_eligible_source(videos, v, proxy_id) {
            rest.push(
                entry(
                    v.name@,
                    true,
                    None,
                    EventResponse::Action(
                        UiAction::MediaVideoAssociateProxy { proxy_id, source_id: v.id },
                    ),
                ),
            )
        } else {
            rest
        }
    }
}

/// `label`, prefixed by a check mark when `checked`.
pub open spec fn checked_label(label: Seq<char>, checked: bool) -> Seq<char> {
    if checked {
        "✓ "@ + label
    } else {
        label
    }
}

/// Entries of the stored audios among `audios[0..k]` offered as instrumental.
pub open spec fn instrumental_entries(
    audios: Seq<AudioData>,
    band_id: u64,
    current: Option<Seq<char>>,
    k: int,
) -> Seq<MenuEntry>
    decreases k,
{
    if k <= 0 || k > audios.len() {
        Seq::empty()
    } else {
        let rest = instrumental_entries(audios, band_id, current, k - 1);
        let a = audios[k - 1];
        match a.media_id {
            Some(media_id) => rest.push(
                entry(
                    checked_label(
                        a.name@,
                        current matches Some(p) && path_components_equal(p, a.path@),
                    ),
                    true,
                    None,
                    EventResponse::Action(
                        UiAction::SetLanguageInstrumentalAudioByMediaId { band_id, media_id },
                    ),
                ),
            ),
            None => rest,
        }
    }
}

/// Label of a syllable-cutting language in its submenu.
pub open spec fn syllable_label(language: SyllableLanguage) -> Seq<char> {
    match language {
        SyllableLanguage::French => "Français"@,
        SyllableLanguage::English => "English"@,
        SyllableLanguage::Spanish => "Español"@,
    }
}

pub open spec fn syllable_entry(band_id: u64, language: SyllableLanguage, current: Option<SyllableLanguage>) -> MenuEntry {
    entry(
        checked_label(syllable_label(language), current == Some(language)),
        true,
        None,
        EventResponse::Action(UiAction::SetLanguageSyllableLanguage { id: band_id, language }),
    )
}

/// The entries of submenu `kind` opened from row `target`.
pub open spec fn submenu_spec(kind: SubmenuKind, data: FileTreeData, target: RowId) -> Seq<MenuEntry> {
    let videos = data.videos@;
    let bands = data.bands@;
    match kind {
        SubmenuKind::AssociateProxyTo => match target {
            RowId::Video(proxy_id) => {
                let sources = source_entries(videos, proxy_id, videos.len() as int);
                if sources.len() == 0 {
                    seq![entry(msg_text(Msg::FileTreeMenuNoEligibleVideo), false, None, EventResponse::Consumed)]
                } else {
                    sources
                }
            },
            _ => Seq::empty(),
        },
        SubmenuKind::SyllableLanguage => match target {
            RowId::Band(band_id) => {
                let current = match band_index(bands, band_id, 0) {
                    Some(i) => Some(bands[i].syllable_language),
                    None => None,
                };
                seq![
                    syllable_entry(band_id, SyllableLanguage::French, current),
                    syllable_entry(band_id, SyllableLanguage::English, current),
                    syllable_entry(band_id, SyllableLanguage::Spanish, current),
                ]
            },
            _ => Seq::empty(),
        },
        SubmenuKind::Instrumental => match target {
            RowId::Band(band_id) => {
                let current = match band_index(bands, band_id, 0) {
                    Some(i) => match bands[i].instrumental_audio_path {
                        Some(p) => Some(p@),
                        None => None,
                    },
                    None => None,
                };
                seq![
                    entry(
                        checked_label(msg_text(Msg::FileTreeMenuNone), current is None),
                        true,
                        None,
                        EventResponse::Action(UiAction::ClearLanguageInstrumentalAudio { id: band_id }),
                    ),
                ] + instrumental_entries(data.audios@, band_id, current, data.audios@.len() as int)
            },
            _ => Seq::empty(),
        },
    }
}

fn checked_text(label: &str, checked: bool) -> (r: String)
    ensures
        r@ == checked_label(label@, checked),
{
    if checked {
        let mut s = owned("✓ ");
        push_str(&mut s, label);
        s
    } else {
        owned(label)
    }
}

pub(crate) fn find_band<'a>(bands: &'a Vec<BandData>, id: u64) -> (r: Option<&'a BandData>)
    ensures
        match r {
            Some(b) => band_index(bands@, id, 0) matches Some(i) && 0 <= i < bands@.len()
                && bands@[i] == *b,
            None => band_index(bands@, id, 0) is None,
        },
{
    proof {
        lemma_band_index(bands@, id, 0);
    }
    let mut i: usize = 0;
    while i < bands.len()
        invariant
            i <= bands@.len(),
            band_index(bands@, id, 0) == band_index(bands@, id, i as int),
        decreases bands@.len() - i,
    {
        if bands[i].id == id {
            return Some(&bands[i]);
        }
        i = i + 1;
    }
    None
}

fn syllable_item(band_id: u64, language: SyllableLanguage, current: Option<SyllableLanguage>) -> (r: MenuItem)
    ensures
        r.label@ == syllable_entry(band_id, language, current).label,
        r.enabled == syllable_entry(band_id, language, current).enabled,
        r.submenu == syllable_entry(band_id, language, current).submenu,
        r.action == syllable_entry(band_id, language, current).action,
{
    let label = match language {
        SyllableLanguage::French => "Français",
        SyllableLanguage::English => "English",
        SyllableLanguage::Spanish => "Español",
    };
    let checked = match current {
        Some(c) => c == language,
        None => false,
    };
    item(
        checked_text(label, checked),
        true,
        None,
        EventResponse::Action(UiAction::SetLanguageSyllableLanguage { id: band_id, language }),
    )
}

/// The entries of submenu `kind` opened from row `target`.
pub fn submenu_items(kind: SubmenuKind, data: &FileTreeData, target: RowId) -> (r: Vec<MenuItem>)
    ensures
        items_match(r@, submenu_spec(kind, *data, target)),
{
    let mut items: Vec<MenuItem> = Vec::new();
    match kind {
        SubmenuKind::AssociateProxyTo => {
            let proxy_id = match target {
                RowId::Video(p) => p,
                _ => return items,
            };
            let ghost videos = data.videos@;
            let mut i: usize = 0;
            while i < data.videos.len()
                invariant
                    i <= data.videos@.len(),
                    videos == data.videos@,
                    target == RowId::Video(proxy_id),
                    kind == SubmenuKind::AssociateProxyTo,
                    items_match(items@, source_entries(videos, proxy_id, i as int)),
                decreases data.videos@.len() - i,
            {
                let v = &data.videos[i];
                if v.id != proxy_id && v.proxy_of.is_none() && !any_proxy_row(&data.videos, v.id) {
                    let action = EventResponse::Action(
                        UiAction::MediaVideoAssociateProxy { proxy_id, source_id: v.id },
                    );
                    let ghost e = entry(v.name@, true, None, action);
                    push_item(&mut items, Ghost(source_entries(videos, proxy_id, i as int)), item(v.name.clone(), true, None, action), Ghost(e));
                }
                i = i + 1;
            }
            if items.len() == 0 {
                let ghost s0: Seq<MenuEntry> = Seq::empty();
                let ghost e = entry(msg_text(Msg::FileTreeMenuNoEligibleVideo), false, None, EventResponse::Consumed);
                push_item(&mut items, Ghost(s0), item(owned(t(Msg::FileTreeMenuNoEligibleVideo)), false, None, EventResponse::Consumed), Ghost(e));
                assert(seq![e] =~= Seq::<MenuEntry>::empty().push(e));
            }
        },
        SubmenuKind::SyllableLanguage => {
            let band_id = match target {
                RowId::Band(b) => b,
                _ => return items,
            };
            let current = match find_band(&data.bands, band_id) {
                Some(b) => Some(b.syllable_language),
                None => None,
            };
            let ghost e1 = syllable_entry(band_id, SyllableLanguage::French, current);
            let ghost e2 = syllable_entry(band_id, SyllableLanguage::English, current);
            let ghost e3 = syllable_entry(band_id, SyllableLanguage::Spanish, current);
            let ghost s0: Seq<MenuEntry> = Seq::empty();
            let ghost s1: Seq<MenuEntry> = seq![e1];
            let ghost s2: Seq<MenuEntry> = seq![e1, e2];
            push_item(&mut items, Ghost(s0), syllable_item(band_id, SyllableLanguage::French, current), Ghost(e1));
            push_item(&mut items, Ghost(s1), syllable_item(band_id, SyllableLanguage::English, current), Ghost(e2));
            push_item(&mut items, Ghost(s2), syllable_item(band_id, SyllableLanguage::Spanish, current), Ghost(e3));
            assert(seq![e1].push(e2) =~= seq![e1, e2]);
            assert(seq![e1, e2].push(e3) =~= seq![e1, e2, e3]);
            assert(Seq::<MenuEntry>::empty().push(e1) =~= seq![e1]);
        },
        SubmenuKind::Instrumental => {
            let band_id = match target {
                RowId::Band(b) => b,
                _ => return items,
            };
            let current: Option<&String> = match find_band(&data.bands, band_id) {
                Some(b) => match &b.instrumental_audio_path {
                    Some(p) => Some(p),
                    None => None,
                },
                None => None,
            };
            let ghost cur: Option<Seq<char>> = match current {
                Some(p) => Some(p@),
                None => None,
            };
            let clear = EventResponse::Action(UiAction::ClearLanguageInstrumentalAudio { id: band_id });
            let ghost e0 = entry(checked_label(msg_text(Msg::FileTreeMenuNone), cur is None), true, None, clear);
            let ghost s0: Seq<MenuEntry> = Seq::empty();
            push_item(&mut items, Ghost(s0), item(checked_text(t(Msg::FileTreeMenuNone), current.is_none()), true, None, clear), Ghost(e0));
            assert(Seq::<MenuEntry>::empty().push(e0) =~= seq![e0]);
            let ghost audios = data.audios@;
            let mut i: usize = 0;
            assert(seq![e0] + instrumental_entries(audios, band_id, cur, 0) =~= seq![e0]);
            while i < data.audios.len()
                invariant
                    i <= data.audios@.len(),
                    audios == data.audios@,
                    kind == SubmenuKind::Instrumental,
                    target == RowId::Band(band_id),
                    cur == match current {
                        Some(p) => Some(p@),
                        None => None::<Seq<char>>,
                    },
                    items_match(items@, seq![e0] + instrumental_entries(audios, band_id, cur, i as int)),
                decreases data.audios@.len() - i,
            {
                let a = &data.audios[i];
                let ghost prefix = seq![e0] + instrumental_entries(audios, band_id, cur, i as int);
                match a.media_id {
                    Some(media_id) => {
                        let checked = match current {
                            Some(p) => paths_equal(p.as_str(), a.path.as_str()),
                            None => false,
                        };
                        let action = EventResponse::Action(
                            UiAction::SetLanguageInstrumentalAudioByMediaId { band_id, media_id },
                        );
                        let ghost e = entry(checked_label(a.name@, cur matches Some(p) && path_components_equal(p, a.path@)), true, None, action);
                        push_item(&mut items, Ghost(prefix), item(checked_text(a.name.as_str(), checked), true, None, action), Ghost(e));
                        assert(prefix.push(e) =~= seq![e0] + instrumental_entries(audios, band_id, cur, i + 1));
                    },
                    None => {
                        assert(prefix =~= seq![e0] + instrumental_entries(audios, band_id, cur, i + 1));
                    },
                }
                i = i + 1;
            }
        },
    }
    items
}

/// Whether the band instrumental at `path` is the file of `audio`.
pub fn data_audio_matches(_data: &FileTreeData, path: &str, audio: &AudioData) -> (r: bool)
    ensures
        r == path_components_equal(path@, audio.path@),
{
    paths_equal(path, audio.path.as_str())
}

/// Header text of group `kind`.
pub fn group_label(kind: GroupKind) -> (r: &'static str)
    ensures
        r@ == msg_text(match kind {
            GroupKind::Videos => Msg::FileTreeGroupVideos,
            GroupKind::Bands => Msg::FileTreeGroupBands,
            GroupKind::Audios => Msg::FileTreeGroupAudios,
        }),
{
    match kind {
        GroupKind::Videos => t(Msg::FileTreeGroupVideos),
        GroupKind::Bands => t(Msg::FileTreeGroupBands),
        GroupKind::Audios => t(Msg::FileTreeGroupAudios),
    }
}

/// The group an entry row belongs to.
pub open spec fn parent_group_spec(id: RowId) -> Option<GroupKind> {
    match id {
        RowId::Video(_) => Some(GroupKind::Videos),
        RowId::Audio(_) => Some(GroupKind::Audios),
        RowId::Band(_) => Some(GroupKind::Bands),
        _ => None,
    }
}

/// The group an entry row belongs to.
pub fn parent_group(id: RowId) -> (r: Option<GroupKind>)
    ensures
        r == parent_group_spec(id),
{
    match id {
        RowId::Video(_) => Some(GroupKind::Videos),
        RowId::Audio(_) => Some(GroupKind::Audios),
        RowId::Band(_) => Some(GroupKind::Bands),
        _ => None,
    }
}

/// The category (colour family) of a row: its own group for headers.
pub fn row_category(id: RowId) -> (r: Option<GroupKind>)
    ensures
        r == match id {
            RowId::Group(kind) => Some(kind),
            other => parent_group_spec(other),
        },
{
    match id {
        RowId::Group(kind) => Some(kind),
        other => parent_group(other),
    }
}

/// Whether `proxy_id` may become the proxy of `source_id`: two different
/// videos, neither a proxy nor already the source of one.
pub fn can_associate_proxy(data: &FileTreeData, proxy_id: MediaId, source_id: MediaId) -> (r: bool)
    ensures
        r == (proxy_id != source_id && can_be_proxy_endpoint_spec(data.videos@, proxy_id)
            && can_be_proxy_endpoint_spec(data.videos@, source_id)),
{
    proxy_id != source_id && data.can_be_proxy_endpoint(proxy_id) && match data.video(source_id) {
        Some(source) => source.proxy_of.is_none() && !source.is_proxy_source,
        None => false,
    }
}

/// Announcement of the selected row.
pub fn selection_event(label: String) -> (r: EventResponse)
    ensures
        r == EventResponse::Action(UiAction::Accessibility(AccessibilityEvent::Selection { label })),
{
    EventResponse::Action(UiAction::Accessibility(AccessibilityEvent::Selection { label }))
}

/// Announcement that the file tree collapsed.
pub fn collapse_event() -> (r: EventResponse)
    ensures
        r matches EventResponse::Action(UiAction::Accessibility(AccessibilityEvent::Collapsed { label }))
            && label@ == msg_text(Msg::FileTreeTitle),
{
    EventResponse::Action(
        UiAction::Accessibility(AccessibilityEvent::Collapsed { label: owned(t(Msg::FileTreeTitle)) }),
    )
}

/// Keyboard events the open file tree takes for itself.
pub open spec fn captured_by_tree(open: bool, event: UiEvent) -> bool {
    open && match event {
        UiEvent::KeyInput { .. } | UiEvent::FocusNext | UiEvent::FocusPrevious | UiEvent::Activate
        | UiEvent::CursorLeft | UiEvent::CursorRight | UiEvent::CursorUp | UiEvent::CursorDown
        | UiEvent::Home | UiEvent::End | UiEvent::PageUp | UiEvent::PageDown
        | UiEvent::OpenContextMenu | UiEvent::Delete => true,
        _ => false,
    }
}

/// Whether the file tree, `open` or not, takes `event` before the rest of
/// the window.
pub fn captures_keyboard_event(open: bool, event: &UiEvent) -> (r: bool)
    ensures
        r == captured_by_tree(open, *event),
{
    open && match event {
        UiEvent::KeyInput { .. } | UiEvent::FocusNext | UiEvent::FocusPrevious | UiEvent::Activate
        | UiEvent::CursorLeft | UiEvent::CursorRight | UiEvent::CursorUp | UiEvent::CursorDown
        | UiEvent::Home | UiEvent::End | UiEvent::PageUp | UiEvent::PageDown
        | UiEvent::OpenContextMenu | UiEvent::Delete => true,
        _ => false,
    }
}

/// The removal asked for by the Delete key on row `id`: videos, stored
/// audios and bands can be removed; other rows cannot.
pub fn remove_action(id: RowId) -> (r: Option<UiAction>)
    ensures
        r == self::tree_keys::remove_action_spec(id),
{
    match id {
        RowId::Video(m) => Some(UiAction::MediaVideoRemove { id: m }),
        RowId::Audio(AudioRowId::Media(m)) => Some(UiAction::MediaAudioRemove { id: m }),
        RowId::Band(b) => Some(UiAction::DeleteLanguage { id: b }),
        _ => None,
    }
}

/// A status icon shown at the right of a row.
#[derive(Clone, Copy, Debug, PartialEq, Eq, Structural)]
pub enum BadgeKind {
    /// The video is a proxy.
    Proxy,
    /// The video is the project default.
    Default,
    /// The video has a proxy.
    HasProxy,
    /// The audio is the instrumental of rythmo bands.
    RythmoBand,
}

/// A status icon with its tooltip and tint.
#[derive(Debug)]
pub struct StatusBadge {
    pub kind: BadgeKind,
    pub icon: &'static str,
    pub tooltip: String,
    pub color: (u8, u8, u8),
}

/// The status icons of row `id`, from the right edge leftwards: on a
/// video, proxy, default and has-proxy as they apply; on an audio used as
/// an instrumental, the rythmo-band icon.
pub open spec fn badge_kinds(id: RowId, data: FileTreeData) -> Seq<BadgeKind> {
    match id {
        RowId::Video(v) => match video_index(data.videos@, v, 0) {
            Some(i) => {
                let video = data.videos@[i];
                (if video.proxy_of is Some { seq![BadgeKind::Proxy] } else { Seq::empty() })
                    + (if video.is_default { seq![BadgeKind::Default] } else { Seq::empty() })
                    + (if video.is_proxy_source { seq![BadgeKind::HasProxy] } else { Seq::empty() })
            },
            None => Seq::empty(),
        },
        RowId::Audio(a) => match audio_index(data.audios@, a, 0) {
            Some(i) => if data.audios@[i].instrumental_of@.len() > 0 {
                seq![BadgeKind::RythmoBand]
            } else {
                Seq::empty()
            },
            None => Seq::empty(),
        },
        _ => Seq::empty(),
    }
}

/// Icon of a status badge.
pub open spec fn badge_icon(kind: BadgeKind) -> Seq<char> {
    match kind {
        BadgeKind::Proxy => "file-tree/proxy"@,
        BadgeKind::Default => "file-tree/default"@,
        BadgeKind::HasProxy => "file-tree/has-proxy"@,
        BadgeKind::RythmoBand => "file-tree/rythmo-band"@,
    }
}

/// Tint of a status badge.
pub open spec fn badge_color(kind: BadgeKind) -> (u8, u8, u8) {
    match kind {
        BadgeKind::Proxy => (126, 176, 255),
        BadgeKind::Default => (255, 207, 92),
        BadgeKind::HasProxy => (92, 210, 235),
        BadgeKind::RythmoBand => (202, 143, 255),
    }
}

/// Tooltip of a status badge of row `id`: the badge's name, or for the
/// rythmo-band icon the audio's instrumental badge text.
pub open spec fn badge_tooltip(kind: BadgeKind, id: RowId, data: FileTreeData) -> Seq<char> {
    match kind {
        BadgeKind::Proxy => msg_text(Msg::BadgeProxy),
        BadgeKind::Default => msg_text(Msg::BadgeDefault),
        BadgeKind::HasProxy => msg_text(Msg::BadgeHasProxy),
        BadgeKind::RythmoBand => match id {
            RowId::Audio(a) => match audio_index(data.audios@, a, 0) {
                Some(i) => data.audios@[i].instrumental_badge@,
                None => Seq::empty(),
            },
            _ => Seq::empty(),
        },
    }
}

fn badge(kind: BadgeKind, tooltip: String) -> (r: StatusBadge)
    ensures
        r.kind == kind,
        r.icon@ == badge_icon(kind),
        r.tooltip == tooltip,
        r.color == badge_color(kind),
{
    let (icon, color): (&'static str, (u8, u8, u8)) = match kind {
        BadgeKind::Proxy => ("file-tree/proxy", (126, 176, 255)),
        BadgeKind::Default => ("file-tree/default", (255, 207, 92)),
        BadgeKind::HasProxy => ("file-tree/has-proxy", (92, 210, 235)),
        BadgeKind::RythmoBand => ("file-tree/rythmo-band", (202, 143, 255)),
    };
    proof {
        reveal_strlit("file-tree/proxy");
        reveal_strlit("file-tree/default");
        reveal_strlit("file-tree/has-proxy");
        reveal_strlit("file-tree/rythmo-band");
    }
    StatusBadge { kind, icon, tooltip, color }
}

/// The status icons of row `id` (see `badge_kinds`).
pub fn status_badges(id: RowId, data: &FileTreeData) -> (r: Vec<StatusBadge>)
    ensures
        r@.len() == badge_kinds(id, *data).len(),
        forall|k: int|
            0 <= k < r@.len() ==> {
                let b = #[trigger] r@[k];
                let kind = badge_kinds(id, *data)[k];
                &&& b.kind == kind
                &&& b.icon@ == badge_icon(kind)
                &&& b.tooltip@ == badge_tooltip(kind, id, *data)
                &&& b.color == badge_color(kind)
            },
{
    let mut out: Vec<StatusBadge> = Vec::new();
    match id {
        RowId::Video(v) => {
            if let Some(video) = data.video(v) {
                let ghost mut kinds: Seq<BadgeKind> = Seq::empty();
                if video.proxy_of.is_some() {
                    out.push(badge(BadgeKind::Proxy, owned(t(Msg::BadgeProxy))));
                    proof { kinds = kinds.push(BadgeKind::Proxy); }
                }
                if video.is_default {
                    out.push(badge(BadgeKind::Default, owned(t(Msg::BadgeDefault))));
                    proof { kinds = kinds.push(BadgeKind::Default); }
                }
                if video.is_proxy_source {
                    out.push(badge(BadgeKind::HasProxy, owned(t(Msg::BadgeHasProxy))));
                    proof { kinds = kinds.push(BadgeKind::HasProxy); }
                }
                assert(kinds =~= badge_kinds(id, *data));
            }
        },
        RowId::Audio(a) => {
            if let Some(audio) = data.audio(a) {
                if audio.instrumental_of.len() > 0 {
                    out.push(badge(BadgeKind::RythmoBand, owned(audio.instrumental_badge.as_str())));
                }
            }
        },
        _ => {},
    }
    out
}

} // verus!
