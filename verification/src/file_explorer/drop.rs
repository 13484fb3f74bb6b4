//! What releasing a dragged row of the file tree asks for: reordering a
//! group, associating a proxy with its source, or giving a rythmo band its
//! instrumental audio.
//!
//! The geometry layer reports where the pointer was released as a
//! [`DropSite`]; the decision is made here from the rows and the tree data.

use vstd::prelude::*;

use crate::event::{EventResponse, UiAction};
use crate::project::MediaId;
use crate::text::owned;

use super::can_associate_proxy;
use super::data::{
    audio_index, band_index, can_be_proxy_endpoint_spec, video_index, AudioData, FileTreeData,
};
use super::rows::{AudioRowId, GroupKind, RowId};

verus! {

/// Where a dragged row was released.
#[derive(Clone, Copy, Debug, PartialEq, Eq, Structural)]
pub struct DropSite {
    /// Row under the pointer, if any.
    pub hit: Option<RowId>,
    /// The pointer is on the middle half of that row's height.
    pub on_row_center: bool,
    /// Insertion point among the rows of the dragged row's group: `None`
    /// when the pointer is above or below those rows, `Some(Some(row))`
    /// before `row`, `Some(None)` after the last one.
    pub insertion: Option<Option<RowId>>,
}

/// Identifiers of the stored audios (the virtual original-video audio has
/// none), in order.
pub open spec fn media_ids(audios: Seq<AudioData>) -> Seq<MediaId>
    decreases audios.len(),
{
    if audios.len() == 0 {
        Seq::empty()
    } else {
        match audios.last().media_id {
            Some(m) => media_ids(audios.drop_last()).push(m),
            None => media_ids(audios.drop_last()),
        }
    }
}

/// Position of the first `id` in `ids` at or after `k`.
pub open spec fn id_position(ids: Seq<MediaId>, id: MediaId, k: int) -> Option<int>
    decreases ids.len() - k,
{
    if k < 0 || k >= ids.len() {
        None
    } else if ids[k] == id {
        Some(k)
    } else {
        id_position(ids, id, k + 1)
    }
}

/// Index a video takes when dropped before row `before` (at the end when
/// that row is not a known video).
pub open spec fn video_slot(data: FileTreeData, before: Option<RowId>) -> int {
    match before {
        Some(RowId::Video(id)) => match video_index(data.videos@, id, 0) {
            Some(i) => i,
            None => data.videos@.len() as int,
        },
        _ => data.videos@.len() as int,
    }
}

/// Index among the stored audios an audio takes when dropped before row
/// `before` (after the last stored audio when that row is not one).
pub open spec fn audio_slot(data: FileTreeData, before: Option<RowId>) -> int {
    let ids = media_ids(data.audios@);
    match before {
        Some(RowId::Audio(AudioRowId::Media(id))) => match id_position(ids, id, 0) {
            Some(i) => i,
            None => ids.len() as int,
        },
        _ => ids.len() as int,
    }
}

/// Index a band takes when dropped before row `before` (at the end when
/// that row is not a known band).
pub open spec fn band_slot(data: FileTreeData, before: Option<RowId>) -> int {
    match before {
        Some(RowId::Band(id)) => match band_index(data.bands@, id, 0) {
            Some(i) => i,
            None => data.bands@.len() as int,
        },
        _ => data.bands@.len() as int,
    }
}

/// `r` asks to give band `band` the file of stored audio `audio` as its
/// instrumental, or is `Consumed` when that audio is not in the tree.
pub open spec fn assigns_audio(r: EventResponse, data: FileTreeData, band: u64, audio: MediaId) -> bool {
    match audio_index(data.audios@, AudioRowId::Media(audio), 0) {
        Some(i) => r matches EventResponse::Action(
            UiAction::SetLanguageInstrumentalAudioPath { id, path },
        ) && id == band && path@ == data.audios@[i].path@,
        None => r == EventResponse::Consumed,
    }
}

/// `r` is the reorder `action` when there is an insertion point, else
/// `Consumed`.
pub open spec fn reorders(r: EventResponse, site: DropSite, action: UiAction) -> bool {
    match site.insertion {
        Some(_) => r == EventResponse::Action(action),
        None => r == EventResponse::Consumed,
    }
}

/// The answer to releasing row `dragged` at `site`.
pub open spec fn drop_answer(r: EventResponse, data: FileTreeData, dragged: RowId, site: DropSite) -> bool {
    let before = match site.insertion {
        Some(b) => b,
        None => None,
    };
    match dragged {
        RowId::Audio(AudioRowId::Media(audio)) => match site.hit {
            Some(RowId::Band(band)) => assigns_audio(r, data, band, audio),
            _ => reorders(
                r,
                site,
                UiAction::MediaReorderAudio { id: audio, to_index: audio_slot(data, before) as usize },
            ),
        },
        RowId::Video(proxy) => match site.hit {
            Some(RowId::Video(source)) if site.on_row_center && proxy != source
                && can_be_proxy_endpoint_spec(data.videos@, proxy) && can_be_proxy_endpoint_spec(
                data.videos@,
                source,
            ) => r == EventResponse::Action(
                UiAction::MediaVideoAssociateProxy { proxy_id: proxy, source_id: source },
            ),
            _ => reorders(
                r,
                site,
                UiAction::MediaReorderVideo { id: proxy, to_index: video_slot(data, before) as usize },
            ),
        },
        RowId::Band(band) => match site.hit {
            Some(RowId::Audio(AudioRowId::Media(audio))) => assigns_audio(r, data, band, audio),
            _ => reorders(
                r,
                site,
                UiAction::LanguageReorder { id: band, to_index: band_slot(data, before) as usize },
            ),
        },
        _ => r == EventResponse::Consumed,
    }
}

proof fn lemma_media_ids_len(audios: Seq<AudioData>)
    ensures
        media_ids(audios).len() <= audios.len(),
    decreases audios.len(),
{
    if audios.len() > 0 {
        lemma_media_ids_len(audios.drop_last());
    }
}

fn video_insertion_index(data: &FileTreeData, before: Option<RowId>) -> (r: usize)
    ensures
        r == video_slot(*data, before),
{
    if let Some(RowId::Video(id)) = before {
        let mut i: usize = 0;
        while i < data.videos.len()
            invariant
                i <= data.videos@.len(),
                before == Some(RowId::Video(id)),
                video_index(data.videos@, id, 0) == video_index(data.videos@, id, i as int),
            decreases data.videos@.len() - i,
        {
            if data.videos[i].id == id {
                assert(video_index(data.videos@, id, i as int) == Some(i as int));
                return i;
            }
            i = i + 1;
        }
    }
    data.videos.len()
}

fn band_insertion_index(data: &FileTreeData, before: Option<RowId>) -> (r: usize)
    ensures
        r == band_slot(*data, before),
{
    if let Some(RowId::Band(id)) = before {
        let mut i: usize = 0;
        while i < data.bands.len()
            invariant
                i <= data.bands@.len(),
                before == Some(RowId::Band(id)),
                band_index(data.bands@, id, 0) == band_index(data.bands@, id, i as int),
            decreases data.bands@.len() - i,
        {
            if data.bands[i].id == id {
                assert(band_index(data.bands@, id, i as int) == Some(i as int));
                return i;
            }
            i = i + 1;
        }
    }
    data.bands.len()
}

fn audio_insertion_index(data: &FileTreeData, before: Option<RowId>) -> (r: usize)
    ensures
        r == audio_slot(*data, before),
{
    let mut ids: Vec<MediaId> = Vec::new();
    let mut i: usize = 0;
    while i < data.audios.len()
        invariant
            i <= data.audios@.len(),
            ids@ == media_ids(data.audios@.take(i as int)),
        decreases data.audios@.len() - i,
    {
        assert(data.audios@.take(i + 1).drop_last() =~= data.audios@.take(i as int));
        if let Some(m) = data.audios[i].media_id {
            ids.push(m);
        }
        i = i + 1;
    }
    assert(data.audios@.take(data.audios@.len() as int) =~= data.audios@);
    if let Some(RowId::Audio(AudioRowId::Media(id))) = before {
        let mut k: usize = 0;
        while k < ids.len()
            invariant
                k <= ids@.len(),
                ids@ == media_ids(data.audios@),
                before == Some(RowId::Audio(AudioRowId::Media(id))),
                id_position(ids@, id, 0) == id_position(ids@, id, k as int),
            decreases ids@.len() - k,
        {
            if ids[k] == id {
                assert(id_position(ids@, id, k as int) == Some(k as int));
                return k;
            }
            k = k + 1;
        }
    }
    ids.len()
}

fn audio_path_answer(data: &FileTreeData, band: u64, audio: MediaId) -> (r: EventResponse)
    ensures
        assigns_audio(r, *data, band, audio),
{
    match data.audio(AudioRowId::Media(audio)) {
        Some(a) => EventResponse::Action(
            UiAction::SetLanguageInstrumentalAudioPath { id: band, path: owned(a.path.as_str()) },
        ),
        None => EventResponse::Consumed,
    }
}

/// What releasing the dragged row `dragged` at `site` asks for: an audio
/// or a band dropped on the other kind assigns the audio as the band's
/// instrumental; a video dropped on the middle of another video becomes its
/// proxy when both can take part; otherwise the row moves to the insertion
/// point of its group, if there is one.
pub fn drop_drag(dragged: RowId, site: DropSite, data: &FileTreeData) -> (r: EventResponse)
    ensures
        drop_answer(r, *data, dragged, site),
{
    let before = match site.insertion {
        Some(b) => b,
        None => None,
    };
    match dragged {
        RowId::Audio(AudioRowId::Media(audio)) => match site.hit {
            Some(RowId::Band(band)) => audio_path_answer(data, band, audio),
            _ => match site.insertion {
                Some(_) => EventResponse::Action(
                    UiAction::MediaReorderAudio {
                        id: audio,
                        to_index: audio_insertion_index(data, before),
                    },
                ),
                None => EventResponse::Consumed,
            },
        },
        RowId::Video(proxy) => {
            if let Some(RowId::Video(source)) = site.hit {
                if site.on_row_center && can_associate_proxy(data, proxy, source) {
                    return EventResponse::Action(
                        UiAction::MediaVideoAssociateProxy { proxy_id: proxy, source_id: source },
                    );
                }
            }
            match site.insertion {
                Some(_) => EventResponse::Action(
                    UiAction::MediaReorderVideo {
                        id: proxy,
                        to_index: video_insertion_index(data, before),
                    },
                ),
                None => EventResponse::Consumed,
            }
        },
        RowId::Band(band) => match site.hit {
            Some(RowId::Audio(AudioRowId::Media(audio))) => audio_path_answer(data, band, audio),
            _ => match site.insertion {
                Some(_) => EventResponse::Action(
                    UiAction::LanguageReorder { id: band, to_index: band_insertion_index(data, before) },
                ),
                None => EventResponse::Consumed,
            },
        },
        _ => EventResponse::Consumed,
    }
}

/// Media group receiving files dropped from the operating system on `row`:
/// a group header, or any of its entries, which count as their parent group;
/// none on the root, nor while the tree is closed.
pub fn drop_target_group(open: bool, row: Option<RowId>) -> (r: Option<GroupKind>)
    ensures
        r == if !open {
            None
        } else {
            match row {
                Some(RowId::Group(kind)) => Some(kind),
                Some(RowId::Video(_)) => Some(GroupKind::Videos),
                Some(RowId::Audio(_)) => Some(GroupKind::Audios),
                Some(RowId::Band(_)) => Some(GroupKind::Bands),
                _ => None,
            }
        },
{
    if !open {
        return None;
    }
    match row {
        Some(RowId::Group(kind)) => Some(kind),
        Some(RowId::Video(_)) => Some(GroupKind::Videos),
        Some(RowId::Audio(_)) => Some(GroupKind::Audios),
        Some(RowId::Band(_)) => Some(GroupKind::Bands),
        _ => None,
    }
}

} // verus!
