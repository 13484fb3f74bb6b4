//! Row model: identifiers and flattening of the tree for rendering.

use std::ops::Range;

use vstd::prelude::*;

use crate::project::MediaId;

use super::data::{AudioData, BandData, FileTreeData, VideoData};

verus! {

#[derive(Clone, Copy, Debug, PartialEq, Eq, Hash, Structural)]
pub enum GroupKind {
    Videos,
    Bands,
    Audios,
}

#[derive(Clone, Copy, Debug, PartialEq, Eq, Hash, Structural)]
pub enum AudioRowId {
    /// Virtual fixed row: "Audio of the original video".
    OriginalVideo,
    Media(MediaId),
}

#[derive(Clone, Copy, Debug, PartialEq, Eq, Hash, Structural)]
pub enum RowId {
    Root,
    Group(GroupKind),
    Video(MediaId),
    Audio(AudioRowId),
    Band(u64),
}

/// One flattened row of the visible tree.
#[derive(Clone, Copy, Debug, PartialEq, Eq, Structural)]
pub struct Row {
    pub id: RowId,
    /// 0 for the root, 1 for groups, 2 for entries, 3 for proxy children.
    pub depth: u32,
}

impl Row {
    pub fn is_container(&self) -> (r: bool)
        ensures
            r == (self.id is Root || self.id is Group),
    {
        match self.id {
            RowId::Root | RowId::Group(_) => true,
            _ => false,
        }
    }
}

/// Rows of the proxies of video `source`, among `videos[0..k]`, in order.
pub open spec fn proxy_rows(videos: Seq<VideoData>, source: MediaId, k: int) -> Seq<Row>
    decreases k,
{
    if k <= 0 || k > videos.len() {
        Seq::empty()
    } else {
        let rest = proxy_rows(videos, source, k - 1);
        if videos[k - 1].proxy_of == Some(source) {
            rest.push(Row { id: RowId::Video(videos[k - 1].id), depth: 3 })
        } else {
            rest
        }
    }
}

/// Rows of the Videos group for `videos[0..k]`: each top-level video
/// followed by its proxies.
pub open spec fn video_rows(videos: Seq<VideoData>, k: int) -> Seq<Row>
    decreases k,
{
    if k <= 0 || k > videos.len() {
        Seq::empty()
    } else {
        let rest = video_rows(videos, k - 1);
        let video = videos[k - 1];
        if video.proxy_of is None {
            rest + seq![Row { id: RowId::Video(video.id), depth: 2 }] + proxy_rows(
                videos,
                video.id,
                videos.len() as int,
            )
        } else {
            rest
        }
    }
}

/// Rows of the rythmo bands group.
pub open spec fn band_rows(bands: Seq<BandData>) -> Seq<Row> {
    Seq::new(bands.len(), |i: int| Row { id: RowId::Band(bands[i].id), depth: 2 })
}

/// Rows of the audios group.
pub open spec fn audio_rows(audios: Seq<AudioData>) -> Seq<Row> {
    Seq::new(audios.len(), |i: int| Row { id: RowId::Audio(audios[i].id), depth: 2 })
}

/// Header row of a group.
pub open spec fn group_row(kind: GroupKind) -> Row {
    Row { id: RowId::Group(kind), depth: 1 }
}

/// The visible rows: root, then each group header followed by its entries
/// when the group is expanded.
pub open spec fn flatten_spec(
    videos: Seq<VideoData>,
    bands: Seq<BandData>,
    audios: Seq<AudioData>,
    expanded: ExpandedSet,
) -> Seq<Row> {
    seq![Row { id: RowId::Root, depth: 0 }, group_row(GroupKind::Videos)] + (if expanded.videos {
        video_rows(videos, videos.len() as int)
    } else {
        Seq::empty()
    }) + seq![group_row(GroupKind::Bands)] + (if expanded.bands {
        band_rows(bands)
    } else {
        Seq::empty()
    }) + seq![group_row(GroupKind::Audios)] + (if expanded.audios {
        audio_rows(audios)
    } else {
        Seq::empty()
    })
}

fn push_proxy_rows(out: &mut Vec<Row>, videos: &Vec<VideoData>, source: MediaId)
    ensures
        final(out)@ == old(out)@ + proxy_rows(videos@, source, videos@.len() as int),
{
    let ghost start = out@;
    let mut i: usize = 0;
    while i < videos.len()
        invariant
            i <= videos@.len(),
            out@ == start + proxy_rows(videos@, source, i as int),
        decreases videos@.len() - i,
    {
        if videos[i].proxy_of == Some(source) {
            out.push(Row { id: RowId::Video(videos[i].id), depth: 3 });
        }
        i = i + 1;
        assert(out@ =~= start + proxy_rows(videos@, source, i as int));
    }
}

fn push_video_rows(out: &mut Vec<Row>, videos: &Vec<VideoData>)
    ensures
        final(out)@ == old(out)@ + video_rows(videos@, videos@.len() as int),
{
    let ghost start = out@;
    let mut i: usize = 0;
    while i < videos.len()
        invariant
            i <= videos@.len(),
            out@ == start + video_rows(videos@, i as int),
        decreases videos@.len() - i,
    {
        if videos[i].proxy_of.is_none() {
            let id = videos[i].id;
            out.push(Row { id: RowId::Video(id), depth: 2 });
            push_proxy_rows(out, videos, id);
        }
        i = i + 1;
        assert(out@ =~= start + video_rows(videos@, i as int));
    }
}

/// Flatten `data` into the visible rows given the expanded-group set.
///
/// Layout: root, then the three groups (Vidéos, Bandes rythmo, Audios); an
/// expanded group lists its entries. Proxy videos render as children of
/// their source video (depth + 1) regardless of their library vector order.
pub fn flatten(data: &FileTreeData, expanded: &ExpandedSet) -> (r: Vec<Row>)
    ensures
        r@ == flatten_spec(data.videos@, data.bands@, data.audios@, *expanded),
{
    let mut rows: Vec<Row> = Vec::new();
    rows.push(Row { id: RowId::Root, depth: 0 });
    rows.push(Row { id: RowId::Group(GroupKind::Videos), depth: 1 });
    let ghost a = rows@;
    if expanded.videos {
        push_video_rows(&mut rows, &data.videos);
    }
    let ghost b = rows@;
    rows.push(Row { id: RowId::Group(GroupKind::Bands), depth: 1 });
    if expanded.bands {
        let mut i: usize = 0;
        let ghost c = rows@;
        while i < data.bands.len()
            invariant
                i <= data.bands@.len(),
                rows@ == c + band_rows(data.bands@).subrange(0, i as int),
            decreases data.bands@.len() - i,
        {
            rows.push(Row { id: RowId::Band(data.bands[i].id), depth: 2 });
            i = i + 1;
            assert(rows@ =~= c + band_rows(data.bands@).subrange(0, i as int));
        }
        assert(band_rows(data.bands@).subrange(0, i as int) =~= band_rows(data.bands@));
    }
    let ghost d = rows@;
    rows.push(Row { id: RowId::Group(GroupKind::Audios), depth: 1 });
    if expanded.audios {
        let mut i: usize = 0;
        let ghost e = rows@;
        while i < data.audios.len()
            invariant
                i <= data.audios@.len(),
                rows@ == e + audio_rows(data.audios@).subrange(0, i as int),
            decreases data.audios@.len() - i,
        {
            rows.push(Row { id: RowId::Audio(data.audios[i].id), depth: 2 });
            i = i + 1;
            assert(rows@ =~= e + audio_rows(data.audios@).subrange(0, i as int));
        }
        assert(audio_rows(data.audios@).subrange(0, i as int) =~= audio_rows(data.audios@));
    }
    assert(rows@ =~= flatten_spec(data.videos@, data.bands@, data.audios@, *expanded));
    rows
}

/// Expansion state of the three groups (root is never collapsible).
#[derive(Clone, Copy, Debug, Default, PartialEq, Eq, Structural)]
pub struct ExpandedSet {
    pub videos: bool,
    pub bands: bool,
    pub audios: bool,
}

/// Whether group `kind` is expanded.
pub open spec fn expanded_get(set: ExpandedSet, kind: GroupKind) -> bool {
    match kind {
        GroupKind::Videos => set.videos,
        GroupKind::Bands => set.bands,
        GroupKind::Audios => set.audios,
    }
}

impl ExpandedSet {
    pub fn all_expanded() -> (r: Self)
        ensures
            r.videos && r.bands && r.audios,
    {
        ExpandedSet { videos: true, bands: true, audios: true }
    }

    pub fn get(&self, kind: GroupKind) -> (r: bool)
        ensures
            r == expanded_get(*self, kind),
    {
        match kind {
            GroupKind::Videos => self.videos,
            GroupKind::Bands => self.bands,
            GroupKind::Audios => self.audios,
        }
    }

    /// Flips the expansion of group `kind` only.
    pub fn toggle(&mut self, kind: GroupKind)
        ensures
            expanded_get(*final(self), kind) == !expanded_get(*old(self), kind),
            forall|other: GroupKind|
                other != kind ==> expanded_get(*final(self), other) == expanded_get(
                    *old(self),
                    other,
                ),
    {
        match kind {
            GroupKind::Videos => self.videos = !self.videos,
            GroupKind::Bands => self.bands = !self.bands,
            GroupKind::Audios => self.audios = !self.audios,
        }
    }
}

/// Index of the first row with identifier `id` at or after `k`.
pub open spec fn row_position(rows: Seq<Row>, id: RowId, k: int) -> Option<int>
    decreases rows.len() - k,
{
    if k < 0 || k >= rows.len() {
        None
    } else if rows[k].id == id {
        Some(k)
    } else {
        row_position(rows, id, k + 1)
    }
}

/// Whether row `j` is a video entry (depth 2).
pub open spec fn is_entry_video(rows: Seq<Row>, j: int) -> bool {
    rows[j].depth == 2 && rows[j].id is Video
}

/// Index of the closest entry video strictly before `k` (the proxy's parent).
pub open spec fn parent_video(rows: Seq<Row>, k: int) -> Option<int>
    decreases k,
{
    if k <= 0 || k > rows.len() {
        None
    } else if is_entry_video(rows, k - 1) {
        Some(k - 1)
    } else {
        parent_video(rows, k - 1)
    }
}

/// First row at or after `k` that is shallower than a proxy, or the end.
pub open spec fn proxy_run_end(rows: Seq<Row>, k: int) -> int
    decreases rows.len() - k,
{
    if k < 0 || k >= rows.len() {
        rows.len() as int
    } else if rows[k].depth < 3 {
        k
    } else {
        proxy_run_end(rows, k + 1)
    }
}

/// Whether row `j` belongs to the set of siblings of row `index`.
pub open spec fn is_sibling(rows: Seq<Row>, index: int, j: int) -> bool {
    match rows[index].id {
        RowId::Root => j == index,
        RowId::Group(_) => rows[j].id is Group,
        RowId::Video(_) => if rows[index].depth == 3 {
            match parent_video(rows, index) {
                Some(parent) => parent + 1 <= j < proxy_run_end(rows, index),
                None => j == index,
            }
        } else {
            rows[j].id is Video && rows[j].depth == 2
        },
        RowId::Audio(_) => rows[j].id is Audio,
        RowId::Band(_) => rows[j].id is Band,
    }
}

/// Number of siblings of row `index` among `rows[0..k]`.
pub open spec fn sibling_count(rows: Seq<Row>, index: int, k: int) -> nat
    decreases k,
{
    if k <= 0 || k > rows.len() {
        0
    } else {
        sibling_count(rows, index, k - 1) + if is_sibling(rows, index, k - 1) {
            1nat
        } else {
            0nat
        }
    }
}

/// One-based position of row `id` among its visible siblings, and their
/// number; `None` when `id` is not visible.
pub open spec fn set_metrics_spec(rows: Seq<Row>, id: RowId) -> Option<(int, int)> {
    match row_position(rows, id, 0) {
        Some(index) => Some(
            (sibling_count(rows, index, index) as int + 1, sibling_count(rows, index, rows.len() as int) as int),
        ),
        None => None,
    }
}

fn position_of(rows: &[Row], id: RowId) -> (r: Option<usize>)
    ensures
        match r {
            Some(i) => row_position(rows@, id, 0) == Some(i as int) && i < rows@.len(),
            None => row_position(rows@, id, 0) is None,
        },
{
    let mut i: usize = 0;
    while i < rows.len()
        invariant
            i <= rows@.len(),
            row_position(rows@, id, 0) == row_position(rows@, id, i as int),
        decreases rows@.len() - i,
    {
        if rows[i].id == id {
            return Some(i);
        }
        i = i + 1;
    }
    None
}

fn find_parent_video(rows: &[Row], index: usize) -> (r: Option<usize>)
    requires
        index <= rows@.len(),
    ensures
        match r {
            Some(p) => parent_video(rows@, index as int) == Some(p as int) && p < index,
            None => parent_video(rows@, index as int) is None,
        },
{
    let mut k: usize = index;
    while k > 0
        invariant
            k <= index <= rows@.len(),
            parent_video(rows@, index as int) == parent_video(rows@, k as int),
        decreases k,
    {
        if rows[k - 1].depth == 2 && matches!(rows[k - 1].id, RowId::Video(_)) {
            return Some(k - 1);
        }
        k = k - 1;
    }
    None
}

fn find_run_end(rows: &[Row], index: usize) -> (r: usize)
    requires
        index <= rows@.len(),
    ensures
        r == proxy_run_end(rows@, index as int),
        index <= r <= rows@.len(),
{
    let mut k: usize = index;
    while k < rows.len()
        invariant
            index <= k <= rows@.len(),
            proxy_run_end(rows@, index as int) == proxy_run_end(rows@, k as int),
        decreases rows@.len() - k,
    {
        if rows[k].depth < 3 {
            return k;
        }
        k = k + 1;
    }
    rows.len()
}

fn sibling_test(rows: &[Row], index: usize, parent: Option<usize>, end: usize, j: usize) -> (r: bool)
    requires
        index < rows@.len(),
        j < rows@.len(),
        rows@[index as int].id is Video && rows@[index as int].depth == 3 ==> {
            &&& match parent {
                Some(p) => parent_video(rows@, index as int) == Some(p as int),
                None => parent_video(rows@, index as int) is None,
            }
            &&& end == proxy_run_end(rows@, index as int)
        },
    ensures
        r == is_sibling(rows@, index as int, j as int),
{
    match rows[index].id {
        RowId::Root => j == index,
        RowId::Group(_) => matches!(rows[j].id, RowId::Group(_)),
        RowId::Video(_) => if rows[index].depth == 3 {
            match parent {
                Some(p) => p < j && j < end,
                None => j == index,
            }
        } else {
            matches!(rows[j].id, RowId::Video(_)) && rows[j].depth == 2
        },
        RowId::Audio(_) => matches!(rows[j].id, RowId::Audio(_)),
        RowId::Band(_) => matches!(rows[j].id, RowId::Band(_)),
    }
}

/// Position-in-set / size-of-set for a11y tree items among visible siblings.
pub fn set_metrics(rows: &[Row], id: RowId) -> (r: Option<(usize, usize)>)
    ensures
        match r {
            Some((position, size)) => set_metrics_spec(rows@, id) == Some(
                (position as int, size as int),
            ),
            None => set_metrics_spec(rows@, id) is None,
        },
{
    let index = match position_of(rows, id) {
        Some(i) => i,
        None => return None,
    };
    let is_proxy = matches!(rows[index].id, RowId::Video(_)) && rows[index].depth == 3;
    let parent = if is_proxy {
        find_parent_video(rows, index)
    } else {
        None
    };
    let end = if is_proxy {
        find_run_end(rows, index)
    } else {
        rows.len()
    };
    let mut before: usize = 0;
    let mut total: usize = 0;
    let mut j: usize = 0;
    while j < rows.len()
        invariant
            index < rows@.len(),
            j <= rows@.len(),
            is_proxy == (rows@[index as int].id is Video && rows@[index as int].depth == 3),
            is_proxy ==> {
                &&& match parent {
                    Some(p) => parent_video(rows@, index as int) == Some(p as int),
                    None => parent_video(rows@, index as int) is None,
                }
                &&& end == proxy_run_end(rows@, index as int)
            },
            total == sibling_count(rows@, index as int, j as int),
            before == sibling_count(rows@, index as int, if j < index {
                j as int
            } else {
                index as int
            }),
            total <= j,
            before <= j,
            before <= index,
        decreases rows@.len() - j,
    {
        if sibling_test(rows, index, parent, end, j) {
            total = total + 1;
            if j < index {
                before = before + 1;
            }
        }
        j = j + 1;
    }
    Some((before + 1, total))
}

/// First group header at or after `k`, or the end of the rows.
pub open spec fn next_header(rows: Seq<Row>, k: int) -> int
    decreases rows.len() - k,
{
    if k < 0 || k >= rows.len() {
        rows.len() as int
    } else if rows[k].id is Group {
        k
    } else {
        next_header(rows, k + 1)
    }
}

/// The content range after `kind`'s header, stopping before the next header.
pub open spec fn group_content_range_spec(rows: Seq<Row>, kind: GroupKind) -> Option<(int, int)> {
    match row_position(rows, RowId::Group(kind), 0) {
        Some(h) => Some((h + 1, next_header(rows, h + 1))),
        None => None,
    }
}

/// The content range after `kind`'s header, stopping before the next header.
pub fn group_content_range(rows: &[Row], kind: GroupKind) -> (r: Option<Range<usize>>)
    ensures
        match r {
            Some(range) => group_content_range_spec(rows@, kind) == Some(
                (range.start as int, range.end as int),
            ),
            None => group_content_range_spec(rows@, kind) is None,
        },
{
    let header = match position_of(rows, RowId::Group(kind)) {
        Some(h) => h,
        None => return None,
    };
    let n = rows.len();
    assert(header < n);
    let start = header + 1;
    let mut k: usize = start;
    while k < rows.len()
        invariant
            start <= k <= rows@.len(),
            start == header + 1,
            row_position(rows@, RowId::Group(kind), 0) == Some(header as int),
            next_header(rows@, start as int) == next_header(rows@, k as int),
        decreases rows@.len() - k,
    {
        if matches!(rows[k].id, RowId::Group(_)) {
            let range = start..k;
            assert(range.start == start && range.end == k);
            assert(next_header(rows@, k as int) == k);
            return Some(range);
        }
        k = k + 1;
    }
    Some(start..rows.len())
}

proof fn lemma_proxy_rows_shape(videos: Seq<VideoData>, source: MediaId, k: int)
    ensures
        forall|j: int|
            0 <= j < proxy_rows(videos, source, k).len() ==> (#[trigger] proxy_rows(
                videos,
                source,
                k,
            )[j]).id is Video && proxy_rows(videos, source, k)[j].depth == 3,
    decreases k,
{
    if 0 < k <= videos.len() {
        lemma_proxy_rows_shape(videos, source, k - 1);
    }
}

proof fn lemma_video_rows_shape(videos: Seq<VideoData>, k: int)
    ensures
        forall|j: int|
            0 <= j < video_rows(videos, k).len() ==> (#[trigger] video_rows(videos, k)[j]).id is Video
                && 2 <= video_rows(videos, k)[j].depth <= 3,
    decreases k,
{
    if 0 < k <= videos.len() {
        lemma_video_rows_shape(videos, k - 1);
        let video = videos[k - 1];
        if video.proxy_of is None {
            let rest = video_rows(videos, k - 1);
            let proxies = proxy_rows(videos, video.id, videos.len() as int);
            lemma_proxy_rows_shape(videos, video.id, videos.len() as int);
            let all = rest + seq![Row { id: RowId::Video(video.id), depth: 2 }] + proxies;
            assert forall|j: int| 0 <= j < all.len() implies (#[trigger] all[j]).id is Video && 2
                <= all[j].depth <= 3 by {
                if j < rest.len() {
                    assert(all[j] == rest[j]);
                } else if j > rest.len() {
                    assert(all[j] == proxies[j - rest.len() - 1]);
                }
            }
        }
    }
}

/// The visible rows: the root first; then the Videos, Bands and Audios
/// headers in that order, at depth 1 and the only group rows; after each
/// header, its entries when the group is expanded and none otherwise:
/// videos at depth 2 or 3, then each band and each audio at depth 2, in
/// the data's order.
pub proof fn lemma_flatten_layout(
    videos: Seq<VideoData>,
    bands: Seq<BandData>,
    audios: Seq<AudioData>,
    expanded: ExpandedSet,
)
    ensures
        ({
            let rows = flatten_spec(videos, bands, audios, expanded);
            let v: int = if expanded.videos {
                video_rows(videos, videos.len() as int).len() as int
            } else {
                0
            };
            let b: int = if expanded.bands {
                bands.len() as int
            } else {
                0
            };
            let a: int = if expanded.audios {
                audios.len() as int
            } else {
                0
            };
            &&& rows.len() == 4 + v + b + a
            &&& rows[0] == (Row { id: RowId::Root, depth: 0 })
            &&& rows[1] == group_row(GroupKind::Videos)
            &&& rows[2 + v] == group_row(GroupKind::Bands)
            &&& rows[3 + v + b] == group_row(GroupKind::Audios)
            &&& forall|j: int|
                0 <= j < rows.len() && (#[trigger] rows[j]).id is Group ==> j == 1 || j == 2 + v
                    || j == 3 + v + b
            &&& forall|j: int|
                2 <= j < 2 + v ==> (#[trigger] rows[j]).id is Video && 2 <= rows[j].depth <= 3
            &&& forall|j: int|
                0 <= j < b ==> #[trigger] rows[3 + v + j] == (Row {
                    id: RowId::Band(bands[j].id),
                    depth: 2,
                })
            &&& forall|j: int|
                0 <= j < a ==> #[trigger] rows[4 + v + b + j] == (Row {
                    id: RowId::Audio(audios[j].id),
                    depth: 2,
                })
        }),
{
    let rows = flatten_spec(videos, bands, audios, expanded);
    let vr = if expanded.videos {
        video_rows(videos, videos.len() as int)
    } else {
        Seq::empty()
    };
    let br = if expanded.bands {
        band_rows(bands)
    } else {
        Seq::empty()
    };
    let ar = if expanded.audios {
        audio_rows(audios)
    } else {
        Seq::empty()
    };
    lemma_video_rows_shape(videos, videos.len() as int);
    let head = seq![Row { id: RowId::Root, depth: 0 }, group_row(GroupKind::Videos)];
    let p1 = head + vr;
    let p2 = p1 + seq![group_row(GroupKind::Bands)];
    let p3 = p2 + br;
    let p4 = p3 + seq![group_row(GroupKind::Audios)];
    assert(rows == p4 + ar);
    let v = vr.len() as int;
    let b = br.len() as int;
    assert forall|j: int| 2 <= j < 2 + v implies (#[trigger] rows[j]).id is Video && 2
        <= rows[j].depth <= 3 by {
        assert(rows[j] == vr[j - 2]);
    }
    assert forall|j: int| 0 <= j < b implies #[trigger] rows[3 + v + j] == br[j] by {}
    assert forall|j: int| 0 <= j < ar.len() implies #[trigger] rows[4 + v + b + j] == ar[j] by {}
    assert forall|j: int| 0 <= j < rows.len() && (#[trigger] rows[j]).id is Group implies j == 1
        || j == 2 + v || j == 3 + v + b by {
        if 2 <= j < 2 + v {
            assert(rows[j] == vr[j - 2]);
        } else if 3 + v <= j < 3 + v + b {
            assert(rows[j] == br[j - 3 - v]);
        } else if 4 + v + b <= j {
            assert(rows[j] == ar[j - 4 - v - b]);
        }
    }
}

proof fn lemma_parent_before(rows: Seq<Row>, k: int)
    ensures
        parent_video(rows, k) matches Some(p) ==> 0 <= p < k,
    decreases k,
{
    if 0 < k <= rows.len() && !is_entry_video(rows, k - 1) {
        lemma_parent_before(rows, k - 1);
    }
}

proof fn lemma_run_end_after(rows: Seq<Row>, k: int)
    requires
        0 <= k < rows.len(),
        rows[k].depth >= 3,
    ensures
        proxy_run_end(rows, k) > k,
    decreases rows.len() - k,
{
    assert(proxy_run_end(rows, k) == proxy_run_end(rows, k + 1));
    if k + 1 < rows.len() && rows[k + 1].depth >= 3 {
        lemma_run_end_after(rows, k + 1);
    } else if k + 1 < rows.len() {
        assert(proxy_run_end(rows, k + 1) == k + 1);
    } else {
        assert(proxy_run_end(rows, k + 1) == rows.len());
    }
}

proof fn lemma_sibling_count_grows(rows: Seq<Row>, index: int, k: int, m: int)
    requires
        0 <= k <= m <= rows.len(),
    ensures
        sibling_count(rows, index, k) <= sibling_count(rows, index, m),
    decreases m - k,
{
    if k < m {
        lemma_sibling_count_grows(rows, index, k, m - 1);
    }
}

proof fn lemma_row_position_finds(rows: Seq<Row>, id: RowId, k: int)
    requires
        0 <= k,
    ensures
        row_position(rows, id, k) matches Some(i) ==> k <= i < rows.len() && rows[i].id == id,
        row_position(rows, id, k) is None ==> forall|j: int| k <= j < rows.len() ==> (#[trigger] rows[j]).id != id,
    decreases rows.len() - k,
{
    if k < rows.len() && rows[k].id != id {
        lemma_row_position_finds(rows, id, k + 1);
    }
}

/// The set metrics of a row, among rows whose videos are entries or
/// proxies: none exactly when no row has that identifier; otherwise a
/// 1-based position that is at most the number of its siblings, the row
/// counting among them.
pub proof fn lemma_set_metrics_bounds(rows: Seq<Row>, id: RowId)
    requires
        forall|j: int|
            0 <= j < rows.len() && (#[trigger] rows[j]).id is Video ==> 2 <= rows[j].depth <= 3,
    ensures
        set_metrics_spec(rows, id) is None <==> forall|j: int| 0 <= j < rows.len() ==> (#[trigger] rows[j]).id != id,
        set_metrics_spec(rows, id) matches Some((p, n)) ==> 1 <= p <= n,
{
    lemma_row_position_finds(rows, id, 0);
    if let Some(index) = row_position(rows, id, 0) {
        assert(rows[index].id == id);
        assert(is_sibling(rows, index, index)) by {
            if rows[index].id is Video && rows[index].depth == 3 {
                lemma_parent_before(rows, index);
                lemma_run_end_after(rows, index);
            }
        }
        assert(sibling_count(rows, index, index + 1) == sibling_count(rows, index, index) + 1);
        lemma_sibling_count_grows(rows, index, index + 1, rows.len() as int);
    }
}

/// The set metrics of a visible row of the tree: none exactly when the row
/// is not visible; otherwise a 1-based position that is at most the number
/// of its visible siblings.
pub proof fn lemma_flatten_set_metrics(
    videos: Seq<VideoData>,
    bands: Seq<BandData>,
    audios: Seq<AudioData>,
    expanded: ExpandedSet,
    id: RowId,
)
    ensures
        ({
            let rows = flatten_spec(videos, bands, audios, expanded);
            &&& set_metrics_spec(rows, id) is None <==> forall|j: int|
                0 <= j < rows.len() ==> (#[trigger] rows[j]).id != id
            &&& set_metrics_spec(rows, id) matches Some((p, n)) ==> 1 <= p <= n
        }),
{
    let rows = flatten_spec(videos, bands, audios, expanded);
    lemma_flatten_layout(videos, bands, audios, expanded);
    let v: int = if expanded.videos {
        video_rows(videos, videos.len() as int).len() as int
    } else {
        0
    };
    let b: int = if expanded.bands {
        bands.len() as int
    } else {
        0
    };
    assert forall|j: int| 0 <= j < rows.len() && (#[trigger] rows[j]).id is Video implies 2
        <= rows[j].depth <= 3 by {
        if 3 + v <= j < 3 + v + b {
            assert(rows[3 + v + (j - 3 - v)] == rows[j]);
        } else if 4 + v + b <= j {
            assert(rows[4 + v + b + (j - 4 - v - b)] == rows[j]);
        }
    }
    lemma_set_metrics_bounds(rows, id);
}

} // verus!
