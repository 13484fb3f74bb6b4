//! Immutable snapshot of everything the file tree needs to render.

use vstd::prelude::*;

use crate::i18n::{msg_text, t, Msg};
use crate::project::{
    language_index, opt_view, Language, MediaAudio, MediaId, MediaVideo, Project,
    SyllableLanguage,
};
use crate::text::{owned, push_str};

use super::rows::{AudioRowId, GroupKind};

verus! {

/// Display model for one audio entry in the Audios group.
#[derive(Clone, Debug, PartialEq)]
pub struct AudioData {
    pub id: AudioRowId,
    pub name: String,
    /// None for the virtual "original video audio" line (never stored).
    pub media_id: Option<MediaId>,
    /// File path (empty for the virtual original-video row).
    pub path: String,
    /// Names of the rythmo bands using this audio as their instrumental.
    pub instrumental_of: Vec<String>,
    /// Pre-rendered right-hand badge ("Instrumental : X, Y").
    pub instrumental_badge: String,
}

/// Display model for one video entry (top-level or proxy child).
#[derive(Clone, Debug, PartialEq)]
pub struct VideoData {
    pub id: MediaId,
    pub name: String,
    pub path: String,
    /// Some(source) => this video is the proxy of `source`.
    pub proxy_of: Option<MediaId>,
    pub generated: bool,
    /// This video is the one currently loaded for playback.
    pub active: bool,
    /// This video is the project default.
    pub default: bool,
    /// The file is missing on disk (warning style).
    pub missing: bool,
    /// True when this video is the default (alias for `default`).
    pub is_default: bool,
    /// True when another video is a proxy of this one.
    pub is_proxy_source: bool,
}

/// Display model for one rythmo band entry.
#[derive(Clone, Debug, PartialEq)]
pub struct BandData {
    pub id: u64,
    pub name: String,
    /// Currently selected band.
    pub active: bool,
    pub syllable_language: SyllableLanguage,
    pub instrumental_audio_path: Option<String>,
}

#[derive(Clone, Debug, Default, PartialEq)]
pub struct FileTreeData {
    /// Project root label (`.coquerythmo` stem, fallback i18n "Sans titre").
    pub root_name: String,
    pub videos: Vec<VideoData>,
    pub audios: Vec<AudioData>,
    pub bands: Vec<BandData>,
    /// Whether the video preview currently shows a proxy.
    pub active_proxy: bool,
}

/// Name for what comparing two paths with std's `Path` equality yields:
/// equality of their components (so separators and `.` segments are
/// normalised as std does).
pub uninterp spec fn path_components_equal(a: Seq<char>, b: Seq<char>) -> bool;

/// std's `Path::new(a) == Path::new(b)`. The result depends on the two texts
/// alone; identical texts compare equal since `Path`'s equality is an
/// equivalence. How components are split is not restated here.
#[verifier::external_body]
fn std_path_eq(a: &str, b: &str) -> (r: bool)
    ensures
        r == path_components_equal(a@, b@),
        a@ == b@ ==> r,
{
    std::path::Path::new(a) == std::path::Path::new(b)
}

/// Whether two paths name the same file path (component-wise).
pub fn paths_equal(a: &str, b: &str) -> (r: bool)
    ensures
        r == path_components_equal(a@, b@),
        a@ == b@ ==> r,
{
    std_path_eq(a, b)
}

/// Instrumental path of the band with identifier `id` (first such band).
pub open spec fn band_instrumental(languages: Seq<Language>, id: u64) -> Option<Seq<char>> {
    match language_index(languages, id) {
        Some(i) => opt_view(languages[i].instrumental_audio_path),
        None => None,
    }
}

/// Names of the bands among `languages[0..k]` whose instrumental is at
/// `audio_path`.
pub open spec fn owners_spec(languages: Seq<Language>, audio_path: Seq<char>, k: int) -> Seq<
    Seq<char>,
>
    decreases k,
{
    if k <= 0 || k > languages.len() {
        Seq::empty()
    } else {
        let rest = owners_spec(languages, audio_path, k - 1);
        match band_instrumental(languages, languages[k - 1].id) {
            Some(path) => if path_components_equal(path, audio_path) {
                rest.push(languages[k - 1].name@)
            } else {
                rest
            },
            None => rest,
        }
    }
}

/// `list` joined by `sep`.
pub open spec fn join_spec(list: Seq<Seq<char>>, sep: Seq<char>) -> Seq<char>
    decreases list.len(),
{
    if list.len() == 0 {
        Seq::empty()
    } else if list.len() == 1 {
        list[0]
    } else {
        join_spec(list.drop_last(), sep) + sep + list.last()
    }
}

/// The badge listing the bands that use an audio as instrumental.
pub open spec fn badge_spec(owners: Seq<Seq<char>>) -> Seq<char> {
    if owners.len() == 0 {
        Seq::empty()
    } else {
        msg_text(Msg::FileTreeInstrumentalOf) + ": "@ + join_spec(owners, ", "@)
    }
}

/// Whether `videos` holds a proxy of video `id`.
pub open spec fn has_proxy(videos: Seq<MediaVideo>, id: MediaId) -> bool {
    exists|j: int| 0 <= j < videos.len() && #[trigger] videos[j].proxy_of == Some(id)
}

/// The path whose row is marked active: the loaded proxy, else the source.
pub open spec fn current_path(source: Option<&str>, proxy: Option<&str>) -> Option<Seq<char>> {
    match proxy {
        Some(p) => Some(p@),
        None => match source {
            Some(s) => Some(s@),
            None => None,
        },
    }
}

/// The row of library video `video`, whose file is on disk or not as
/// `on_disk` says.
pub open spec fn video_row_matches(
    row: VideoData,
    video: MediaVideo,
    videos: Seq<MediaVideo>,
    default_video: Option<MediaId>,
    current: Option<Seq<char>>,
    on_disk: bool,
) -> bool {
    &&& row.id == video.id
    &&& row.name@ == video.name@
    &&& row.path@ == video.path@
    &&& row.proxy_of == video.proxy_of
    &&& row.generated == video.generated
    &&& row.active == match current {
        Some(p) => path_components_equal(p, video.path@),
        None => false,
    }
    &&& row.default == (default_video == Some(video.id))
    &&& row.is_default == (default_video == Some(video.id))
    &&& row.is_proxy_source == has_proxy(videos, video.id)
    &&& row.missing == !on_disk
}

/// The row of library audio `audio`.
pub open spec fn audio_row_matches(row: AudioData, audio: MediaAudio, languages: Seq<Language>) -> bool {
    let owners = owners_spec(languages, audio.path@, languages.len() as int);
    &&& row.id == AudioRowId::Media(audio.id)
    &&& row.name@ == audio.name@
    &&& row.media_id == Some(audio.id)
    &&& row.path@ == audio.path@
    &&& row.instrumental_of@.len() == owners.len()
    &&& forall|i: int| 0 <= i < owners.len() ==> #[trigger] row.instrumental_of@[i]@ == owners[i]
    &&& row.instrumental_badge@ == badge_spec(owners)
}

/// The virtual "audio of the original video" row.
pub open spec fn is_original_audio_row(row: AudioData) -> bool {
    &&& row.id == AudioRowId::OriginalVideo
    &&& row.name@ == Seq::<char>::empty()
    &&& row.media_id is None
    &&& row.path@ == Seq::<char>::empty()
    &&& row.instrumental_of@.len() == 0
    &&& row.instrumental_badge@ == Seq::<char>::empty()
}

/// The row of band `language`.
pub open spec fn band_row_matches(row: BandData, language: Language, languages: Seq<Language>, active: u64) -> bool {
    &&& row.id == language.id
    &&& row.name@ == language.name@
    &&& row.active == (language.id == active)
    &&& row.syllable_language == match language_index(languages, language.id) {
        Some(i) => languages[i].syllable_language,
        None => SyllableLanguage::French,
    }
    &&& opt_view(row.instrumental_audio_path) == band_instrumental(languages, language.id)
}

pub(crate) fn join_strings(list: &Vec<String>, sep: &str) -> (r: String)
    ensures
        r@ == join_spec(Seq::new(list@.len(), |i: int| list@[i]@), sep@),
{
    let ghost views = Seq::new(list@.len(), |i: int| list@[i]@);
    let mut out = String::new();
    let mut i: usize = 0;
    while i < list.len()
        invariant
            i <= list@.len(),
            views == Seq::new(list@.len(), |i: int| list@[i]@),
            out@ == join_spec(views.subrange(0, i as int), sep@),
        decreases list@.len() - i,
    {
        let ghost before = views.subrange(0, i as int);
        if i > 0 {
            push_str(&mut out, sep);
        }
        push_str(&mut out, list[i].as_str());
        i = i + 1;
        proof {
            let now = views.subrange(0, i as int);
            assert(now.drop_last() =~= before);
            if i == 1 {
                assert(before =~= Seq::<Seq<char>>::empty());
                assert(out@ =~= now[0]);
            }
        }
    }
    assert(views.subrange(0, list@.len() as int) =~= views);
    out
}

/// Every band whose instrumental path is, letter for letter, `audio_path`
/// is among its owners.
pub open spec fn lists_same_text_owners(languages: Seq<Language>, audio_path: Seq<char>) -> bool {
    forall|k: int|
        0 <= k < languages.len() && #[trigger] band_instrumental(languages, languages[k].id) == Some(
            audio_path,
        ) ==> owners_spec(languages, audio_path, languages.len() as int).contains(languages[k].name@)
}

proof fn lemma_owner_listed(languages: Seq<Language>, a: Seq<char>, k: int, j: int)
    requires
        0 <= k < j <= languages.len(),
        band_instrumental(languages, languages[k].id) == Some(a),
        path_components_equal(a, a),
    ensures
        owners_spec(languages, a, j).contains(languages[k].name@),
    decreases j,
{
    let prev = owners_spec(languages, a, j - 1);
    if k < j - 1 {
        lemma_owner_listed(languages, a, k, j - 1);
        let w = choose|w: int| 0 <= w < prev.len() && prev[w] == languages[k].name@;
        let next = owners_spec(languages, a, j);
        if next != prev {
            assert(next == prev.push(languages[j - 1].name@));
            assert(next[w] == prev[w]);
        }
    } else {
        assert(owners_spec(languages, a, j) == prev.push(languages[k].name@));
        assert(owners_spec(languages, a, j)[prev.len() as int] == languages[k].name@);
    }
}

proof fn lemma_same_text_owners(languages: Seq<Language>, a: Seq<char>)
    requires
        forall|k: int|
            0 <= k < languages.len() && #[trigger] band_instrumental(languages, languages[k].id) == Some(a)
                ==> path_components_equal(a, a),
    ensures
        lists_same_text_owners(languages, a),
{
    assert forall|k: int|
        0 <= k < languages.len() && #[trigger] band_instrumental(languages, languages[k].id) == Some(a)
            implies owners_spec(languages, a, languages.len() as int).contains(languages[k].name@) by {
        lemma_owner_listed(languages, a, k, languages.len() as int);
    }
}

fn instrumental_of_audio(project: &Project, languages: &Vec<Language>, audio_path: &str) -> (r: Vec<
    String,
>)
    requires
        languages@.len() == project@.languages.len(),
        forall|i: int|
            #![trigger languages@[i]]
            0 <= i < languages@.len() ==> languages@[i].id == project@.languages[i].id
                && languages@[i].name@ == project@.languages[i].name@,
    ensures
        ({
            let owners = owners_spec(project@.languages, audio_path@, project@.languages.len() as int);
            &&& r@.len() == owners.len()
            &&& forall|i: int| 0 <= i < owners.len() ==> #[trigger] r@[i]@ == owners[i]
        }),
        forall|k: int|
            0 <= k < project@.languages.len() && #[trigger] band_instrumental(
                project@.languages,
                project@.languages[k].id,
            ) == Some(audio_path@) ==> path_components_equal(audio_path@, audio_path@),
{
    let ghost langs = project@.languages;
    let ghost mut seen: bool = false;
    let mut out: Vec<String> = Vec::new();
    let mut i: usize = 0;
    while i < languages.len()
        invariant
            i <= languages@.len(),
            langs == project@.languages,
            languages@.len() == langs.len(),
            forall|k: int|
                #![trigger languages@[k]]
                0 <= k < languages@.len() ==> languages@[k].id == langs[k].id && languages@[k].name@
                    == langs[k].name@,
            out@.len() == owners_spec(langs, audio_path@, i as int).len(),
            forall|k: int|
                0 <= k < out@.len() ==> #[trigger] out@[k]@ == owners_spec(
                    langs,
                    audio_path@,
                    i as int,
                )[k],
            seen ==> path_components_equal(audio_path@, audio_path@),
            forall|k: int|
                0 <= k < i && #[trigger] band_instrumental(langs, langs[k].id) == Some(audio_path@)
                    ==> seen,
        decreases languages@.len() - i,
    {
        let language = &languages[i];
        let path = project.language_instrumental_audio_path(language.id);
        assert(languages@[i as int].id == langs[i as int].id);
        match path {
            Some(p) => {
                let same = paths_equal(p.as_str(), audio_path);
                proof {
                    if p@ == audio_path@ {
                        seen = true;
                    }
                }
                if same {
                    out.push(language.name.clone());
                }
            },
            None => {},
        }
        i = i + 1;
    }
    out
}

fn badge_for(owners: &Vec<String>) -> (r: String)
    ensures
        r@ == badge_spec(Seq::new(owners@.len(), |i: int| owners@[i]@)),
{
    if owners.len() == 0 {
        return String::new();
    }
    let mut badge = owned(t(Msg::FileTreeInstrumentalOf));
    push_str(&mut badge, ": ");
    let joined = join_strings(owners, ", ");
    push_str(&mut badge, joined.as_str());
    badge
}

fn any_proxy_of(videos: &Vec<MediaVideo>, id: MediaId) -> (r: bool)
    ensures
        r == has_proxy(videos@, id),
{
    let mut j: usize = 0;
    while j < videos.len()
        invariant
            j <= videos@.len(),
            forall|k: int| 0 <= k < j ==> videos@[k].proxy_of != Some(id),
        decreases videos@.len() - j,
    {
        if videos[j].proxy_of == Some(id) {
            return true;
        }
        j = j + 1;
    }
    false
}

impl FileTreeData {
    /// Build the immutable snapshot from a project plus session state.
    ///
    /// `source_path`/`proxy_path` describe the currently loaded video (the
    /// active row is matched by path), `default_video` is the library default.
    /// `video_on_disk[i]` says whether the file of the library's `i`-th video
    /// exists; a video whose file does not is marked missing.
    pub fn from_project(
        project: &Project,
        root_name: &str,
        source_path: Option<&str>,
        proxy_path: Option<&str>,
        video_on_disk: &Vec<bool>,
    ) -> (r: Self)
        requires
            video_on_disk@.len() == project@.videos.len(),
        ensures
            r.root_name@ == root_name@,
            r.active_proxy == proxy_path is Some,
            r.videos@.len() == project@.videos.len(),
            forall|i: int|
                0 <= i < r.videos@.len() ==> video_row_matches(
                    #[trigger] r.videos@[i],
                    project@.videos[i],
                    project@.videos,
                    project@.default_video,
                    current_path(source_path, proxy_path),
                    video_on_disk@[i],
                ),
            ({
                let shift: int = if source_path is Some || proxy_path is Some {
                    1
                } else {
                    0
                };
                &&& r.audios@.len() == project@.audios.len() + shift
                &&& shift == 1 ==> is_original_audio_row(r.audios@[0])
                &&& forall|i: int|
                    #![trigger project@.audios[i]]
                    #![trigger r.audios@[i + shift]]
                    0 <= i < project@.audios.len() ==> audio_row_matches(
                        r.audios@[i + shift],
                        project@.audios[i],
                        project@.languages,
                    )
            }),
            forall|i: int|
                0 <= i < r.videos@.len() && current_path(source_path, proxy_path) == Some(
                    project@.videos[i].path@,
                ) ==> (#[trigger] r.videos@[i]).active,
            forall|i: int|
                0 <= i < project@.audios.len() ==> #[trigger] lists_same_text_owners(
                    project@.languages,
                    project@.audios[i].path@,
                ),
            r.bands@.len() == project@.languages.len(),
            forall|i: int|
                0 <= i < r.bands@.len() ==> band_row_matches(
                    #[trigger] r.bands@[i],
                    project@.languages[i],
                    project@.languages,
                    project@.active_language_id,
                ),
    {
        let library = project.media_library();
        let default_video = library.default_video;
        let current: Option<&str> = match proxy_path {
            Some(p) => Some(p),
            None => source_path,
        };

        let mut videos: Vec<VideoData> = Vec::new();
        let mut i: usize = 0;
        while i < library.videos.len()
            invariant
                i <= library.videos@.len(),
                library.videos@ == project@.videos,
                video_on_disk@.len() == project@.videos.len(),
                default_video == project@.default_video,
                match current {
                    Some(c) => current_path(source_path, proxy_path) == Some(c@),
                    None => current_path(source_path, proxy_path) is None,
                },
                videos@.len() == i,
                forall|k: int|
                    0 <= k < i ==> video_row_matches(
                        #[trigger] videos@[k],
                        project@.videos[k],
                        project@.videos,
                        project@.default_video,
                        current_path(source_path, proxy_path),
                        video_on_disk@[k],
                    ),
                forall|k: int|
                    0 <= k < i && current_path(source_path, proxy_path) == Some(
                        project@.videos[k].path@,
                    ) ==> (#[trigger] videos@[k]).active,
            decreases library.videos@.len() - i,
        {
            let video = &library.videos[i];
            let path = video.path.as_str();
            let active = match current {
                Some(c) => paths_equal(c, path),
                None => false,
            };
            let is_default = match default_video {
                Some(d) => d == video.id,
                None => false,
            };
            videos.push(
                VideoData {
                    id: video.id,
                    name: video.name.clone(),
                    path: video.path.clone(),
                    proxy_of: video.proxy_of,
                    generated: video.generated,
                    active,
                    default: is_default,
                    missing: !video_on_disk[i],
                    is_default,
                    is_proxy_source: any_proxy_of(&library.videos, video.id),
                },
            );
            i = i + 1;
        }

        let languages = project.languages();
        let show_original = source_path.is_some() || proxy_path.is_some();
        let mut audios: Vec<AudioData> = Vec::new();
        if show_original {
            audios.push(
                AudioData {
                    id: AudioRowId::OriginalVideo,
                    name: String::new(),
                    media_id: None,
                    path: String::new(),
                    instrumental_of: Vec::new(),
                    instrumental_badge: String::new(),
                },
            );
        }
        let ghost shift: int = if show_original {
            1
        } else {
            0
        };
        let mut a: usize = 0;
        while a < library.audios.len()
            invariant
                a <= library.audios@.len(),
                library.audios@ == project@.audios,
                audios@.len() == a + shift,
                shift == 0 || shift == 1,
                shift == 1 ==> is_original_audio_row(audios@[0]),
                languages@.len() == project@.languages.len(),
                forall|k: int|
                    #![trigger languages@[k]]
                    0 <= k < languages@.len() ==> languages@[k].id == project@.languages[k].id
                        && languages@[k].name@ == project@.languages[k].name@,
                forall|k: int|
                    0 <= k < a ==> audio_row_matches(
                        #[trigger] audios@[k + shift],
                        project@.audios[k],
                        project@.languages,
                    ),
                forall|k: int|
                    0 <= k < a ==> #[trigger] lists_same_text_owners(
                        project@.languages,
                        project@.audios[k].path@,
                    ),
            decreases library.audios@.len() - a,
        {
            let audio = &library.audios[a];
            let ghost prev = audios@;
            let instrumental_of = instrumental_of_audio(project, &languages, audio.path.as_str());
            proof {
                lemma_same_text_owners(project@.languages, audio.path@);
            }
            let instrumental_badge = badge_for(&instrumental_of);
            proof {
                let owners = owners_spec(
                    project@.languages,
                    audio.path@,
                    project@.languages.len() as int,
                );
                assert(Seq::new(instrumental_of@.len(), |i: int| instrumental_of@[i]@) =~= owners);
            }
            audios.push(
                AudioData {
                    id: AudioRowId::Media(audio.id),
                    name: audio.name.clone(),
                    media_id: Some(audio.id),
                    path: audio.path.clone(),
                    instrumental_of,
                    instrumental_badge,
                },
            );
            proof {
                assert forall|k: int| 0 <= k < a + 1 implies audio_row_matches(
                    #[trigger] audios@[k + shift],
                    project@.audios[k],
                    project@.languages,
                ) by {
                    if k < a {
                        assert(audios@[k + shift] == prev[k + shift]);
                    }
                }
            }
            a = a + 1;
        }

        let mut bands: Vec<BandData> = Vec::new();
        let active_id = project.active_language_id();
        let mut b: usize = 0;
        while b < languages.len()
            invariant
                b <= languages@.len(),
                languages@.len() == project@.languages.len(),
                active_id == project@.active_language_id,
                forall|k: int|
                    #![trigger languages@[k]]
                    0 <= k < languages@.len() ==> languages@[k].id == project@.languages[k].id
                        && languages@[k].name@ == project@.languages[k].name@,
                bands@.len() == b,
                forall|k: int|
                    0 <= k < b ==> band_row_matches(
                        #[trigger] bands@[k],
                        project@.languages[k],
                        project@.languages,
                        project@.active_language_id,
                    ),
            decreases languages@.len() - b,
        {
            let language = &languages[b];
            let id = language.id;
            let syllable = match project.language_syllable_language(id) {
                Some(s) => s,
                None => SyllableLanguage::French,
            };
            bands.push(
                BandData {
                    id,
                    name: language.name.clone(),
                    active: id == active_id,
                    syllable_language: syllable,
                    instrumental_audio_path: project.language_instrumental_audio_path(id),
                },
            );
            assert(languages@[b as int].id == project@.languages[b as int].id);
            b = b + 1;
        }

        FileTreeData {
            root_name: owned(root_name),
            videos,
            audios,
            bands,
            active_proxy: proxy_path.is_some(),
        }
    }

    /// Names of bands whose instrumental matches `path`.
    pub fn instrumental_owners(&self, path: &str) -> (r: Vec<&str>)
        ensures
            r@.len() == band_owner_names(self.bands@, path@, self.bands@.len() as int).len(),
            forall|i: int|
                0 <= i < r@.len() ==> #[trigger] r@[i]@ == band_owner_names(
                    self.bands@,
                    path@,
                    self.bands@.len() as int,
                )[i],
    {
        let mut out: Vec<&str> = Vec::new();
        let mut i: usize = 0;
        while i < self.bands.len()
            invariant
                i <= self.bands@.len(),
                out@.len() == band_owner_names(self.bands@, path@, i as int).len(),
                forall|k: int|
                    0 <= k < out@.len() ==> #[trigger] out@[k]@ == band_owner_names(
                        self.bands@,
                        path@,
                        i as int,
                    )[k],
            decreases self.bands@.len() - i,
        {
            let band = &self.bands[i];
            match &band.instrumental_audio_path {
                Some(p) => {
                    if paths_equal(p.as_str(), path) {
                        out.push(band.name.as_str());
                    }
                },
                None => {},
            }
            i = i + 1;
        }
        out
    }

    /// The first video row with identifier `id`.
    pub fn video(&self, id: MediaId) -> (r: Option<&VideoData>)
        ensures
            match r {
                Some(v) => video_index(self.videos@, id, 0) matches Some(i) && 0 <= i
                    < self.videos@.len() && self.videos@[i] == *v,
                None => video_index(self.videos@, id, 0) is None,
            },
    {
        proof {
            lemma_video_index(self.videos@, id, 0);
        }
        let mut i: usize = 0;
        while i < self.videos.len()
            invariant
                i <= self.videos@.len(),
                video_index(self.videos@, id, 0) == video_index(self.videos@, id, i as int),
            decreases self.videos@.len() - i,
        {
            if self.videos[i].id == id {
                return Some(&self.videos[i]);
            }
            i = i + 1;
        }
        None
    }

    /// The first audio row with identifier `id`.
    pub fn audio(&self, id: AudioRowId) -> (r: Option<&AudioData>)
        ensures
            match r {
                Some(a) => audio_index(self.audios@, id, 0) matches Some(i) && 0 <= i
                    < self.audios@.len() && self.audios@[i] == *a,
                None => audio_index(self.audios@, id, 0) is None,
            },
    {
        let mut i: usize = 0;
        while i < self.audios.len()
            invariant
                i <= self.audios@.len(),
                audio_index(self.audios@, id, 0) == audio_index(self.audios@, id, i as int),
            decreases self.audios@.len() - i,
        {
            if self.audios[i].id == id {
                return Some(&self.audios[i]);
            }
            i = i + 1;
        }
        None
    }

    /// Whether group `group` has nothing to list (the virtual original-audio
    /// row does not count).
    pub fn group_is_empty(&self, group: GroupKind) -> (r: bool)
        ensures
            r == match group {
                GroupKind::Videos => self.videos@.len() == 0,
                GroupKind::Bands => self.bands@.len() == 0,
                GroupKind::Audios => forall|i: int|
                    0 <= i < self.audios@.len() ==> (#[trigger] self.audios@[i]).media_id is None,
            },
    {
        match group {
            GroupKind::Videos => self.videos.len() == 0,
            GroupKind::Bands => self.bands.len() == 0,
            GroupKind::Audios => {
                let mut i: usize = 0;
                while i < self.audios.len()
                    invariant
                        group == GroupKind::Audios,
                        i <= self.audios@.len(),
                        forall|j: int| 0 <= j < i ==> (#[trigger] self.audios@[j]).media_id is None,
                    decreases self.audios@.len() - i,
                {
                    if self.audios[i].media_id.is_some() {
                        return false;
                    }
                    i = i + 1;
                }
                true
            },
        }
    }

    /// A source/proxy association must not create a proxy chain.
    pub fn can_be_proxy_endpoint(&self, id: MediaId) -> (r: bool)
        ensures
            r == can_be_proxy_endpoint_spec(self.videos@, id),
    {
        match self.video(id) {
            Some(video) => video.proxy_of.is_none() && !video.is_proxy_source,
            None => false,
        }
    }
}

/// Whether the first video row with identifier `id` exists, is not a proxy
/// and has no proxy.
pub open spec fn can_be_proxy_endpoint_spec(videos: Seq<VideoData>, id: MediaId) -> bool {
    match video_index(videos, id, 0) {
        Some(i) => videos[i].proxy_of is None && !videos[i].is_proxy_source,
        None => false,
    }
}

/// Index of the first video row with identifier `id` at or after `k`.
pub open spec fn video_index(videos: Seq<VideoData>, id: MediaId, k: int) -> Option<int>
    decreases videos.len() - k,
{
    if k < 0 || k >= videos.len() {
        None
    } else if videos[k].id == id {
        Some(k)
    } else {
        video_index(videos, id, k + 1)
    }
}

pub proof fn lemma_video_index(videos: Seq<VideoData>, id: MediaId, k: int)
    ensures
        video_index(videos, id, k) matches Some(i) ==> k <= i < videos.len() && videos[i].id == id,
    decreases videos.len() - k,
{
    if 0 <= k < videos.len() && videos[k].id != id {
        lemma_video_index(videos, id, k + 1);
    }
}

/// Index of the first audio row with identifier `id` at or after `k`.
pub open spec fn audio_index(audios: Seq<AudioData>, id: AudioRowId, k: int) -> Option<int>
    decreases audios.len() - k,
{
    if k < 0 || k >= audios.len() {
        None
    } else if audios[k].id == id {
        Some(k)
    } else {
        audio_index(audios, id, k + 1)
    }
}

/// Index of the first band row with identifier `id` at or after `k`.
pub open spec fn band_index(bands: Seq<BandData>, id: u64, k: int) -> Option<int>
    decreases bands.len() - k,
{
    if k < 0 || k >= bands.len() {
        None
    } else if bands[k].id == id {
        Some(k)
    } else {
        band_index(bands, id, k + 1)
    }
}

pub proof fn lemma_band_index(bands: Seq<BandData>, id: u64, k: int)
    ensures
        band_index(bands, id, k) matches Some(i) ==> k <= i < bands.len() && bands[i].id == id,
    decreases bands.len() - k,
{
    if 0 <= k < bands.len() && bands[k].id != id {
        lemma_band_index(bands, id, k + 1);
    }
}

/// Names of the bands among `bands[0..k]` whose instrumental is at `path`.
pub open spec fn band_owner_names(bands: Seq<BandData>, path: Seq<char>, k: int) -> Seq<Seq<char>>
    decreases k,
{
    if k <= 0 || k > bands.len() {
        Seq::empty()
    } else {
        let rest = band_owner_names(bands, path, k - 1);
        match bands[k - 1].instrumental_audio_path {
            Some(p) => if path_components_equal(p@, path) {
                rest.push(bands[k - 1].name@)
            } else {
                rest
            },
            None => rest,
        }
    }
}

} // verus!
