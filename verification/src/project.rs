//! The project's media library and rythmo bands (languages), as far as the
//! interface reads and edits them.

use vstd::prelude::*;

use crate::text::owned;

verus! {

/// Identifier of a video or audio of the media library.
pub type MediaId = u64;

/// Language used to cut a rythmo band's text into syllables.
#[derive(Clone, Copy, Debug, PartialEq, Eq, Hash, Structural)]
pub enum SyllableLanguage {
    French,
    English,
    Spanish,
}

/// The next syllable language, in the order French, English, Spanish and
/// back to French.
pub open spec fn next_syllable_language(l: SyllableLanguage) -> SyllableLanguage {
    match l {
        SyllableLanguage::French => SyllableLanguage::English,
        SyllableLanguage::English => SyllableLanguage::Spanish,
        SyllableLanguage::Spanish => SyllableLanguage::French,
    }
}

impl SyllableLanguage {
    /// The next syllable language, in the order French, English, Spanish
    /// and back to French.
    pub fn toggled(self) -> (r: Self)
        ensures
            r == next_syllable_language(self),
    {
        match self {
            SyllableLanguage::French => SyllableLanguage::English,
            SyllableLanguage::English => SyllableLanguage::Spanish,
            SyllableLanguage::Spanish => SyllableLanguage::French,
        }
    }
}

impl Default for SyllableLanguage {
    fn default() -> (r: Self)
        ensures
            r == SyllableLanguage::French,
    {
        SyllableLanguage::French
    }
}

/// A video of the media library; `proxy_of` names the source video it
/// stands in for.
#[derive(Clone, Debug, PartialEq)]
pub struct MediaVideo {
    pub id: MediaId,
    pub name: String,
    pub path: String,
    pub proxy_of: Option<MediaId>,
    pub generated: bool,
}

/// An audio file of the media library.
#[derive(Clone, Debug, PartialEq)]
pub struct MediaAudio {
    pub id: MediaId,
    pub name: String,
    pub path: String,
}

/// Videos and audios of a project.
#[derive(Clone, Debug, PartialEq)]
pub struct MediaLibrary {
    pub videos: Vec<MediaVideo>,
    pub audios: Vec<MediaAudio>,
    pub default_video: Option<MediaId>,
}

/// A rythmo band of the project.
#[derive(Clone, Debug, PartialEq)]
pub struct Language {
    pub id: u64,
    pub name: String,
    pub syllable_language: SyllableLanguage,
    pub instrumental_audio_path: Option<String>,
}

/// Why an edit of the project was refused.
#[derive(Clone, Copy, Debug, PartialEq, Eq, Structural)]
pub enum ProjectError {
    /// The named video is not in the library.
    UnknownVideo,
    /// Every identifier has been handed out.
    IdsExhausted,
}

/// The text of an optional string.
pub open spec fn opt_view(o: Option<String>) -> Option<Seq<char>> {
    match o {
        Some(s) => Some(s@),
        None => None,
    }
}

/// Abstract state of a project.
pub struct ProjectView {
    pub videos: Seq<MediaVideo>,
    pub audios: Seq<MediaAudio>,
    pub default_video: Option<MediaId>,
    pub languages: Seq<Language>,
    pub active_language_id: u64,
    pub next_media_id: u64,
    pub next_language_id: u64,
}

/// A project: media library plus rythmo bands.
#[derive(Clone, Debug)]
pub struct Project {
    library: MediaLibrary,
    languages: Vec<Language>,
    active_language_id: u64,
    next_media_id: u64,
    next_language_id: u64,
}

impl View for Project {
    type V = ProjectView;

    closed spec fn view(&self) -> ProjectView {
        ProjectView {
            videos: self.library.videos@,
            audios: self.library.audios@,
            default_video: self.library.default_video,
            languages: self.languages@,
            active_language_id: self.active_language_id,
            next_media_id: self.next_media_id,
            next_language_id: self.next_language_id,
        }
    }
}

/// Whether a video with identifier `id` is in `videos`.
pub open spec fn has_video(videos: Seq<MediaVideo>, id: MediaId) -> bool {
    exists|i: int| 0 <= i < videos.len() && #[trigger] videos[i].id == id
}

/// Index of the first band with identifier `id`.
pub open spec fn language_index(languages: Seq<Language>, id: u64) -> Option<int>
    decreases languages.len(),
{
    if languages.len() == 0 {
        None
    } else if languages[0].id == id {
        Some(0)
    } else {
        match language_index(languages.drop_first(), id) {
            Some(i) => Some(i + 1),
            None => None,
        }
    }
}

proof fn lemma_language_index(languages: Seq<Language>, id: u64)
    ensures
        match language_index(languages, id) {
            Some(i) => 0 <= i < languages.len() && languages[i].id == id && forall|j: int|
                0 <= j < i ==> languages[j].id != id,
            None => forall|j: int| 0 <= j < languages.len() ==> languages[j].id != id,
        },
    decreases languages.len(),
{
    if languages.len() > 0 && languages[0].id != id {
        lemma_language_index(languages.drop_first(), id);
        let rest = languages.drop_first();
        assert forall|j: int| 1 <= j < languages.len() implies languages[j] == rest[j - 1] by {}
    }
}

fn copy_language(language: &Language) -> (r: Language)
    ensures
        r.id == language.id,
        r.name@ == language.name@,
        r.syllable_language == language.syllable_language,
        opt_view(r.instrumental_audio_path) == opt_view(language.instrumental_audio_path),
{
    Language {
        id: language.id,
        name: language.name.clone(),
        syllable_language: language.syllable_language,
        instrumental_audio_path: match &language.instrumental_audio_path {
            Some(path) => Some(path.clone()),
            None => None,
        },
    }
}

impl Project {
    /// A new project with no media and one French rythmo band.
    pub fn new() -> (r: Self)
        ensures
            r@.videos.len() == 0,
            r@.audios.len() == 0,
            r@.default_video is None,
            r@.languages.len() == 1,
            r@.languages[0].id == 1,
            r@.languages[0].name@ == "Français"@,
            r@.languages[0].syllable_language == SyllableLanguage::French,
            r@.languages[0].instrumental_audio_path is None,
            r@.active_language_id == 1,
            r@.next_media_id == 1,
            r@.next_language_id == 2,
    {
        let mut languages = Vec::new();
        languages.push(
            Language {
                id: 1,
                name: owned("Français"),
                syllable_language: SyllableLanguage::French,
                instrumental_audio_path: None,
            },
        );
        Project {
            library: MediaLibrary { videos: Vec::new(), audios: Vec::new(), default_video: None },
            languages,
            active_language_id: 1,
            next_media_id: 1,
            next_language_id: 2,
        }
    }

    /// The media library.
    pub fn media_library(&self) -> (r: &MediaLibrary)
        ensures
            r.videos@ == self@.videos,
            r.audios@ == self@.audios,
            r.default_video == self@.default_video,
    {
        &self.library
    }

    fn find_video(&self, id: MediaId) -> (r: bool)
        ensures
            r == has_video(self@.videos, id),
    {
        let mut i: usize = 0;
        while i < self.library.videos.len()
            invariant
                i <= self.library.videos@.len(),
                forall|j: int| 0 <= j < i ==> self.library.videos@[j].id != id,
            decreases self.library.videos@.len() - i,
        {
            if self.library.videos[i].id == id {
                return true;
            }
            i = i + 1;
        }
        false
    }

    /// Adds a video, as a proxy of `proxy_of` when given; refused when that
    /// source video is unknown or when identifiers are exhausted.
    pub fn add_media_video(
        &mut self,
        name: &str,
        path: &str,
        proxy_of: Option<MediaId>,
        generated: bool,
    ) -> (r: Result<MediaId, ProjectError>)
        ensures
            ({
                let unknown = proxy_of matches Some(source) && !has_video(old(self)@.videos, source);
                match r {
                    Err(e) => {
                        &&& final(self)@ == old(self)@
                        &&& e == if unknown {
                            ProjectError::UnknownVideo
                        } else {
                            ProjectError::IdsExhausted
                        }
                        &&& unknown || old(self)@.next_media_id == u64::MAX
                    },
                    Ok(id) => {
                        &&& !unknown
                        &&& old(self)@.next_media_id < u64::MAX
                        &&& id == old(self)@.next_media_id
                        &&& final(self)@.next_media_id == id + 1
                        &&& final(self)@.videos.len() == old(self)@.videos.len() + 1
                        &&& final(self)@.videos.drop_last() == old(self)@.videos
                        &&& final(self)@.videos.last().id == id
                        &&& final(self)@.videos.last().name@ == name@
                        &&& final(self)@.videos.last().path@ == path@
                        &&& final(self)@.videos.last().proxy_of == proxy_of
                        &&& final(self)@.videos.last().generated == generated
                        &&& final(self)@.audios == old(self)@.audios
                        &&& final(self)@.default_video == old(self)@.default_video
                        &&& final(self)@.languages == old(self)@.languages
                        &&& final(self)@.active_language_id == old(self)@.active_language_id
                        &&& final(self)@.next_language_id == old(self)@.next_language_id
                    },
                }
            }),
    {
        if let Some(source) = proxy_of {
            if !self.find_video(source) {
                return Err(ProjectError::UnknownVideo);
            }
        }
        if self.next_media_id == u64::MAX {
            return Err(ProjectError::IdsExhausted);
        }
        let id = self.next_media_id;
        self.next_media_id = id + 1;
        self.library.videos.push(
            MediaVideo { id, name: owned(name), path: owned(path), proxy_of, generated },
        );
        assert(self@.videos.drop_last() =~= old(self)@.videos);
        Ok(id)
    }

    /// Adds an audio; refused when identifiers are exhausted.
    pub fn add_media_audio(&mut self, name: &str, path: &str) -> (r: Result<MediaId, ProjectError>)
        ensures
            match r {
                Err(e) => final(self)@ == old(self)@ && e == ProjectError::IdsExhausted
                    && old(self)@.next_media_id == u64::MAX,
                Ok(id) => {
                    &&& old(self)@.next_media_id < u64::MAX
                    &&& id == old(self)@.next_media_id
                    &&& final(self)@.next_media_id == id + 1
                    &&& final(self)@.audios.len() == old(self)@.audios.len() + 1
                    &&& final(self)@.audios.drop_last() == old(self)@.audios
                    &&& final(self)@.audios.last().id == id
                    &&& final(self)@.audios.last().name@ == name@
                    &&& final(self)@.audios.last().path@ == path@
                    &&& final(self)@.videos == old(self)@.videos
                    &&& final(self)@.default_video == old(self)@.default_video
                    &&& final(self)@.languages == old(self)@.languages
                    &&& final(self)@.active_language_id == old(self)@.active_language_id
                    &&& final(self)@.next_language_id == old(self)@.next_language_id
                },
            },
    {
        if self.next_media_id == u64::MAX {
            return Err(ProjectError::IdsExhausted);
        }
        let id = self.next_media_id;
        self.next_media_id = id + 1;
        self.library.audios.push(MediaAudio { id, name: owned(name), path: owned(path) });
        assert(self@.audios.drop_last() =~= old(self)@.audios);
        Ok(id)
    }

    /// Sets (or clears) the default video; refused when the video is unknown.
    pub fn set_default_video(&mut self, id: Option<MediaId>) -> (r: Result<(), ProjectError>)
        ensures
            match id {
                Some(v) if !has_video(old(self)@.videos, v) => r == Err::<(), ProjectError>(
                    ProjectError::UnknownVideo,
                ) && final(self)@ == old(self)@,
                _ => r is Ok && final(self)@ == ProjectView { default_video: id, ..old(self)@ },
            },
    {
        if let Some(v) = id {
            if !self.find_video(v) {
                return Err(ProjectError::UnknownVideo);
            }
        }
        self.library.default_video = id;
        Ok(())
    }

    /// Identifier of the selected rythmo band.
    pub fn active_language_id(&self) -> (r: u64)
        ensures
            r == self@.active_language_id,
    {
        self.active_language_id
    }

    /// Adds a French rythmo band named `name` and returns its identifier.
    pub fn create_language_named(&mut self, name: &str) -> (r: u64)
        requires
            old(self)@.next_language_id < u64::MAX,
        ensures
            r == old(self)@.next_language_id,
            final(self)@.next_language_id == r + 1,
            final(self)@.languages.len() == old(self)@.languages.len() + 1,
            final(self)@.languages.drop_last() == old(self)@.languages,
            final(self)@.languages.last().id == r,
            final(self)@.languages.last().name@ == name@,
            final(self)@.languages.last().syllable_language == SyllableLanguage::French,
            final(self)@.languages.last().instrumental_audio_path is None,
            final(self)@.videos == old(self)@.videos,
            final(self)@.audios == old(self)@.audios,
            final(self)@.default_video == old(self)@.default_video,
            final(self)@.active_language_id == old(self)@.active_language_id,
            final(self)@.next_media_id == old(self)@.next_media_id,
    {
        let id = self.next_language_id;
        self.next_language_id = id + 1;
        self.languages.push(
            Language {
                id,
                name: owned(name),
                syllable_language: SyllableLanguage::French,
                instrumental_audio_path: None,
            },
        );
        assert(self@.languages.drop_last() =~= old(self)@.languages);
        id
    }

    /// Copies of the rythmo bands, in order.
    pub fn languages(&self) -> (r: Vec<Language>)
        ensures
            r@.len() == self@.languages.len(),
            forall|i: int|
                #![trigger r@[i]]
                0 <= i < r@.len() ==> {
                    &&& r@[i].id == self@.languages[i].id
                    &&& r@[i].name@ == self@.languages[i].name@
                    &&& r@[i].syllable_language == self@.languages[i].syllable_language
                    &&& opt_view(r@[i].instrumental_audio_path) == opt_view(
                        self@.languages[i].instrumental_audio_path,
                    )
                },
    {
        let mut out: Vec<Language> = Vec::new();
        let mut i: usize = 0;
        while i < self.languages.len()
            invariant
                i <= self.languages@.len(),
                out@.len() == i,
                forall|j: int|
                    #![trigger out@[j]]
                    0 <= j < i ==> {
                        &&& out@[j].id == self.languages@[j].id
                        &&& out@[j].name@ == self.languages@[j].name@
                        &&& out@[j].syllable_language == self.languages@[j].syllable_language
                        &&& opt_view(out@[j].instrumental_audio_path) == opt_view(
                            self.languages@[j].instrumental_audio_path,
                        )
                    },
            decreases self.languages@.len() - i,
        {
            out.push(copy_language(&self.languages[i]));
            i = i + 1;
        }
        out
    }

    fn language_position(&self, id: u64) -> (r: Option<usize>)
        ensures
            match r {
                Some(i) => language_index(self@.languages, id) == Some(i as int) && i
                    < self@.languages.len(),
                None => language_index(self@.languages, id) is None,
            },
    {
        proof {
            lemma_language_index(self@.languages, id);
        }
        let mut i: usize = 0;
        while i < self.languages.len()
            invariant
                i <= self.languages@.len(),
                forall|j: int| 0 <= j < i ==> self.languages@[j].id != id,
                match language_index(self.languages@, id) {
                    Some(k) => 0 <= k < self.languages@.len() && self.languages@[k].id == id
                        && forall|j: int| 0 <= j < k ==> self.languages@[j].id != id,
                    None => forall|j: int|
                        0 <= j < self.languages@.len() ==> self.languages@[j].id != id,
                },
            decreases self.languages@.len() - i,
        {
            if self.languages[i].id == id {
                return Some(i);
            }
            i = i + 1;
        }
        None
    }

    /// Path of the instrumental audio of band `id`, when it has one.
    pub fn language_instrumental_audio_path(&self, id: u64) -> (r: Option<String>)
        ensures
            opt_view(r) == match language_index(self@.languages, id) {
                Some(i) => opt_view(self@.languages[i].instrumental_audio_path),
                None => None,
            },
    {
        match self.language_position(id) {
            Some(i) => match &self.languages[i].instrumental_audio_path {
                Some(path) => Some(path.clone()),
                None => None,
            },
            None => None,
        }
    }

    /// Syllable-cutting language of band `id`.
    pub fn language_syllable_language(&self, id: u64) -> (r: Option<SyllableLanguage>)
        ensures
            r == match language_index(self@.languages, id) {
                Some(i) => Some(self@.languages[i].syllable_language),
                None => None,
            },
    {
        match self.language_position(id) {
            Some(i) => Some(self.languages[i].syllable_language),
            None => None,
        }
    }

    /// Sets (or clears) the instrumental audio of band `id`; no effect when
    /// there is no such band.
    pub fn set_language_instrumental_audio_path(&mut self, id: u64, path: Option<String>)
        ensures
            match language_index(old(self)@.languages, id) {
                Some(i) => {
                    &&& final(self)@.languages.len() == old(self)@.languages.len()
                    &&& forall|j: int|
                        0 <= j < old(self)@.languages.len() && j != i
                            ==> #[trigger] final(self)@.languages[j] == old(self)@.languages[j]
                    &&& final(self)@.languages[i].id == id
                    &&& final(self)@.languages[i].name == old(self)@.languages[i].name
                    &&& final(self)@.languages[i].syllable_language
                        == old(self)@.languages[i].syllable_language
                    &&& opt_view(final(self)@.languages[i].instrumental_audio_path) == opt_view(
                        path,
                    )
                    &&& final(self)@ == ProjectView { languages: final(self)@.languages, ..old(self)@ }
                },
                None => final(self)@ == old(self)@,
            },
    {
        match self.language_position(id) {
            Some(i) => {
                let old_language = &self.languages[i];
                let updated = Language {
                    id: old_language.id,
                    name: old_language.name.clone(),
                    syllable_language: old_language.syllable_language,
                    instrumental_audio_path: path,
                };
                self.languages.set(i, updated);
                proof {
                    lemma_language_index(old(self)@.languages, id);
                }
            },
            None => {},
        }
    }

    /// Renames band `id` to `name`; no effect when there is no such band.
    pub fn rename_language(&mut self, id: u64, name: &str)
        ensures
            match language_index(old(self)@.languages, id) {
                Some(i) => {
                    &&& final(self)@.languages.len() == old(self)@.languages.len()
                    &&& forall|j: int|
                        0 <= j < old(self)@.languages.len() && j != i
                            ==> #[trigger] final(self)@.languages[j] == old(self)@.languages[j]
                    &&& final(self)@.languages[i].id == id
                    &&& final(self)@.languages[i].name@ == name@
                    &&& final(self)@.languages[i].syllable_language
                        == old(self)@.languages[i].syllable_language
                    &&& final(self)@.languages[i].instrumental_audio_path
                        == old(self)@.languages[i].instrumental_audio_path
                    &&& final(self)@ == ProjectView { languages: final(self)@.languages, ..old(self)@ }
                },
                None => final(self)@ == old(self)@,
            },
    {
        match self.language_position(id) {
            Some(i) => {
                let old_language = &self.languages[i];
                let updated = Language {
                    id: old_language.id,
                    name: owned(name),
                    syllable_language: old_language.syllable_language,
                    instrumental_audio_path: old_language.instrumental_audio_path.clone(),
                };
                self.languages.set(i, updated);
                proof {
                    lemma_language_index(old(self)@.languages, id);
                }
            },
            None => {},
        }
    }
}

} // verus!
