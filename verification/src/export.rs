//! Export settings: the video size an export resolves to, and the keyboard
//! and selection rules of the export dialog.
//!
//! The dialog's frame rate, bit-rate and pre-roll steppers work on
//! fractional values and stay with the drawing layer; everything here is
//! whole numbers, flags and lists.

use vstd::prelude::*;

use crate::text::{char_count, chars_of, decimal, digit_char_spec, owned, push_decimal, push_str, string_from};

verus! {

/// Shape of the exported picture.
#[derive(Clone, Copy, Debug, PartialEq, Eq, Structural)]
pub enum VideoExportAspect {
    Source,
    Landscape16x9,
    Portrait9x16,
}

/// Resolution class of the exported picture.
#[derive(Clone, Copy, Debug, PartialEq, Eq, Structural)]
pub enum VideoExportQuality {
    P720,
    P1080,
    P1440,
    P8k,
    Custom,
}

/// Which audio mixes a language is exported with.
#[derive(Clone, Copy, Debug, PartialEq, Eq, Structural)]
pub struct AudioSelection {
    pub original: bool,
    pub instrumental: bool,
}

impl Default for AudioSelection {
    fn default() -> (r: Self)
        ensures
            r == (AudioSelection { original: true, instrumental: false }),
    {
        AudioSelection { original: true, instrumental: false }
    }
}

/// Subtitle files to write.
#[derive(Clone, Copy, Debug, PartialEq, Eq, Structural)]
pub struct SubtitleFormats {
    pub json: bool,
    pub srt: bool,
    pub ass: bool,
    pub detx: bool,
}

/// Audio files to write.
#[derive(Clone, Copy, Debug, PartialEq, Eq, Structural)]
pub struct AudioFormats {
    pub mp3: bool,
    pub wav: bool,
    pub bwf_stems: bool,
}

/// Cross-reference reports to write.
#[derive(Clone, Copy, Debug, PartialEq, Eq, Structural)]
pub struct CrossReferenceFormats {
    pub csv: bool,
    pub pdf: bool,
}

/// The audio mixes chosen for one language.
#[derive(Clone, Copy, Debug, PartialEq, Eq, Structural)]
pub struct LanguageAudio {
    pub id: u64,
    pub selection: AudioSelection,
}

/// The whole-number part of an export's settings.
#[derive(Clone, Debug)]
pub struct ExportConfiguration {
    pub video_enabled: bool,
    pub video_aspect: VideoExportAspect,
    pub video_quality: VideoExportQuality,
    pub custom_width: u32,
    pub custom_height: u32,
    pub countdown_enabled: bool,
    pub countdown_start: u32,
    pub subtitle_formats: SubtitleFormats,
    pub audio_formats: AudioFormats,
    pub cross_reference_formats: CrossReferenceFormats,
    pub presence_grid_pdf: bool,
    pub selected_language_ids: Vec<u64>,
    /// Per language, its audio mixes; the first entry for an id counts.
    pub audio_by_language: Vec<LanguageAudio>,
}

impl Default for ExportConfiguration {
    fn default() -> (r: Self)
        ensures
            r.video_enabled,
            r.video_aspect == VideoExportAspect::Source,
            r.video_quality == VideoExportQuality::P1080,
            r.custom_width == 1920 && r.custom_height == 1080,
            !r.countdown_enabled && r.countdown_start == 3,
            r.subtitle_formats == (SubtitleFormats {
                json: false,
                srt: false,
                ass: false,
                detx: false,
            }),
            r.audio_formats == (AudioFormats { mp3: false, wav: false, bwf_stems: false }),
            r.cross_reference_formats == (CrossReferenceFormats { csv: false, pdf: false }),
            !r.presence_grid_pdf,
            r.selected_language_ids@ == Seq::<u64>::empty(),
            r.audio_by_language@ == Seq::<LanguageAudio>::empty(),
    {
        ExportConfiguration {
            video_enabled: true,
            video_aspect: VideoExportAspect::Source,
            video_quality: VideoExportQuality::P1080,
            custom_width: 1920,
            custom_height: 1080,
            countdown_enabled: false,
            countdown_start: 3,
            subtitle_formats: SubtitleFormats { json: false, srt: false, ass: false, detx: false },
            audio_formats: AudioFormats { mp3: false, wav: false, bwf_stems: false },
            cross_reference_formats: CrossReferenceFormats { csv: false, pdf: false },
            presence_grid_pdf: false,
            selected_language_ids: Vec::new(),
            audio_by_language: Vec::new(),
        }
    }
}

/// The settings of an export, with its lists as sequences.
pub struct ExportConfigurationView {
    pub video_enabled: bool,
    pub video_aspect: VideoExportAspect,
    pub video_quality: VideoExportQuality,
    pub custom_width: u32,
    pub custom_height: u32,
    pub countdown_enabled: bool,
    pub countdown_start: u32,
    pub subtitle_formats: SubtitleFormats,
    pub audio_formats: AudioFormats,
    pub cross_reference_formats: CrossReferenceFormats,
    pub presence_grid_pdf: bool,
    pub selected_language_ids: Seq<u64>,
    pub audio_by_language: Seq<LanguageAudio>,
}

impl View for ExportConfiguration {
    type V = ExportConfigurationView;

    open spec fn view(&self) -> ExportConfigurationView {
        ExportConfigurationView {
            video_enabled: self.video_enabled,
            video_aspect: self.video_aspect,
            video_quality: self.video_quality,
            custom_width: self.custom_width,
            custom_height: self.custom_height,
            countdown_enabled: self.countdown_enabled,
            countdown_start: self.countdown_start,
            subtitle_formats: self.subtitle_formats,
            audio_formats: self.audio_formats,
            cross_reference_formats: self.cross_reference_formats,
            presence_grid_pdf: self.presence_grid_pdf,
            selected_language_ids: self.selected_language_ids@,
            audio_by_language: self.audio_by_language@,
        }
    }
}

impl ExportConfiguration {
    /// A copy holding the same settings.
    pub fn snapshot(&self) -> (r: ExportConfiguration)
        ensures
            r@ == self@,
    {
        let ids = self.selected_language_ids.clone();
        let audio = self.audio_by_language.clone();
        assert(ids@ =~= self.selected_language_ids@);
        assert(audio@ =~= self.audio_by_language@);
        ExportConfiguration {
            video_enabled: self.video_enabled,
            video_aspect: self.video_aspect,
            video_quality: self.video_quality,
            custom_width: self.custom_width,
            custom_height: self.custom_height,
            countdown_enabled: self.countdown_enabled,
            countdown_start: self.countdown_start,
            subtitle_formats: self.subtitle_formats,
            audio_formats: self.audio_formats,
            cross_reference_formats: self.cross_reference_formats,
            presence_grid_pdf: self.presence_grid_pdf,
            selected_language_ids: ids,
            audio_by_language: audio,
        }
    }
}

/// Length of the short side, in pixels, of a fixed resolution class.
pub open spec fn short_side(quality: VideoExportQuality) -> int {
    match quality {
        VideoExportQuality::P720 => 720,
        VideoExportQuality::P1080 => 1080,
        VideoExportQuality::P1440 => 1440,
        _ => 4320,
    }
}

/// `num / den` rounded to the nearest even number (halves go up).
pub open spec fn even_round(num: int, den: int) -> int {
    2 * ((num + den) / (2 * den))
}

/// Width and height an export produces from a source of `sw` by `sh`.
pub open spec fn video_dimensions(
    aspect: VideoExportAspect,
    quality: VideoExportQuality,
    custom_width: int,
    custom_height: int,
    sw: int,
    sh: int,
) -> (int, int) {
    if quality == VideoExportQuality::Custom {
        (custom_width, custom_height)
    } else {
        let s = short_side(quality);
        match aspect {
            VideoExportAspect::Landscape16x9 => (s * 16 / 9, s),
            VideoExportAspect::Portrait9x16 => (s, s * 16 / 9),
            VideoExportAspect::Source => if sw >= sh {
                (even_round(sw * s, sh), s)
            } else {
                (s, even_round(sh * s, sw))
            },
        }
    }
}

fn short_side_of(quality: VideoExportQuality) -> (r: u64)
    requires
        quality != VideoExportQuality::Custom,
    ensures
        r == short_side(quality),
{
    match quality {
        VideoExportQuality::P720 => 720,
        VideoExportQuality::P1080 => 1080,
        VideoExportQuality::P1440 => 1440,
        _ => 4320,
    }
}

fn even_round_of(long: u32, short: u32, s: u64) -> (r: u64)
    requires
        short > 0,
        s <= 4320,
    ensures
        r == even_round(long * s, short as int),
{
    assert(long * s <= 0xffff_ffff * 4320) by (nonlinear_arith)
        requires
            long <= 0xffff_ffff,
            s <= 4320,
    ;
    let num: u64 = long as u64 * s;
    let den: u64 = short as u64;
    2 * ((num + den) / (2 * den))
}

/// Width and height, in pixels, that an export with `configuration` renders
/// a source video of `source_width` by `source_height` at.
///
/// A fixed resolution class sets the short side; 16:9 and 9:16 derive the
/// long side from it, while the source aspect scales the source's long side
/// in proportion, rounded to an even number of pixels. The custom class
/// uses the configured width and height as they are.
pub fn resolve_video_dimensions(
    configuration: &ExportConfiguration,
    source_width: u32,
    source_height: u32,
) -> (r: (u64, u64))
    requires
        source_width > 0,
        source_height > 0,
    ensures
        (r.0 as int, r.1 as int) == video_dimensions(
            configuration.video_aspect,
            configuration.video_quality,
            configuration.custom_width as int,
            configuration.custom_height as int,
            source_width as int,
            source_height as int,
        ),
        configuration.video_quality == VideoExportQuality::P720 ==> (if r.0 <= r.1 { r.0 } else { r.1 }) == 720,
        configuration.video_quality == VideoExportQuality::P1080 ==> (if r.0 <= r.1 { r.0 } else { r.1 }) == 1080,
        configuration.video_quality == VideoExportQuality::P1440 ==> (if r.0 <= r.1 { r.0 } else { r.1 }) == 1440,
        configuration.video_quality == VideoExportQuality::P8k ==> (if r.0 <= r.1 { r.0 } else { r.1 }) == 4320,
{
    proof {
        if configuration.video_quality != VideoExportQuality::Custom {
            lemma_fixed_class_short_side(
                configuration.video_aspect,
                configuration.video_quality,
                configuration.custom_width as int,
                configuration.custom_height as int,
                source_width as int,
                source_height as int,
            );
        }
    }
    if configuration.video_quality == VideoExportQuality::Custom {
        return (configuration.custom_width as u64, configuration.custom_height as u64);
    }
    let s = short_side_of(configuration.video_quality);
    match configuration.video_aspect {
        VideoExportAspect::Landscape16x9 => (s * 16 / 9, s),
        VideoExportAspect::Portrait9x16 => (s, s * 16 / 9),
        VideoExportAspect::Source => {
            if source_width >= source_height {
                (even_round_of(source_width, source_height, s), s)
            } else {
                (s, even_round_of(source_height, source_width, s))
            }
        },
    }
}

/// A language offered for export.
#[derive(Clone, Debug)]
pub struct ExportLanguageOption {
    pub id: u64,
    pub name: String,
    pub has_instrumental: bool,
}

/// What the export dialog did with an event.
pub enum ExportModalResult {
    Consumed,
    Close { configuration: ExportConfiguration },
    Export { configuration: ExportConfiguration },
}

/// The dialog's pages, in navigation order.
#[derive(Clone, Copy, Debug, PartialEq, Eq, Structural)]
pub enum ExportPage {
    Video,
    Subtitles,
    Audio,
    Reports,
}

/// The custom dimension being typed.
#[derive(Clone, Copy, Debug, PartialEq, Eq, Structural)]
pub enum NumericField {
    Width,
    Height,
}

/// A control of the video page, as the pointer hit it.
#[derive(Clone, Copy, Debug, PartialEq, Eq, Structural)]
pub enum VideoControl {
    ToggleVideo,
    Aspect(VideoExportAspect),
    Quality(VideoExportQuality),
    EditWidth,
    EditHeight,
    ToggleCountdown,
    CountdownMinus,
    CountdownPlus,
}

/// Page shown for navigation entry `index`.
pub open spec fn page_for_index_spec(index: int) -> ExportPage {
    if index == 0 {
        ExportPage::Video
    } else if index == 1 {
        ExportPage::Subtitles
    } else if index == 2 {
        ExportPage::Audio
    } else {
        ExportPage::Reports
    }
}

/// Page shown for navigation entry `index`.
pub fn page_for_index(index: usize) -> (r: ExportPage)
    ensures
        r == page_for_index_spec(index as int),
{
    if index == 0 {
        ExportPage::Video
    } else if index == 1 {
        ExportPage::Subtitles
    } else if index == 2 {
        ExportPage::Audio
    } else {
        ExportPage::Reports
    }
}

/// Position of the first `x` in `s`, or `s.len()` when there is none.
pub open spec fn first_pos(s: Seq<u64>, x: u64) -> int
    decreases s.len(),
{
    if s.len() == 0 {
        0
    } else if s[0] == x {
        0
    } else {
        1 + first_pos(s.drop_first(), x)
    }
}

proof fn lemma_first_pos(s: Seq<u64>, x: u64)
    ensures
        0 <= first_pos(s, x) <= s.len(),
        first_pos(s, x) < s.len() ==> s[first_pos(s, x)] == x,
        forall|j: int| 0 <= j < first_pos(s, x) ==> s[j] != x,
        (first_pos(s, x) < s.len()) == s.contains(x),
    decreases s.len(),
{
    if s.len() > 0 && s[0] != x {
        lemma_first_pos(s.drop_first(), x);
        assert forall|j: int| 0 <= j < first_pos(s, x) implies s[j] != x by {
            if j > 0 {
                assert(s[j] == s.drop_first()[j - 1]);
            }
        }
        if s.contains(x) {
            let k = choose|k: int| 0 <= k < s.len() && s[k] == x;
            assert(s.drop_first()[k - 1] == x);
        }
        if first_pos(s, x) < s.len() {
            assert(s[first_pos(s, x)] == s.drop_first()[first_pos(s, x) - 1]);
        }
    } else if s.len() > 0 {
        assert(s[0] == x);
    }
}

/// Finds the first `x` in `v`.
fn find_first(v: &Vec<u64>, x: u64) -> (r: usize)
    ensures
        r == first_pos(v@, x),
{
    proof {
        lemma_first_pos(v@, x);
    }
    let mut i: usize = 0;
    while i < v.len()
        invariant
            i <= v.len(),
            forall|j: int| 0 <= j < i ==> v@[j] != x,
            0 <= first_pos(v@, x) <= v.len(),
            first_pos(v@, x) < v.len() ==> v@[first_pos(v@, x)] == x,
            forall|j: int| 0 <= j < first_pos(v@, x) ==> v@[j] != x,
        decreases v.len() - i,
    {
        if v[i] == x {
            return i;
        }
        i = i + 1;
    }
    i
}

/// The ids the audio entries are for, in order.
pub open spec fn audio_ids(v: Seq<LanguageAudio>) -> Seq<u64> {
    v.map_values(|e: LanguageAudio| e.id)
}

/// `v` with an entry for `id`, a default one appended when it has none.
pub open spec fn with_audio_entry(v: Seq<LanguageAudio>, id: u64) -> Seq<LanguageAudio> {
    if audio_ids(v).contains(id) {
        v
    } else {
        v.push(LanguageAudio { id, selection: AudioSelection { original: true, instrumental: false } })
    }
}

/// `v` with an entry for each of `ids`, taken in order.
pub open spec fn with_audio_entries(v: Seq<LanguageAudio>, ids: Seq<u64>) -> Seq<LanguageAudio>
    decreases ids.len(),
{
    if ids.len() == 0 {
        v
    } else {
        with_audio_entries(with_audio_entry(v, ids[0]), ids.drop_first())
    }
}

/// The mixes chosen for `id` (the default ones when it has no entry).
pub open spec fn selection_of(v: Seq<LanguageAudio>, id: u64) -> AudioSelection {
    let k = first_pos(audio_ids(v), id);
    if k < v.len() {
        v[k].selection
    } else {
        AudioSelection { original: true, instrumental: false }
    }
}

/// A click on a language's original (`instrumental` false) or instrumental
/// mix: it flips, unless that would leave no mix chosen, or the
/// instrumental mix is not `available`.
pub open spec fn toggled_audio(
    sel: AudioSelection,
    instrumental: bool,
    available: bool,
) -> AudioSelection {
    if instrumental {
        if !available {
            sel
        } else if sel.original || !sel.instrumental {
            AudioSelection { instrumental: !sel.instrumental, ..sel }
        } else {
            sel
        }
    } else if sel.instrumental || !sel.original {
        AudioSelection { original: !sel.original, ..sel }
    } else {
        sel
    }
}

/// Selected languages after a click on `id`: it leaves the selection unless
/// it is the last one, or joins it at the end.
pub open spec fn toggled_languages(s: Seq<u64>, id: u64) -> Seq<u64> {
    if s.contains(id) {
        if s.len() > 1 {
            s.remove(first_pos(s, id))
        } else {
            s
        }
    } else {
        s.push(id)
    }
}

/// Whether the export writes at least one file.
pub open spec fn any_format_spec(c: ExportConfigurationView) -> bool {
    c.video_enabled || c.subtitle_formats.json || c.subtitle_formats.srt || c.subtitle_formats.ass
        || c.subtitle_formats.detx || c.audio_formats.mp3 || c.audio_formats.wav
        || c.audio_formats.bwf_stems || c.cross_reference_formats.csv
        || c.cross_reference_formats.pdf || c.presence_grid_pdf
}

/// The ids of the offered languages, in order.
pub open spec fn option_ids(languages: Seq<ExportLanguageOption>) -> Seq<u64> {
    languages.map_values(|l: ExportLanguageOption| l.id)
}

/// The selection a dialog opens with: the selected ids still offered, or
/// every offered id when none is.
pub open spec fn initial_selection(selected: Seq<u64>, ids: Seq<u64>) -> Seq<u64> {
    let kept = selected.filter(|x: u64| ids.contains(x));
    if kept.len() == 0 {
        ids
    } else {
        kept
    }
}

/// The export dialog's settings and the custom dimension being typed.
pub struct ExportModal {
    configuration: ExportConfiguration,
    languages: Vec<ExportLanguageOption>,
    page: ExportPage,
    source_width: u32,
    source_height: u32,
    numeric_field: Option<NumericField>,
    numeric_text: String,
    replace_numeric: bool,
}

/// The dialog's state, as values.
pub struct ExportModalView {
    pub configuration: ExportConfigurationView,
    pub languages: Seq<ExportLanguageOption>,
    pub page: ExportPage,
    pub source_width: u32,
    pub source_height: u32,
    pub numeric_field: Option<NumericField>,
    pub numeric_text: Seq<char>,
    pub replace_numeric: bool,
}

impl View for ExportModal {
    type V = ExportModalView;

    closed spec fn view(&self) -> ExportModalView {
        ExportModalView {
            configuration: self.configuration@,
            languages: self.languages@,
            page: self.page,
            source_width: self.source_width,
            source_height: self.source_height,
            numeric_field: self.numeric_field,
            numeric_text: self.numeric_text@,
            replace_numeric: self.replace_numeric,
        }
    }
}

/// Every character is an ASCII digit.
pub open spec fn all_digits(s: Seq<char>) -> bool {
    forall|i: int| 0 <= i < s.len() ==> '0' <= #[trigger] s[i] <= '9'
}

impl ExportModal {
    /// The text being typed holds digits only.
    pub open spec fn wf(&self) -> bool {
        all_digits(self@.numeric_text)
    }

    /// Opens the dialog on a source video of `video_width` by
    /// `video_height` (each at least 16) with `configuration`, keeping only
    /// the selected languages that are offered (all of them when none is)
    /// and giving every offered language an audio entry.
    pub fn new(
        video_width: u32,
        video_height: u32,
        languages: Vec<ExportLanguageOption>,
        configuration: ExportConfiguration,
    ) -> (r: Self)
        ensures
            r.wf(),
            r@ == (ExportModalView {
                configuration: ExportConfigurationView {
                    selected_language_ids: initial_selection(
                        configuration.selected_language_ids@,
                        option_ids(languages@),
                    ),
                    audio_by_language: with_audio_entries(
                        configuration.audio_by_language@,
                        option_ids(languages@),
                    ),
                    ..configuration@
                },
                languages: languages@,
                page: ExportPage::Video,
                source_width: if video_width >= 16 { video_width } else { 16u32 },
                source_height: if video_height >= 16 { video_height } else { 16u32 },
                numeric_field: None,
                numeric_text: Seq::empty(),
                replace_numeric: false,
            }),
    {
        let ghost c0 = configuration;
        let mut configuration = configuration;
        let mut ids: Vec<u64> = Vec::new();
        let mut i: usize = 0;
        while i < languages.len()
            invariant
                i <= languages.len(),
                ids@ == option_ids(languages@).take(i as int),
            decreases languages.len() - i,
        {
            ids.push(languages[i].id);
            i = i + 1;
            assert(ids@ =~= option_ids(languages@).take(i as int));
        }
        assert(ids@ =~= option_ids(languages@));
        let ghost ids_view = ids@;
        let ghost pred = |x: u64| ids_view.contains(x);
        let old_selected = configuration.selected_language_ids;
        let mut kept: Vec<u64> = Vec::new();
        let mut j: usize = 0;
        while j < old_selected.len()
            invariant
                j <= old_selected.len(),
                ids@ == ids_view,
                pred == (|x: u64| ids_view.contains(x)),
                kept@ == old_selected@.take(j as int).filter(pred),
            decreases old_selected.len() - j,
        {
            let x = old_selected[j];
            let ghost t1 = old_selected@.take(j + 1);
            assert(t1.drop_last() =~= old_selected@.take(j as int));
            assert(t1.last() == x);
            proof {
                lemma_first_pos(ids@, x);
                reveal(Seq::filter);
            }
            if find_first(&ids, x) < ids.len() {
                assert(pred(x));
                kept.push(x);
                assert(kept@ == t1.filter(pred));
            } else {
                assert(!pred(x));
                assert(kept@ == t1.filter(pred));
            }
            j = j + 1;
        }
        assert(old_selected@.take(j as int) =~= old_selected@);
        assert(pred =~= (|x: u64| option_ids(languages@).contains(x)));
        if kept.len() == 0 {
            let mut all: Vec<u64> = Vec::new();
            let mut k: usize = 0;
            while k < ids.len()
                invariant
                    k <= ids.len(),
                    all@ == ids@.take(k as int),
                decreases ids.len() - k,
            {
                all.push(ids[k]);
                k = k + 1;
                assert(all@ =~= ids@.take(k as int));
            }
            assert(all@ =~= ids@);
            configuration.selected_language_ids = all;
        } else {
            configuration.selected_language_ids = kept;
        }
        let ghost audio0 = configuration.audio_by_language@;
        assert(ids@.skip(0) =~= ids@);
        let mut k: usize = 0;
        while k < ids.len()
            invariant
                k <= ids.len(),
                with_audio_entries(configuration.audio_by_language@, ids@.skip(k as int))
                    == with_audio_entries(audio0, ids@),
                configuration.selected_language_ids@ == initial_selection(
                    c0.selected_language_ids@,
                    ids@,
                ),
                configuration.video_enabled == c0.video_enabled,
                configuration.video_aspect == c0.video_aspect,
                configuration.video_quality == c0.video_quality,
                configuration.custom_width == c0.custom_width,
                configuration.custom_height == c0.custom_height,
                configuration.countdown_enabled == c0.countdown_enabled,
                configuration.countdown_start == c0.countdown_start,
                configuration.subtitle_formats == c0.subtitle_formats,
                configuration.audio_formats == c0.audio_formats,
                configuration.cross_reference_formats == c0.cross_reference_formats,
                configuration.presence_grid_pdf == c0.presence_grid_pdf,
            decreases ids.len() - k,
        {
            ensure_audio_entry(&mut configuration.audio_by_language, ids[k]);
            assert(ids@.skip(k as int).drop_first() =~= ids@.skip(k + 1));
            k = k + 1;
        }
        assert(ids@.skip(k as int) =~= Seq::<u64>::empty());
        ExportModal {
            configuration,
            languages,
            page: ExportPage::Video,
            source_width: if video_width >= 16 { video_width } else { 16 },
            source_height: if video_height >= 16 { video_height } else { 16 },
            numeric_field: None,
            numeric_text: String::new(),
            replace_numeric: false,
        }
    }
}

proof fn lemma_audio_ids_push(v: Seq<LanguageAudio>, e: LanguageAudio)
    ensures
        audio_ids(v.push(e)) == audio_ids(v).push(e.id),
{
    assert(audio_ids(v.push(e)) =~= audio_ids(v).push(e.id));
}

/// Finds the entry for `id`, appending a default one when there is none;
/// returns its position.
fn ensure_audio_entry(v: &mut Vec<LanguageAudio>, id: u64) -> (k: usize)
    ensures
        final(v)@ == with_audio_entry(old(v)@, id),
        k == first_pos(audio_ids(final(v)@), id),
        k < final(v)@.len(),
        final(v)@[k as int].id == id,
{
    proof {
        lemma_first_pos(audio_ids(v@), id);
    }
    let mut i: usize = 0;
    while i < v.len()
        invariant
            i <= v.len(),
            v@ == old(v)@,
            forall|j: int| 0 <= j < i ==> audio_ids(v@)[j] != id,
            0 <= first_pos(audio_ids(v@), id) <= v.len(),
            first_pos(audio_ids(v@), id) < v.len() ==> audio_ids(v@)[first_pos(
                audio_ids(v@),
                id,
            )] == id,
            forall|j: int| 0 <= j < first_pos(audio_ids(v@), id) ==> audio_ids(v@)[j] != id,
            (first_pos(audio_ids(v@), id) < v.len()) == audio_ids(v@).contains(id),
        decreases v.len() - i,
    {
        if v[i].id == id {
            proof {
                assert(audio_ids(v@)[i as int] == id);
                assert(audio_ids(v@).contains(id));
                let f = first_pos(audio_ids(v@), id);
                if f < i {
                    assert(audio_ids(v@)[f] != id);
                }
            }
            return i;
        }
        i = i + 1;
    }
    assert(first_pos(audio_ids(v@), id) == v.len()) by {
        let f = first_pos(audio_ids(v@), id);
        if f < v.len() {
            assert(audio_ids(v@)[f] != id);
        }
    }
    v.push(LanguageAudio { id, selection: AudioSelection { original: true, instrumental: false } });
    proof {
        lemma_audio_ids_push(old(v)@, v@.last());
        lemma_first_pos(audio_ids(v@), id);
        assert(audio_ids(v@)[i as int] == id);
    }
    i
}

/// Value of a run of ASCII digits.
pub open spec fn digits_value(s: Seq<char>) -> nat
    decreases s.len(),
{
    if s.len() == 0 {
        0
    } else {
        digits_value(s.drop_last()) * 10 + ((s.last() as nat) - ('0' as nat)) as nat
    }
}

/// What `str::parse::<u32>` yields: an optional `+`, then at least one
/// ASCII digit, the value fitting in 32 bits.
pub open spec fn parsed_u32(s: Seq<char>) -> Option<u32> {
    let body = if s.len() > 0 && s[0] == '+' {
        s.drop_first()
    } else {
        s
    };
    if body.len() > 0 && all_digits(body) && digits_value(body) <= u32::MAX {
        Some(digits_value(body) as u32)
    } else {
        None
    }
}

pub(crate) proof fn lemma_digits_value_grows(s: Seq<char>, i: int)
    requires
        all_digits(s),
        0 <= i <= s.len(),
    ensures
        digits_value(s.take(i)) <= digits_value(s),
    decreases s.len() - i,
{
    if i < s.len() {
        lemma_digits_value_grows(s, i + 1);
        assert(s.take(i + 1).drop_last() =~= s.take(i));
        assert('0' <= s.take(i + 1).last() <= '9');
    } else {
        assert(s.take(i) =~= s);
    }
}

/// Parses `s` as `str::parse::<u32>` does.
pub fn parse_u32(s: &str) -> (r: Option<u32>)
    ensures
        r == parsed_u32(s@),
{
    let n = s.unicode_len();
    let mut start: usize = 0;
    if n > 0 && s.get_char(0) == '+' {
        start = 1;
    }
    let ghost body = if s@.len() > 0 && s@[0] == '+' {
        s@.drop_first()
    } else {
        s@
    };
    assert(body =~= s@.skip(start as int));
    if start >= n {
        return None;
    }
    let mut value: u64 = 0;
    let mut i: usize = start;
    while i < n
        invariant
            n == s@.len(),
            start <= i <= n,
            body == s@.skip(start as int),
            body == (if s@.len() > 0 && s@[0] == '+' {
                s@.drop_first()
            } else {
                s@
            }),
            start < n,
            all_digits(body.take(i - start)),
            value == digits_value(body.take(i - start)),
            value <= u32::MAX,
        decreases n - i,
    {
        let c = s.get_char(i);
        let ghost t1 = body.take(i - start + 1);
        assert(t1.drop_last() =~= body.take(i - start));
        assert(t1.last() == c);
        assert(body[(i - start) as int] == c);
        if !('0' <= c && c <= '9') {
            assert(!all_digits(body));
            assert(parsed_u32(s@) == None::<u32>);
            return None;
        }
        let d = (c as u32 - '0' as u32) as u64;
        value = value * 10 + d;
        assert(all_digits(t1));
        assert(value == digits_value(t1));
        if value > 0xffff_ffff {
            proof {
                if all_digits(body) {
                    lemma_digits_value_grows(body, i - start + 1);
                }
                assert(parsed_u32(s@) == None::<u32>);
            }
            return None;
        }
        i = i + 1;
    }
    assert(body.take(i - start) =~= body);
    Some(value as u32)
}

/// The custom dimension committed from typed `text`: the parsed value, or
/// `fallback` when it does not parse, kept within 16 to 8192 and rounded
/// up to an even number.
pub open spec fn committed_dimension(text: Seq<char>, fallback: u32) -> u32 {
    let v = match parsed_u32(text) {
        Some(v) => v,
        None => fallback,
    };
    let c = if v < 16 {
        16
    } else if v > 8192 {
        8192
    } else {
        v
    };
    if c % 2 == 0 {
        c
    } else {
        (c + 1) as u32
    }
}

/// The dialog after committing the dimension being typed.
pub open spec fn finished(m: ExportModalView) -> ExportModalView {
    let fallback = match m.numeric_field {
        Some(NumericField::Height) => m.configuration.custom_height,
        _ => m.configuration.custom_width,
    };
    let value = committed_dimension(m.numeric_text, fallback);
    ExportModalView {
        configuration: match m.numeric_field {
            Some(NumericField::Width) => ExportConfigurationView {
                custom_width: value,
                ..m.configuration
            },
            Some(NumericField::Height) => ExportConfigurationView {
                custom_height: value,
                ..m.configuration
            },
            None => m.configuration,
        },
        numeric_field: None,
        numeric_text: Seq::empty(),
        replace_numeric: false,
        ..m
    }
}

/// The dialog after a typed key while a dimension is being edited.
pub open spec fn numeric_key_result(m: ExportModalView, text: Seq<char>) -> ExportModalView {
    if text == "\r"@ || text == "\n"@ || text == "\t"@ {
        finished(m)
    } else if text == "\x08"@ || text == "\x7f"@ {
        if m.replace_numeric {
            ExportModalView { numeric_text: Seq::empty(), replace_numeric: false, ..m }
        } else if m.numeric_text.len() > 0 {
            ExportModalView { numeric_text: m.numeric_text.drop_last(), ..m }
        } else {
            m
        }
    } else if all_digits(text) {
        let base = if m.replace_numeric {
            Seq::empty()
        } else {
            m.numeric_text
        };
        ExportModalView {
            numeric_text: if base.len() < 5 {
                base + text
            } else {
                base
            },
            replace_numeric: false,
            ..m
        }
    } else {
        m
    }
}

/// The dialog after a click on a video-page control.
pub open spec fn video_control_result(m: ExportModalView, control: VideoControl) -> ExportModalView {
    let c = m.configuration;
    match control {
        VideoControl::ToggleVideo => ExportModalView {
            configuration: ExportConfigurationView { video_enabled: !c.video_enabled, ..c },
            ..m
        },
        VideoControl::Aspect(a) => ExportModalView {
            configuration: ExportConfigurationView { video_aspect: a, ..c },
            ..m
        },
        VideoControl::Quality(q) => ExportModalView {
            configuration: ExportConfigurationView { video_quality: q, ..c },
            ..m
        },
        VideoControl::EditWidth => if c.video_quality == VideoExportQuality::Custom {
            ExportModalView {
                numeric_field: Some(NumericField::Width),
                numeric_text: decimal(c.custom_width as nat),
                replace_numeric: true,
                ..m
            }
        } else {
            m
        },
        VideoControl::EditHeight => if c.video_quality == VideoExportQuality::Custom {
            ExportModalView {
                numeric_field: Some(NumericField::Height),
                numeric_text: decimal(c.custom_height as nat),
                replace_numeric: true,
                ..m
            }
        } else {
            m
        },
        VideoControl::ToggleCountdown => ExportModalView {
            configuration: ExportConfigurationView { countdown_enabled: !c.countdown_enabled, ..c },
            ..m
        },
        VideoControl::CountdownMinus => if c.countdown_enabled {
            ExportModalView {
                configuration: ExportConfigurationView {
                    countdown_start: if c.countdown_start <= 2 {
                        1u32
                    } else {
                        (c.countdown_start - 1) as u32
                    },
                    ..c
                },
                ..m
            }
        } else {
            m
        },
        VideoControl::CountdownPlus => if c.countdown_enabled {
            ExportModalView {
                configuration: ExportConfigurationView {
                    countdown_start: if c.countdown_start >= 29 {
                        30u32
                    } else {
                        (c.countdown_start + 1) as u32
                    },
                    ..c
                },
                ..m
            }
        } else {
            m
        },
    }
}

/// The configuration after a click on format card `index` of `page`.
pub open spec fn format_toggled(c: ExportConfigurationView, page: ExportPage, index: int) -> ExportConfigurationView {
    match page {
        ExportPage::Video => c,
        ExportPage::Subtitles => {
            let f = c.subtitle_formats;
            ExportConfigurationView {
                subtitle_formats: if index == 0 {
                    SubtitleFormats { json: !f.json, ..f }
                } else if index == 1 {
                    SubtitleFormats { srt: !f.srt, ..f }
                } else if index == 2 {
                    SubtitleFormats { ass: !f.ass, ..f }
                } else if index == 3 {
                    SubtitleFormats { detx: !f.detx, ..f }
                } else {
                    f
                },
                ..c
            }
        },
        ExportPage::Audio => {
            let f = c.audio_formats;
            ExportConfigurationView {
                audio_formats: if index == 0 {
                    AudioFormats { mp3: !f.mp3, ..f }
                } else if index == 1 {
                    AudioFormats { wav: !f.wav, ..f }
                } else if index == 2 {
                    AudioFormats { bwf_stems: !f.bwf_stems, ..f }
                } else {
                    f
                },
                ..c
            }
        },
        ExportPage::Reports => {
            let f = c.cross_reference_formats;
            if index == 0 {
                ExportConfigurationView {
                    cross_reference_formats: CrossReferenceFormats { csv: !f.csv, ..f },
                    ..c
                }
            } else if index == 1 {
                ExportConfigurationView {
                    cross_reference_formats: CrossReferenceFormats { pdf: !f.pdf, ..f },
                    ..c
                }
            } else if index == 2 {
                ExportConfigurationView { presence_grid_pdf: !c.presence_grid_pdf, ..c }
            } else {
                c
            }
        },
    }
}

/// Which part of a language row the pointer hit.
#[derive(Clone, Copy, Debug, PartialEq, Eq, Structural)]
pub enum LanguageRowPart {
    Row,
    Original,
    Instrumental,
}

/// The configuration after a click on `part` of the row of `language`.
pub open spec fn language_row_result(
    c: ExportConfigurationView,
    language: ExportLanguageOption,
    part: LanguageRowPart,
) -> ExportConfigurationView {
    match part {
        LanguageRowPart::Row => ExportConfigurationView {
            selected_language_ids: toggled_languages(c.selected_language_ids, language.id),
            ..c
        },
        LanguageRowPart::Original => audio_toggled(c, language.id, false, true),
        LanguageRowPart::Instrumental => audio_toggled(
            c,
            language.id,
            true,
            language.has_instrumental,
        ),
    }
}

/// The configuration after a click on one mix of language `id`.
pub open spec fn audio_toggled(
    c: ExportConfigurationView,
    id: u64,
    instrumental: bool,
    available: bool,
) -> ExportConfigurationView {
    let v = with_audio_entry(c.audio_by_language, id);
    let k = first_pos(audio_ids(v), id);
    ExportConfigurationView {
        audio_by_language: v.update(
            k,
            LanguageAudio { id, selection: toggled_audio(v[k].selection, instrumental, available) },
        ),
        ..c
    }
}

/// Whether the export can start: some file is chosen, and some language.
pub open spec fn can_export_spec(c: ExportConfigurationView) -> bool {
    any_format_spec(c) && c.selected_language_ids.len() > 0
}

impl ExportModal {
    /// The settings being edited.
    pub fn configuration(&self) -> (r: &ExportConfiguration)
        ensures
            r@ == self@.configuration,
    {
        &self.configuration
    }

    /// The languages offered.
    pub fn languages(&self) -> (r: &Vec<ExportLanguageOption>)
        ensures
            r@ == self@.languages,
    {
        &self.languages
    }

    /// The page shown.
    pub fn page(&self) -> (r: ExportPage)
        ensures
            r == self@.page,
    {
        self.page
    }

    /// The source video's width and height.
    pub fn source_size(&self) -> (r: (u32, u32))
        ensures
            r == (self@.source_width, self@.source_height),
    {
        (self.source_width, self.source_height)
    }

    /// The custom dimension being typed, and its text.
    pub fn numeric_edit(&self) -> (r: (Option<NumericField>, &String))
        ensures
            r.0 == self@.numeric_field,
            r.1@ == self@.numeric_text,
    {
        (self.numeric_field, &self.numeric_text)
    }

    /// Whether language `id` is selected.
    pub fn selected(&self, id: u64) -> (r: bool)
        ensures
            r == self@.configuration.selected_language_ids.contains(id),
    {
        proof {
            lemma_first_pos(self.configuration.selected_language_ids@, id);
        }
        find_first(&self.configuration.selected_language_ids, id)
            < self.configuration.selected_language_ids.len()
    }

    /// A click on language `id`: it leaves the selection unless it is the
    /// last one, or joins it.
    pub fn toggle_language(&mut self, id: u64)
        requires
            old(self).wf(),
        ensures
            final(self).wf(),
            final(self)@ == (ExportModalView {
                configuration: ExportConfigurationView {
                    selected_language_ids: toggled_languages(
                        old(self)@.configuration.selected_language_ids,
                        id,
                    ),
                    ..old(self)@.configuration
                },
                ..old(self)@
            }),
    {
        proof {
            lemma_first_pos(self.configuration.selected_language_ids@, id);
        }
        let index = find_first(&self.configuration.selected_language_ids, id);
        if index < self.configuration.selected_language_ids.len() {
            if self.configuration.selected_language_ids.len() > 1 {
                self.configuration.selected_language_ids.remove(index);
            }
        } else {
            self.configuration.selected_language_ids.push(id);
        }
    }

    /// A click on the original (`instrumental` false) or instrumental mix of
    /// language `id`; `available` says whether it has an instrumental mix.
    pub fn toggle_language_audio(&mut self, id: u64, instrumental: bool, available: bool)
        requires
            old(self).wf(),
        ensures
            final(self).wf(),
            final(self)@ == (ExportModalView {
                configuration: audio_toggled(old(self)@.configuration, id, instrumental, available),
                ..old(self)@
            }),
    {
        let k = ensure_audio_entry(&mut self.configuration.audio_by_language, id);
        let sel = self.configuration.audio_by_language[k].selection;
        let new_sel = if instrumental {
            if !available {
                sel
            } else if sel.original || !sel.instrumental {
                AudioSelection { instrumental: !sel.instrumental, ..sel }
            } else {
                sel
            }
        } else if sel.instrumental || !sel.original {
            AudioSelection { original: !sel.original, ..sel }
        } else {
            sel
        };
        self.configuration.audio_by_language.set(k, LanguageAudio { id, selection: new_sel });
    }

    /// Whether the export writes at least one file.
    pub fn any_format_selected(&self) -> (r: bool)
        ensures
            r == any_format_spec(self@.configuration),
    {
        let c = &self.configuration;
        c.video_enabled || c.subtitle_formats.json || c.subtitle_formats.srt
            || c.subtitle_formats.ass || c.subtitle_formats.detx || c.audio_formats.mp3
            || c.audio_formats.wav || c.audio_formats.bwf_stems || c.cross_reference_formats.csv
            || c.cross_reference_formats.pdf || c.presence_grid_pdf
    }

    /// Whether the export can start.
    pub fn can_export(&self) -> (r: bool)
        ensures
            r == can_export_spec(self@.configuration),
    {
        self.any_format_selected() && self.configuration.selected_language_ids.len() > 0
    }

    fn begin_numeric(&mut self, field: NumericField)
        requires
            old(self).wf(),
        ensures
            final(self).wf(),
            final(self)@ == (ExportModalView {
                numeric_field: Some(field),
                numeric_text: decimal(
                    match field {
                        NumericField::Width => old(self)@.configuration.custom_width,
                        NumericField::Height => old(self)@.configuration.custom_height,
                    } as nat,
                ),
                replace_numeric: true,
                ..old(self)@
            }),
    {
        let value = match field {
            NumericField::Width => self.configuration.custom_width,
            NumericField::Height => self.configuration.custom_height,
        };
        let mut text = String::new();
        push_decimal(&mut text, value as u64);
        proof {
            assert(text@ =~= decimal(value as nat));
            lemma_decimal_digits(value as nat);
        }
        self.numeric_field = Some(field);
        self.numeric_text = text;
        self.replace_numeric = true;
    }

    /// Commits the dimension being typed.
    pub fn finish_numeric(&mut self)
        requires
            old(self).wf(),
        ensures
            final(self).wf(),
            final(self)@ == finished(old(self)@),
    {
        let fallback = match self.numeric_field {
            Some(NumericField::Height) => self.configuration.custom_height,
            _ => self.configuration.custom_width,
        };
        let parsed = parse_u32(self.numeric_text.as_str());
        let v = match parsed {
            Some(v) => v,
            None => fallback,
        };
        let c = if v < 16 {
            16
        } else if v > 8192 {
            8192
        } else {
            v
        };
        let value = if c % 2 == 0 {
            c
        } else {
            c + 1
        };
        match self.numeric_field {
            Some(NumericField::Width) => self.configuration.custom_width = value,
            Some(NumericField::Height) => self.configuration.custom_height = value,
            None => {},
        }
        self.numeric_field = None;
        self.numeric_text = String::new();
        self.replace_numeric = false;
    }

    /// Handles typed `text` while a dimension is being edited; false when
    /// none is.
    pub fn handle_numeric_key(&mut self, text: &str) -> (r: bool)
        requires
            old(self).wf(),
        ensures
            final(self).wf(),
            r == old(self)@.numeric_field is Some,
            final(self)@ == if r {
                numeric_key_result(old(self)@, text@)
            } else {
                old(self)@
            },
    {
        if self.numeric_field.is_none() {
            return false;
        }
        if str_is(text, "\r") || str_is(text, "\n") || str_is(text, "\t") {
            self.finish_numeric();
            return true;
        }
        if str_is(text, "\x08") || str_is(text, "\x7f") {
            if self.replace_numeric {
                self.numeric_text = String::new();
                self.replace_numeric = false;
            } else {
                let chars = chars_of(self.numeric_text.as_str());
                if chars.len() > 0 {
                    self.numeric_text = string_from(&chars, 0, chars.len() - 1);
                    assert(self.numeric_text@ =~= old(self)@.numeric_text.drop_last());
                }
            }
            return true;
        }
        if str_all_digits(text) {
            if self.replace_numeric {
                self.numeric_text = String::new();
                self.replace_numeric = false;
            }
            if char_count(self.numeric_text.as_str()) < 5 {
                push_str(&mut self.numeric_text, text);
            }
        }
        true
    }

    /// Handles a typed key: Escape closes, the dimension being edited takes
    /// what it handles, and Enter or Return starts the export when it can.
    pub fn handle_key(&mut self, text: &str) -> (r: ExportModalResult)
        requires
            old(self).wf(),
        ensures
            final(self).wf(),
            text@ == "\x1b"@ ==> (final(self)@ == old(self)@ && (r matches ExportModalResult::Close {
                configuration,
            } && configuration@ == old(self)@.configuration)),
            text@ != "\x1b"@ && old(self)@.numeric_field is Some ==> (final(self)@
                == numeric_key_result(old(self)@, text@) && r is Consumed),
            text@ != "\x1b"@ && old(self)@.numeric_field is None ==> final(self)@ == old(self)@,
            text@ != "\x1b"@ && old(self)@.numeric_field is None ==> if (text@ == "\r"@ || text@
                == "\n"@) && can_export_spec(old(self)@.configuration) {
                (r matches ExportModalResult::Export { configuration } && configuration@ == old(
                    self)@.configuration)
            } else {
                r is Consumed
            },
    {
        if str_is(text, "\x1b") {
            return ExportModalResult::Close { configuration: self.configuration.snapshot() };
        }
        if self.handle_numeric_key(text) {
            return ExportModalResult::Consumed;
        }
        if (str_is(text, "\r") || str_is(text, "\n")) && self.can_export() {
            return ExportModalResult::Export { configuration: self.configuration.snapshot() };
        }
        ExportModalResult::Consumed
    }

    /// Closes the dialog, handing back its settings.
    pub fn close(&self) -> (r: ExportModalResult)
        ensures
            (r matches ExportModalResult::Close { configuration } && configuration@
                == self@.configuration),
    {
        ExportModalResult::Close { configuration: self.configuration.snapshot() }
    }

    /// The export button: commits the dimension being typed, then starts
    /// the export when it can.
    pub fn press_export(&mut self) -> (r: ExportModalResult)
        requires
            old(self).wf(),
        ensures
            final(self).wf(),
            final(self)@ == finished(old(self)@),
            if can_export_spec(old(self)@.configuration) {
                (r matches ExportModalResult::Export { configuration } && configuration@ == final(self)@.configuration)
            } else {
                r is Consumed
            },
    {
        let ok = self.can_export();
        self.finish_numeric();
        if ok {
            ExportModalResult::Export { configuration: self.configuration.snapshot() }
        } else {
            ExportModalResult::Consumed
        }
    }

    /// Navigation entry `index`: commits the dimension being typed and shows
    /// its page.
    pub fn select_page(&mut self, index: usize)
        requires
            old(self).wf(),
        ensures
            final(self).wf(),
            final(self)@ == (ExportModalView {
                page: page_for_index_spec(index as int),
                ..finished(old(self)@)
            }),
    {
        self.finish_numeric();
        self.page = page_for_index(index);
    }

    /// A click on `part` of language row `row` (rows past the last one do
    /// nothing).
    pub fn press_language(&mut self, row: usize, part: LanguageRowPart)
        requires
            old(self).wf(),
        ensures
            final(self).wf(),
            final(self)@ == if row < old(self)@.languages.len() {
                ExportModalView {
                    configuration: language_row_result(
                        old(self)@.configuration,
                        old(self)@.languages[row as int],
                        part,
                    ),
                    ..old(self)@
                }
            } else {
                old(self)@
            },
    {
        if row >= self.languages.len() {
            return;
        }
        let id = self.languages[row].id;
        let has_instrumental = self.languages[row].has_instrumental;
        match part {
            LanguageRowPart::Row => self.toggle_language(id),
            LanguageRowPart::Original => self.toggle_language_audio(id, false, true),
            LanguageRowPart::Instrumental => self.toggle_language_audio(id, true, has_instrumental),
        }
    }

    /// A click on a video-page control: commits the dimension being typed,
    /// then applies the control.
    #[verifier::rlimit(50)]
    pub fn press_video(&mut self, control: VideoControl)
        requires
            old(self).wf(),
        ensures
            final(self).wf(),
            final(self)@ == video_control_result(finished(old(self)@), control),
    {
        self.finish_numeric();
        match control {
            VideoControl::ToggleVideo => {
                self.configuration.video_enabled = !self.configuration.video_enabled;
            },
            VideoControl::Aspect(a) => {
                self.configuration.video_aspect = a;
            },
            VideoControl::Quality(q) => {
                self.configuration.video_quality = q;
            },
            VideoControl::EditWidth => {
                if self.configuration.video_quality == VideoExportQuality::Custom {
                    self.begin_numeric(NumericField::Width);
                }
            },
            VideoControl::EditHeight => {
                if self.configuration.video_quality == VideoExportQuality::Custom {
                    self.begin_numeric(NumericField::Height);
                }
            },
            VideoControl::ToggleCountdown => {
                self.configuration.countdown_enabled = !self.configuration.countdown_enabled;
            },
            VideoControl::CountdownMinus => {
                if self.configuration.countdown_enabled {
                    let s = self.configuration.countdown_start;
                    self.configuration.countdown_start = if s <= 2 {
                        1
                    } else {
                        s - 1
                    };
                }
            },
            VideoControl::CountdownPlus => {
                if self.configuration.countdown_enabled {
                    let s = self.configuration.countdown_start;
                    self.configuration.countdown_start = if s >= 29 {
                        30
                    } else {
                        s + 1
                    };
                }
            },
        }
    }

    /// A click on format card `index` of the page shown: commits the
    /// dimension being typed, then flips that format.
    pub fn press_format(&mut self, index: usize)
        requires
            old(self).wf(),
        ensures
            final(self).wf(),
            final(self)@ == (ExportModalView {
                configuration: format_toggled(
                    finished(old(self)@).configuration,
                    old(self)@.page,
                    index as int,
                ),
                ..finished(old(self)@)
            }),
    {
        self.finish_numeric();
        let page = self.page;
        toggle_format_in(&mut self.configuration, page, index);
    }
}

/// Flips format card `index` of `page` in `c`.
fn toggle_format_in(c: &mut ExportConfiguration, page: ExportPage, index: usize)
    ensures
        final(c)@ == format_toggled(old(c)@, page, index as int),
{
    match page {
        ExportPage::Video => {},
        ExportPage::Subtitles => {
            let f = c.subtitle_formats;
            c.subtitle_formats = if index == 0 {
                SubtitleFormats { json: !f.json, ..f }
            } else if index == 1 {
                SubtitleFormats { srt: !f.srt, ..f }
            } else if index == 2 {
                SubtitleFormats { ass: !f.ass, ..f }
            } else if index == 3 {
                SubtitleFormats { detx: !f.detx, ..f }
            } else {
                f
            };
        },
        ExportPage::Audio => {
            let f = c.audio_formats;
            c.audio_formats = if index == 0 {
                AudioFormats { mp3: !f.mp3, ..f }
            } else if index == 1 {
                AudioFormats { wav: !f.wav, ..f }
            } else if index == 2 {
                AudioFormats { bwf_stems: !f.bwf_stems, ..f }
            } else {
                f
            };
        },
        ExportPage::Reports => {
            let f = c.cross_reference_formats;
            if index == 0 {
                c.cross_reference_formats = CrossReferenceFormats { csv: !f.csv, ..f };
            } else if index == 1 {
                c.cross_reference_formats = CrossReferenceFormats { pdf: !f.pdf, ..f };
            } else if index == 2 {
                c.presence_grid_pdf = !c.presence_grid_pdf;
            }
        },
    }
}

/// Whether `text` is exactly `s`.
fn str_is(text: &str, s: &str) -> (r: bool)
    ensures
        r == (text@ == s@),
{
    let a = owned(text);
    let b = owned(s);
    a == b
}

/// Whether every character of `text` is an ASCII digit.
fn str_all_digits(text: &str) -> (r: bool)
    ensures
        r == all_digits(text@),
{
    let n = text.unicode_len();
    let mut i: usize = 0;
    while i < n
        invariant
            n == text@.len(),
            i <= n,
            forall|j: int| 0 <= j < i ==> '0' <= #[trigger] text@[j] <= '9',
        decreases n - i,
    {
        let c = text.get_char(i);
        if !('0' <= c && c <= '9') {
            return false;
        }
        i = i + 1;
    }
    true
}

pub(crate) proof fn lemma_decimal_digits(n: nat)
    ensures
        all_digits(decimal(n)),
    decreases n,
{
    if n >= 10 {
        lemma_decimal_digits(n / 10);
        let d = decimal(n / 10);
        let s = d + seq![digit_char_spec((n % 10) as int)];
        assert forall|i: int| 0 <= i < s.len() implies '0' <= #[trigger] s[i] <= '9' by {
            if i < d.len() {
                assert(s[i] == d[i]);
            }
        }
    }
}

/// Keeping at least one mix chosen: a click never leaves a language with
/// neither its original nor its instrumental mix.
pub proof fn lemma_toggled_audio_keeps_a_mix(sel: AudioSelection, instrumental: bool, available: bool)
    requires
        sel.original || sel.instrumental,
    ensures
        toggled_audio(sel, instrumental, available).original || toggled_audio(
            sel,
            instrumental,
            available,
        ).instrumental,
{
}

/// A click on a language never empties a non-empty selection.
pub proof fn lemma_toggled_languages_not_empty(s: Seq<u64>, id: u64)
    requires
        s.len() > 0,
    ensures
        toggled_languages(s, id).len() > 0,
{
    lemma_first_pos(s, id);
}

/// Two clicks on a language that was not selected leave the selection as
/// it was.
pub proof fn lemma_toggle_language_twice(s: Seq<u64>, id: u64)
    requires
        !s.contains(id),
        s.len() > 0,
    ensures
        toggled_languages(toggled_languages(s, id), id) == s,
{
    let t = s.push(id);
    assert(t[s.len() as int] == id);
    lemma_first_pos(t, id);
    let k = first_pos(t, id);
    if k < s.len() {
        assert(s[k] == id);
        assert(false);
    }
    assert(t.remove(k) =~= s);
}

/// A committed dimension is even and within 16 to 8192.
pub proof fn lemma_committed_dimension_bounds(text: Seq<char>, fallback: u32)
    ensures
        16 <= committed_dimension(text, fallback) <= 8192,
        committed_dimension(text, fallback) % 2 == 0,
{
}

proof fn lemma_even_round_at_least(long: int, short: int, s: int)
    requires
        short > 0,
        long >= short,
        s >= 0,
        s % 2 == 0,
    ensures
        even_round(long * s, short) >= s,
{
    let k = s / 2;
    assert(s == 2 * k);
    assert(long * s + short >= (2 * short) * k) by (nonlinear_arith)
        requires
            long >= short,
            short > 0,
            s == 2 * k,
            k >= 0,
    ;
    assert((long * s + short) / (2 * short) >= k) by (nonlinear_arith)
        requires
            long * s + short >= (2 * short) * k,
            short > 0,
    ;
}

/// A fixed resolution class sets the short side of the output: 720 pixels
/// for 720p, 1080 for 1080p, 1440 for 1440p and 4320 for 8K, whatever the
/// aspect and the source; the long side is at least as long.
pub proof fn lemma_fixed_class_short_side(
    aspect: VideoExportAspect,
    quality: VideoExportQuality,
    custom_width: int,
    custom_height: int,
    sw: int,
    sh: int,
)
    requires
        sw > 0,
        sh > 0,
        quality != VideoExportQuality::Custom,
    ensures
        ({
            let (w, h) = video_dimensions(aspect, quality, custom_width, custom_height, sw, sh);
            let short = if w <= h { w } else { h };
            let long = if w <= h { h } else { w };
            &&& quality == VideoExportQuality::P720 ==> short == 720
            &&& quality == VideoExportQuality::P1080 ==> short == 1080
            &&& quality == VideoExportQuality::P1440 ==> short == 1440
            &&& quality == VideoExportQuality::P8k ==> short == 4320
            &&& long >= short
        }),
{
    let s = short_side(quality);
    assert(s == 720 || s == 1080 || s == 1440 || s == 4320);
    assert(s % 2 == 0);
    if sw >= sh {
        lemma_even_round_at_least(sw, sh, s);
    } else {
        lemma_even_round_at_least(sh, sw, s);
    }
}

} // verus!
