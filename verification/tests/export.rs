use coquerythmo_ui::export::{
    parse_u32, resolve_video_dimensions, AudioSelection, ExportConfiguration,
    ExportLanguageOption, ExportModal, ExportModalResult, ExportPage, LanguageRowPart,
    NumericField, VideoControl, VideoExportAspect, VideoExportQuality,
};

fn languages() -> Vec<ExportLanguageOption> {
    vec![
        ExportLanguageOption { id: 1, name: "Français".into(), has_instrumental: false },
        ExportLanguageOption { id: 2, name: "English".into(), has_instrumental: true },
    ]
}

#[test]
fn dimensions_follow_aspect_and_quality() {
    let mut config = ExportConfiguration::default();
    config.video_quality = VideoExportQuality::P720;
    config.video_aspect = VideoExportAspect::Landscape16x9;
    assert_eq!(resolve_video_dimensions(&config, 1920, 1080), (1280, 720));
    config.video_aspect = VideoExportAspect::Portrait9x16;
    assert_eq!(resolve_video_dimensions(&config, 1920, 1080), (720, 1280));
}

#[test]
fn source_aspect_is_preserved() {
    let mut config = ExportConfiguration::default();
    config.video_quality = VideoExportQuality::P1080;
    assert_eq!(resolve_video_dimensions(&config, 2048, 858), (2578, 1080));
}

#[test]
fn portrait_source_scales_its_height() {
    let mut config = ExportConfiguration::default();
    config.video_quality = VideoExportQuality::P720;
    assert_eq!(resolve_video_dimensions(&config, 1080, 1920), (720, 1280));
    config.video_quality = VideoExportQuality::P8k;
    config.video_aspect = VideoExportAspect::Landscape16x9;
    assert_eq!(resolve_video_dimensions(&config, 10, 10), (7680, 4320));
}

#[test]
fn custom_quality_uses_the_configured_size() {
    let mut config = ExportConfiguration::default();
    config.video_quality = VideoExportQuality::Custom;
    config.custom_width = 1000;
    config.custom_height = 500;
    assert_eq!(resolve_video_dimensions(&config, 1920, 1080), (1000, 500));
}

#[test]
fn parse_matches_std() {
    for text in ["", "+", "+12", "0012", "4294967295", "4294967296", "-1", "1a", "99999999999"] {
        assert_eq!(parse_u32(text), text.parse::<u32>().ok(), "{text}");
    }
}

#[test]
fn opening_keeps_only_offered_languages() {
    let mut config = ExportConfiguration::default();
    config.selected_language_ids = vec![7, 2, 9];
    let modal = ExportModal::new(8, 900, languages(), config);
    assert_eq!(modal.configuration().selected_language_ids, vec![2]);
    assert_eq!(modal.source_size(), (16, 900));
    assert_eq!(modal.page(), ExportPage::Video);
    let ids: Vec<u64> = modal.configuration().audio_by_language.iter().map(|e| e.id).collect();
    assert_eq!(ids, vec![1, 2]);
    assert!(modal.configuration().audio_by_language.iter().all(|e| e.selection
        == AudioSelection { original: true, instrumental: false }));
}

#[test]
fn opening_with_nothing_selected_selects_every_language() {
    let mut config = ExportConfiguration::default();
    config.selected_language_ids = vec![42];
    let modal = ExportModal::new(1920, 1080, languages(), config);
    assert_eq!(modal.configuration().selected_language_ids, vec![1, 2]);
}

#[test]
fn the_last_language_cannot_be_deselected() {
    let modal_config = ExportConfiguration::default();
    let mut modal = ExportModal::new(1920, 1080, languages(), modal_config);
    modal.toggle_language(1);
    assert_eq!(modal.configuration().selected_language_ids, vec![2]);
    modal.toggle_language(2);
    assert_eq!(modal.configuration().selected_language_ids, vec![2]);
    modal.toggle_language(1);
    assert_eq!(modal.configuration().selected_language_ids, vec![2, 1]);
}

#[test]
fn a_language_keeps_at_least_one_mix() {
    let mut modal = ExportModal::new(1920, 1080, languages(), ExportConfiguration::default());
    modal.press_language(0, LanguageRowPart::Original);
    assert_eq!(
        modal.configuration().audio_by_language[0].selection,
        AudioSelection { original: true, instrumental: false }
    );
    modal.press_language(0, LanguageRowPart::Instrumental);
    assert_eq!(
        modal.configuration().audio_by_language[0].selection,
        AudioSelection { original: true, instrumental: false }
    );
    modal.press_language(1, LanguageRowPart::Instrumental);
    modal.press_language(1, LanguageRowPart::Original);
    assert_eq!(
        modal.configuration().audio_by_language[1].selection,
        AudioSelection { original: false, instrumental: true }
    );
    modal.press_language(5, LanguageRowPart::Row);
    assert_eq!(modal.configuration().selected_language_ids, vec![1, 2]);
}

#[test]
fn typed_custom_width_is_clamped_and_even() {
    let mut config = ExportConfiguration::default();
    config.video_quality = VideoExportQuality::Custom;
    let mut modal = ExportModal::new(1920, 1080, languages(), config);
    modal.press_video(VideoControl::EditWidth);
    assert_eq!(modal.numeric_edit().0, Some(NumericField::Width));
    assert_eq!(modal.numeric_edit().1, "1920");
    assert!(modal.handle_numeric_key("7"));
    assert!(modal.handle_numeric_key("7"));
    assert!(modal.handle_numeric_key("x"));
    assert_eq!(modal.numeric_edit().1, "77");
    assert!(modal.handle_numeric_key("\x08"));
    assert!(modal.handle_numeric_key("3"));
    assert!(matches!(modal.handle_key("\r"), ExportModalResult::Consumed));
    assert_eq!(modal.configuration().custom_width, 74);
    assert_eq!(modal.numeric_edit().0, None);
    modal.press_video(VideoControl::EditHeight);
    modal.handle_numeric_key("99999");
    modal.handle_numeric_key("1");
    modal.finish_numeric();
    assert_eq!(modal.configuration().custom_height, 8192);
    modal.press_video(VideoControl::EditHeight);
    modal.handle_numeric_key("3");
    modal.finish_numeric();
    assert_eq!(modal.configuration().custom_height, 16);
    assert!(!modal.handle_numeric_key("5"));
}

#[test]
fn keys_close_and_export() {
    let mut modal = ExportModal::new(1920, 1080, languages(), ExportConfiguration::default());
    assert!(matches!(modal.handle_key("\r"), ExportModalResult::Export { .. }));
    assert!(matches!(modal.handle_key("\x1b"), ExportModalResult::Close { .. }));
    modal.press_video(VideoControl::ToggleVideo);
    assert!(!modal.can_export());
    assert!(matches!(modal.handle_key("\n"), ExportModalResult::Consumed));
    modal.select_page(2);
    assert_eq!(modal.page(), ExportPage::Audio);
    modal.press_format(1);
    assert!(modal.configuration().audio_formats.wav);
    assert!(matches!(modal.press_export(), ExportModalResult::Export { .. }));
}

#[test]
fn countdown_stays_between_one_and_thirty() {
    let mut modal = ExportModal::new(1920, 1080, languages(), ExportConfiguration::default());
    modal.press_video(VideoControl::CountdownPlus);
    assert_eq!(modal.configuration().countdown_start, 3);
    modal.press_video(VideoControl::ToggleCountdown);
    for _ in 0..40 {
        modal.press_video(VideoControl::CountdownPlus);
    }
    assert_eq!(modal.configuration().countdown_start, 30);
    for _ in 0..40 {
        modal.press_video(VideoControl::CountdownMinus);
    }
    assert_eq!(modal.configuration().countdown_start, 1);
}
