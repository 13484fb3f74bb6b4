use coquerythmo_ui::event::{EventResponse, UiAction, UiEvent};
use coquerythmo_ui::file_explorer::data::FileTreeData;
use coquerythmo_ui::file_explorer::drop::{drop_drag, drop_target_group, DropSite};
use coquerythmo_ui::file_explorer::rows::{AudioRowId, GroupKind, RowId};
use coquerythmo_ui::file_explorer::{captures_keyboard_event, remove_action};
use coquerythmo_ui::project::{MediaId, Project};

/// Whether each library video's file exists, in library order.
fn on_disk(project: &Project) -> Vec<bool> {
    project
        .media_library()
        .videos
        .iter()
        .map(|video| std::path::Path::new(&video.path).exists())
        .collect()
}

fn sample() -> (FileTreeData, MediaId, MediaId, u64, u64, MediaId) {
    let mut project = Project::new();
    let source = project
        .add_media_video("Source", "C:/videos/source.mp4", None, false)
        .unwrap();
    let second_video = project
        .add_media_video("Second", "C:/videos/second.mp4", None, false)
        .unwrap();
    let active_band = project.active_language_id();
    let second_band = project.create_language_named("English");
    let audio = project
        .add_media_audio("Instrumental", "C:/audio/inst.wav")
        .unwrap();
    (
        FileTreeData::from_project(&project, "Demo project", Some("C:/videos/source.mp4"), None, &on_disk(&project)),
        source,
        second_video,
        active_band,
        second_band,
        audio,
    )
}

#[test]
fn video_reordering_uses_the_videos_group_index() {
    let (data, source, second, ..) = sample();
    // Released near the top edge of the source row: before it, not on it.
    let site = DropSite {
        hit: Some(RowId::Video(source)),
        on_row_center: false,
        insertion: Some(Some(RowId::Video(source))),
    };

    let response = drop_drag(RowId::Video(second), site, &data);

    assert!(matches!(
        response,
        EventResponse::Action(UiAction::MediaReorderVideo { id, to_index })
            if id == second && to_index == 0
    ));
}

#[test]
fn reverse_audio_to_band_drag_assigns_the_audio_path() {
    let (data, _, _, _, band, audio) = sample();
    let audio_row = RowId::Audio(AudioRowId::Media(audio));
    let site = DropSite { hit: Some(audio_row), on_row_center: true, insertion: None };

    let response = drop_drag(RowId::Band(band), site, &data);

    assert!(matches!(
        response,
        EventResponse::Action(UiAction::SetLanguageInstrumentalAudioPath { id, path })
            if id == band && path == "C:/audio/inst.wav"
    ));
}

#[test]
fn audio_dropped_on_a_band_assigns_it() {
    let (data, _, _, band, _, audio) = sample();
    let site = DropSite { hit: Some(RowId::Band(band)), on_row_center: true, insertion: None };
    assert_eq!(
        drop_drag(RowId::Audio(AudioRowId::Media(audio)), site, &data),
        EventResponse::Action(UiAction::SetLanguageInstrumentalAudioPath {
            id: band,
            path: "C:/audio/inst.wav".to_string(),
        })
    );
    let unknown = DropSite { hit: Some(RowId::Audio(AudioRowId::Media(999))), ..site };
    assert_eq!(drop_drag(RowId::Band(band), unknown, &data), EventResponse::Consumed);
}

#[test]
fn video_dropped_on_the_middle_of_another_becomes_its_proxy() {
    let (data, source, second, ..) = sample();
    let site = DropSite {
        hit: Some(RowId::Video(source)),
        on_row_center: true,
        insertion: Some(Some(RowId::Video(second))),
    };
    assert_eq!(
        drop_drag(RowId::Video(second), site, &data),
        EventResponse::Action(UiAction::MediaVideoAssociateProxy { proxy_id: second, source_id: source })
    );
    // A video cannot become its own proxy: it moves instead.
    assert_eq!(
        drop_drag(RowId::Video(source), site, &data),
        EventResponse::Action(UiAction::MediaReorderVideo { id: source, to_index: 1 })
    );
}

#[test]
fn drops_after_the_last_row_move_to_the_end() {
    let (data, _, second, active, _, audio) = sample();
    let end = DropSite { hit: None, on_row_center: false, insertion: Some(None) };
    assert_eq!(
        drop_drag(RowId::Video(second), end, &data),
        EventResponse::Action(UiAction::MediaReorderVideo { id: second, to_index: 2 })
    );
    assert_eq!(
        drop_drag(RowId::Band(active), end, &data),
        EventResponse::Action(UiAction::LanguageReorder { id: active, to_index: 2 })
    );
    // The virtual original-video audio does not count among stored audios.
    assert_eq!(
        drop_drag(RowId::Audio(AudioRowId::Media(audio)), end, &data),
        EventResponse::Action(UiAction::MediaReorderAudio { id: audio, to_index: 1 })
    );
    let before_audio = DropSite { insertion: Some(Some(RowId::Audio(AudioRowId::Media(audio)))), ..end };
    assert_eq!(
        drop_drag(RowId::Audio(AudioRowId::Media(audio)), before_audio, &data),
        EventResponse::Action(UiAction::MediaReorderAudio { id: audio, to_index: 0 })
    );
}

#[test]
fn drops_outside_the_group_or_of_fixed_rows_do_nothing() {
    let (data, _, second, ..) = sample();
    let outside = DropSite { hit: None, on_row_center: false, insertion: None };
    assert_eq!(drop_drag(RowId::Video(second), outside, &data), EventResponse::Consumed);
    let end = DropSite { insertion: Some(None), ..outside };
    assert_eq!(drop_drag(RowId::Root, end, &data), EventResponse::Consumed);
    assert_eq!(drop_drag(RowId::Group(GroupKind::Videos), end, &data), EventResponse::Consumed);
    assert_eq!(
        drop_drag(RowId::Audio(AudioRowId::OriginalVideo), end, &data),
        EventResponse::Consumed
    );
}

#[test]
fn os_file_drops_target_the_media_group_of_the_row() {
    assert_eq!(drop_target_group(true, Some(RowId::Video(3))), Some(GroupKind::Videos));
    assert_eq!(
        drop_target_group(true, Some(RowId::Audio(AudioRowId::OriginalVideo))),
        Some(GroupKind::Audios)
    );
    assert_eq!(
        drop_target_group(true, Some(RowId::Group(GroupKind::Bands))),
        Some(GroupKind::Bands)
    );
    assert_eq!(drop_target_group(true, Some(RowId::Band(1))), Some(GroupKind::Bands));
    assert_eq!(drop_target_group(true, Some(RowId::Root)), None);
    assert_eq!(drop_target_group(true, None), None);
    assert_eq!(drop_target_group(false, Some(RowId::Video(3))), None);
}

#[test]
fn the_open_tree_captures_navigation_keys_only() {
    assert!(captures_keyboard_event(true, &UiEvent::CursorDown));
    assert!(captures_keyboard_event(true, &UiEvent::KeyInput { text: "a".into() }));
    assert!(captures_keyboard_event(true, &UiEvent::Delete));
    assert!(!captures_keyboard_event(true, &UiEvent::Copy));
    assert!(!captures_keyboard_event(false, &UiEvent::CursorDown));
}

#[test]
fn removable_rows() {
    assert_eq!(remove_action(RowId::Video(4)), Some(UiAction::MediaVideoRemove { id: 4 }));
    assert_eq!(
        remove_action(RowId::Audio(AudioRowId::Media(5))),
        Some(UiAction::MediaAudioRemove { id: 5 })
    );
    assert_eq!(remove_action(RowId::Band(6)), Some(UiAction::DeleteLanguage { id: 6 }));
    assert_eq!(remove_action(RowId::Audio(AudioRowId::OriginalVideo)), None);
    assert_eq!(remove_action(RowId::Root), None);
}
