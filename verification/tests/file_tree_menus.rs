use coquerythmo_ui::event::{AccessibilityEvent, EventResponse, UiAction, UiEvent};
use coquerythmo_ui::file_explorer::data::FileTreeData;
use coquerythmo_ui::file_explorer::rows::{AudioRowId, GroupKind, RowId};
use coquerythmo_ui::file_explorer::{
    can_associate_proxy, collapse_event, context_menu_items, group_label, parent_group,
    row_category, selection_event, submenu_items, SubmenuKind,
};
use coquerythmo_ui::project::{MediaId, Project, SyllableLanguage};

/// Whether each library video's file exists, in library order.
fn on_disk(project: &Project) -> Vec<bool> {
    project
        .media_library()
        .videos
        .iter()
        .map(|video| std::path::Path::new(&video.path).exists())
        .collect()
}

fn sample() -> (FileTreeData, MediaId, MediaId, u64, u64, MediaId) {
    let mut project = Project::new();
    let source = project
        .add_media_video("Source", "C:/videos/source.mp4", None, false)
        .unwrap();
    let second_video = project
        .add_media_video("Second", "C:/videos/second.mp4", None, false)
        .unwrap();
    let active_band = project.active_language_id();
    let second_band = project.create_language_named("English");
    let audio = project
        .add_media_audio("Instrumental", "C:/audio/inst.wav")
        .unwrap();
    (
        FileTreeData::from_project(
            &project,
            "Demo project",
            Some("C:/videos/source.mp4"),
            None,
            &on_disk(&project),
        ),
        source,
        second_video,
        active_band,
        second_band,
        audio,
    )
}

#[test]
fn instrumental_none_uses_the_clear_action_and_assigned_audio_is_checked() {
    let (mut data, _, _, active_band, _, audio) = sample();
    data.bands
        .iter_mut()
        .find(|band| band.id == active_band)
        .unwrap()
        .instrumental_audio_path = Some("C:/audio/inst.wav".into());

    let items = submenu_items(SubmenuKind::Instrumental, &data, RowId::Band(active_band));
    assert_eq!(items[1].label, "✓ Instrumental");
    assert!(matches!(
        &items[0].action,
        EventResponse::Action(UiAction::ClearLanguageInstrumentalAudio { id }) if *id == active_band
    ));
    assert_eq!(
        data.audio(AudioRowId::Media(audio)).unwrap().name,
        "Instrumental"
    );
}

#[test]
fn video_menu_offers_use_default_link_proxy_and_rename() {
    let (data, source, second, ..) = sample();
    let items = context_menu_items(RowId::Video(source), &data);
    let labels: Vec<&str> = items.iter().map(|i| i.label.as_str()).collect();
    assert_eq!(
        labels,
        vec![
            "Utiliser",
            "Définir par défaut",
            "Restaurer le lien",
            "Créer un proxy",
            "Associer en tant que proxy de ▸",
            "Renommer",
            "Retirer",
        ]
    );
    assert_eq!(items[0].action, EventResponse::Action(UiAction::MediaVideoUse { id: source }));
    assert_eq!(items[4].submenu, Some(SubmenuKind::AssociateProxyTo));
    let sources = submenu_items(SubmenuKind::AssociateProxyTo, &data, RowId::Video(source));
    assert_eq!(sources.len(), 1);
    assert_eq!(sources[0].label, "Second");
    assert_eq!(
        sources[0].action,
        EventResponse::Action(UiAction::MediaVideoAssociateProxy { proxy_id: source, source_id: second })
    );
    assert!(context_menu_items(RowId::Video(999), &data).is_empty());
    assert!(context_menu_items(RowId::Audio(AudioRowId::OriginalVideo), &data).is_empty());
    assert!(context_menu_items(RowId::Root, &data).is_empty());
}

#[test]
fn band_menu_and_syllable_submenu_mark_the_current_language() {
    let (data, _, _, active_band, _, _) = sample();
    let items = context_menu_items(RowId::Band(active_band), &data);
    assert_eq!(items.len(), 4);
    assert!(items[3].enabled);
    let syllables = submenu_items(SubmenuKind::SyllableLanguage, &data, RowId::Band(active_band));
    assert_eq!(syllables[0].label, "✓ Français");
    assert_eq!(syllables[1].label, "English");
    assert_eq!(syllables[2].label, "Español");
    assert_eq!(
        syllables[2].action,
        EventResponse::Action(UiAction::SetLanguageSyllableLanguage {
            id: active_band,
            language: SyllableLanguage::Spanish
        })
    );
    let group = context_menu_items(RowId::Group(GroupKind::Audios), &data);
    assert_eq!(group[0].action, EventResponse::Action(UiAction::AddMediaAudio));
}

#[test]
fn a_proxy_has_no_eligible_source_when_every_video_is_taken() {
    let mut project = Project::new();
    let source = project.add_media_video("S", "C:/s.mp4", None, false).unwrap();
    let proxy = project.add_media_video("P", "C:/p.mp4", Some(source), true).unwrap();
    let data = FileTreeData::from_project(&project, "P", None, None, &on_disk(&project));
    let items = submenu_items(SubmenuKind::AssociateProxyTo, &data, RowId::Video(proxy));
    assert_eq!(items.len(), 1);
    assert!(!items[0].enabled);
    assert_eq!(items[0].label, "Aucune vidéo éligible");
    let menu = context_menu_items(RowId::Video(proxy), &data);
    assert_eq!(menu[2].label, "Dissocier le proxy");
    let source_menu = context_menu_items(RowId::Video(source), &data);
    assert_eq!(source_menu[3].label, "Recréer le proxy");
    assert!(!can_associate_proxy(&data, proxy, source));
}

#[test]
fn helpers_name_groups_and_announce() {
    assert_eq!(group_label(GroupKind::Bands), "Bandes rythmo");
    assert_eq!(parent_group(RowId::Band(3)), Some(GroupKind::Bands));
    assert_eq!(parent_group(RowId::Root), None);
    assert_eq!(row_category(RowId::Group(GroupKind::Audios)), Some(GroupKind::Audios));
    assert_eq!(
        selection_event("x".into()),
        EventResponse::Action(UiAction::Accessibility(AccessibilityEvent::Selection {
            label: "x".into()
        }))
    );
    assert!(matches!(
        collapse_event(),
        EventResponse::Action(UiAction::Accessibility(AccessibilityEvent::Collapsed { .. }))
    ));
    assert!(coquerythmo_ui::event::keyboard_activation(&UiEvent::KeyInput { text: " ".into() }));
    assert!(!coquerythmo_ui::event::keyboard_activation(&UiEvent::KeyInput { text: "a".into() }));
    assert!(coquerythmo_ui::event::is_keyboard_event(&UiEvent::Home));
}
