use coquerythmo_ui::event::{AccessibilityEvent, EventResponse, UiAction, UiEvent};
use coquerythmo_ui::file_explorer::data::FileTreeData;
use coquerythmo_ui::file_explorer::menu_keys::{handle_menu_keyboard, MenuState};
use coquerythmo_ui::file_explorer::rename::{
    eq_ignore_ascii_case, handle_rename_keyboard, target_name_of, RenameState,
};
use coquerythmo_ui::file_explorer::rows::{AudioRowId, GroupKind, RowId};
use coquerythmo_ui::file_explorer::tree_keys::{TreeKeyOutcome, TreeNav};
use coquerythmo_ui::file_explorer::{RenameTarget, SubmenuKind};
use coquerythmo_ui::project::{MediaId, Project};

/// Whether each library video's file exists, in library order.
fn on_disk(project: &Project) -> Vec<bool> {
    project
        .media_library()
        .videos
        .iter()
        .map(|video| std::path::Path::new(&video.path).exists())
        .collect()
}

fn sample() -> (FileTreeData, MediaId, MediaId, u64, u64, MediaId) {
    let mut project = Project::new();
    let source = project.add_media_video("Source", "C:/videos/source.mp4", None, false).unwrap();
    let second_video = project.add_media_video("Second", "C:/videos/second.mp4", None, false).unwrap();
    let active_band = project.active_language_id();
    let second_band = project.create_language_named("English");
    let audio = project.add_media_audio("Instrumental", "C:/audio/inst.wav").unwrap();
    (
        FileTreeData::from_project(&project, "Demo project", Some("C:/videos/source.mp4"), None, &on_disk(&project)),
        source,
        second_video,
        active_band,
        second_band,
        audio,
    )
}

fn key(text: &str) -> UiEvent {
    UiEvent::KeyInput { text: text.into() }
}

fn focus_label(outcome: &TreeKeyOutcome) -> String {
    match outcome {
        TreeKeyOutcome::Respond(EventResponse::Action(UiAction::Accessibility(
            AccessibilityEvent::Focus { label, role },
        ))) => {
            assert_eq!(role, "tree item");
            label.clone()
        }
        other => panic!("expected a focus announcement, got {other:?}"),
    }
}

#[test]
fn f2_and_deferred_rename_both_use_the_existing_label() {
    let (data, source, ..) = sample();
    let mut nav = TreeNav::new();
    // Selecting the source video row, as a press on it does.
    nav.selected = Some(RowId::Video(source));
    nav.focused = Some(RowId::Video(source));

    let outcome = nav.handle_tree_keyboard(&key("F2"), 10, &data);
    assert_eq!(outcome, TreeKeyOutcome::StartRename(RenameTarget::Video(source)));
    let target = RenameTarget::Video(source);
    let rename = RenameState::start(target.clone(), &target_name_of(&target, &data));
    assert_eq!(rename.buffer, "Source");

    let mut deferred = RenameState::begin(RenameTarget::Video(source), "");
    deferred.hydrate(&data);
    assert_eq!(deferred.buffer, "Source");
    // Typing "!" at the end of the field.
    deferred.buffer.push('!');
    let mut rename = Some(deferred);
    assert!(matches!(
        handle_rename_keyboard(&mut rename, &key("\r"), &data),
        Some(EventResponse::Action(UiAction::MediaVideoRename { id, name }))
            if id == source && name == "Source!"
    ));
    assert!(rename.is_none());
}

#[test]
fn renames_that_change_nothing_or_collide_are_dropped() {
    let (data, source, _, active_band, second_band, _) = sample();
    let unchanged = RenameState::start(RenameTarget::Video(source), "Source");
    assert_eq!(unchanged.finish(&data), EventResponse::Consumed);
    let mut blank = RenameState::start(RenameTarget::Video(source), "Source");
    blank.buffer = "   ".into();
    assert_eq!(blank.finish(&data), EventResponse::Consumed);
    let mut clash = RenameState::start(RenameTarget::Video(source), "Source");
    clash.buffer = " second ".into();
    assert_eq!(clash.finish(&data), EventResponse::Consumed);
    let mut band = RenameState::start(RenameTarget::Band(active_band), "Français");
    band.buffer = "  Deutsch ".into();
    assert!(matches!(
        band.finish(&data),
        EventResponse::Action(UiAction::RenameLanguage { id, name }) if id == active_band && name == "Deutsch"
    ));
    let mut band_clash = RenameState::start(RenameTarget::Band(second_band), "English");
    band_clash.buffer = "FRANÇAIS".into();
    // Only ASCII letters compare without case: "Ç" and "ç" differ.
    assert!(matches!(band_clash.finish(&data), EventResponse::Action(UiAction::RenameLanguage { .. })));
    assert!(eq_ignore_ascii_case("SoUrCe", "source"));
    assert!(!eq_ignore_ascii_case("Ç", "ç"));

    let mut rename = Some(RenameState::start(RenameTarget::Video(source), "Source"));
    assert!(matches!(
        handle_rename_keyboard(&mut rename, &key("\x1b"), &data),
        Some(EventResponse::Action(UiAction::Accessibility(AccessibilityEvent::Closed { .. })))
    ));
    assert!(rename.is_none());
    assert_eq!(handle_rename_keyboard(&mut rename, &key("a"), &data), None);
}

#[test]
fn accessible_proxy_label_contains_its_full_breadcrumb_and_states() {
    let mut project = Project::new();
    let source = project.add_media_video("Source", "C:/videos/source.mp4", None, false).unwrap();
    let proxy = project
        .add_media_video("A1 proxy", "C:/videos/a1-proxy.mp4", Some(source), true)
        .unwrap();
    project.set_default_video(Some(proxy)).unwrap();
    let data = FileTreeData::from_project(
        &project,
        "Demo",
        Some("C:/videos/source.mp4"),
        Some("C:/videos/a1-proxy.mp4"),
        &on_disk(&project),
    );
    let mut tree = TreeNav::new();
    tree.selected = Some(RowId::Video(proxy));

    let spoken = tree.accessibility_label(RowId::Video(proxy), &data);

    assert!(spoken.contains("Source"));
    assert!(spoken.contains("A1 proxy"));
    assert!(spoken.contains("par défaut"));
    assert!(spoken.contains("proxy"));
    assert!(spoken.contains("sélectionné"));
    assert!(spoken.contains("1 sur 1"));
}

#[test]
fn accessible_audio_label_names_its_instrumental_rythmo_band() {
    let mut project = Project::new();
    let french = project.active_language_id();
    project.rename_language(french, "Français");
    let audio = project.add_media_audio("Version instrumentale", "C:/audio/fr.wav").unwrap();
    project.set_language_instrumental_audio_path(french, Some("C:/audio/fr.wav".into()));
    let data = FileTreeData::from_project(&project, "Demo", None, None, &on_disk(&project));
    let tree = TreeNav::new();

    let spoken = tree.accessibility_label(RowId::Audio(AudioRowId::Media(audio)), &data);

    assert!(spoken.contains("Version instrumentale"));
    assert!(spoken.contains("Français"));
}

#[test]
fn arrows_walk_the_visible_rows_and_groups_fold() {
    let (data, source, second, active_band, second_band, _) = sample();
    let mut nav = TreeNav::new();
    let first = nav.handle_tree_keyboard(&UiEvent::CursorDown, 3, &data);
    assert_eq!(nav.focused, Some(RowId::Root));
    assert!(focus_label(&first).starts_with("Projet Demo project"));
    nav.handle_tree_keyboard(&UiEvent::CursorDown, 3, &data);
    assert_eq!(nav.focused, Some(RowId::Group(GroupKind::Videos)));
    let label = focus_label(&nav.handle_tree_keyboard(&UiEvent::CursorDown, 3, &data));
    assert_eq!(nav.focused, Some(RowId::Video(source)));
    assert!(label.contains("Vidéo Source"));
    nav.handle_tree_keyboard(&UiEvent::CursorDown, 3, &data);
    assert_eq!(nav.focused, Some(RowId::Video(second)));
    assert_eq!(nav.scroll, 1);
    // Left goes back to the group header; left again folds it.
    nav.handle_tree_keyboard(&UiEvent::CursorLeft, 3, &data);
    assert_eq!(nav.focused, Some(RowId::Group(GroupKind::Videos)));
    let folded = nav.handle_tree_keyboard(&UiEvent::CursorLeft, 3, &data);
    assert!(!nav.expanded.videos);
    assert!(matches!(
        folded,
        TreeKeyOutcome::Respond(EventResponse::Action(UiAction::Accessibility(
            AccessibilityEvent::ValueChanged { ref value, .. }
        ))) if value == "réduit"
    ));
    nav.handle_tree_keyboard(&UiEvent::CursorRight, 3, &data);
    assert!(nav.expanded.videos);
    nav.handle_tree_keyboard(&UiEvent::End, 3, &data);
    assert_eq!(nav.focused, Some(RowId::Audio(AudioRowId::Media(_audio(&data)))));
    nav.handle_tree_keyboard(&UiEvent::Home, 3, &data);
    assert_eq!(nav.focused, Some(RowId::Root));
    assert_eq!(nav.scroll, 0);

    nav.focused = Some(RowId::Band(second_band));
    assert_eq!(
        nav.handle_tree_keyboard(&key("\r"), 3, &data),
        TreeKeyOutcome::Respond(EventResponse::Action(UiAction::SelectLanguage { id: second_band }))
    );
    nav.focused = Some(RowId::Band(active_band));
    assert_eq!(nav.handle_tree_keyboard(&UiEvent::Activate, 3, &data), TreeKeyOutcome::Respond(EventResponse::Consumed));
    assert_eq!(
        nav.handle_tree_keyboard(&UiEvent::Delete, 3, &data),
        TreeKeyOutcome::Respond(EventResponse::Action(UiAction::DeleteLanguage { id: active_band }))
    );
    assert_eq!(nav.handle_tree_keyboard(&UiEvent::OpenContextMenu, 3, &data), TreeKeyOutcome::OpenContextMenu(RowId::Band(active_band)));
    assert_eq!(
        nav.handle_tree_keyboard(&key("\x1b"), 3, &data),
        TreeKeyOutcome::Respond(EventResponse::Action(UiAction::CloseFileTree))
    );
}

fn _audio(data: &FileTreeData) -> MediaId {
    match data.audios.last().unwrap().id {
        AudioRowId::Media(id) => id,
        AudioRowId::OriginalVideo => panic!("no media audio"),
    }
}

#[test]
fn context_menu_keys_move_open_submenus_and_choose() {
    let (data, _, _, active_band, _, _) = sample();
    let mut menu = Some(MenuState { target: RowId::Band(active_band), index: 0, submenu: None, submenu_index: 0 });
    // Band menu: Renommer, langue de découpe ▸, instrumental ▸, Supprimer.
    let announced = handle_menu_keyboard(&mut menu, &UiEvent::CursorDown, &data);
    assert!(matches!(
        announced,
        Some(EventResponse::Action(UiAction::Accessibility(AccessibilityEvent::Selection { ref label })))
            if label == "Définir la langue de découpe ▸"
    ));
    let opened = handle_menu_keyboard(&mut menu, &UiEvent::CursorRight, &data);
    assert!(matches!(opened, Some(EventResponse::Action(UiAction::Accessibility(AccessibilityEvent::Selection { .. })))));
    assert_eq!(menu.unwrap().submenu, Some(SubmenuKind::SyllableLanguage));
    handle_menu_keyboard(&mut menu, &UiEvent::CursorDown, &data);
    let chosen = handle_menu_keyboard(&mut menu, &UiEvent::Activate, &data);
    assert!(matches!(chosen, Some(EventResponse::Action(UiAction::SetLanguageSyllableLanguage { id, .. })) if id == active_band));
    assert!(menu.is_none());
    assert_eq!(handle_menu_keyboard(&mut menu, &UiEvent::CursorDown, &data), None);

    let mut menu = Some(MenuState { target: RowId::Band(active_band), index: 3, submenu: None, submenu_index: 0 });
    assert_eq!(
        handle_menu_keyboard(&mut menu, &key("\r"), &data),
        Some(EventResponse::Action(UiAction::DeleteLanguage { id: active_band }))
    );
    let mut menu = Some(MenuState { target: RowId::Band(active_band), index: 1, submenu: Some(SubmenuKind::Instrumental), submenu_index: 0 });
    assert!(matches!(
        handle_menu_keyboard(&mut menu, &key("\x1b"), &data),
        Some(EventResponse::Action(UiAction::Accessibility(AccessibilityEvent::Collapsed { .. })))
    ));
    assert_eq!(menu.unwrap().submenu, None);
}
