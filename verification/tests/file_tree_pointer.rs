use coquerythmo_ui::event::{AccessibilityEvent, EventResponse, UiAction};
use coquerythmo_ui::file_explorer::data::FileTreeData;
use coquerythmo_ui::file_explorer::{status_badges, BadgeKind};
use coquerythmo_ui::file_explorer::menu_keys::MenuState;
use coquerythmo_ui::file_explorer::rows::{AudioRowId, GroupKind, RowId};
use coquerythmo_ui::file_explorer::tree_keys::TreeNav;
use coquerythmo_ui::file_explorer::tree_pointer::{handle_menu_pointer, MenuHit, MenuPointer};
use coquerythmo_ui::project::{MediaId, Project};

/// Whether each library video's file exists, in library order.
fn on_disk(project: &Project) -> Vec<bool> {
    project
        .media_library()
        .videos
        .iter()
        .map(|video| std::path::Path::new(&video.path).exists())
        .collect()
}

fn sample() -> (FileTreeData, MediaId, u64) {
    let mut project = Project::new();
    let source = project.add_media_video("Source", "C:/videos/source.mp4", None, false).unwrap();
    project.add_media_video("Second", "C:/videos/second.mp4", None, false).unwrap();
    let second_band = project.create_language_named("English");
    project.add_media_audio("Instrumental", "C:/audio/inst.wav").unwrap();
    (
        FileTreeData::from_project(&project, "Demo project", Some("C:/videos/source.mp4"), None, &on_disk(&project)),
        source,
        second_band,
    )
}

#[test]
fn simple_band_click_selects_the_language_and_keeps_drag_available() {
    let (data, _, _) = sample();
    let band = data
        .bands
        .iter()
        .find(|band| !band.active)
        .expect("sample needs an inactive band")
        .id;
    let mut tree = TreeNav::new();

    let press = tree.press_row(RowId::Band(band), &data);

    assert!(matches!(
        press.response,
        EventResponse::Action(UiAction::SelectLanguage { id }) if id == band
    ));
    assert!(press.arm_drag);
    assert_eq!(tree.selected, Some(RowId::Band(band)));
}

#[test]
fn virtual_original_audio_can_be_selected_but_never_dragged_or_menued() {
    let (data, ..) = sample();
    let mut tree = TreeNav::new();
    let row = RowId::Audio(AudioRowId::OriginalVideo);

    let press = tree.press_row(row, &data);
    assert_eq!(press.response, EventResponse::Consumed);
    assert!(!press.arm_drag);
    assert_eq!(tree.selected, Some(row));

    assert_eq!(tree.context_press(row, &data), None);
    assert_eq!(tree.focused, Some(row));
}

#[test]
fn context_menu_pointer_click_reaches_its_action() {
    let (data, source, _) = sample();
    let mut tree = TreeNav::new();
    let mut menu = tree.context_press(RowId::Video(source), &data);
    assert!(menu.is_some());

    let response = handle_menu_pointer(
        &mut menu,
        MenuPointer::Press,
        MenuHit { submenu_row: None, menu_row: Some(0) },
        &data,
    );

    assert!(matches!(
        response,
        Some(EventResponse::Action(UiAction::MediaVideoUse { id })) if id == source
    ));
    assert!(menu.is_none());
}

#[test]
fn pressing_a_group_toggles_it_and_announces_it() {
    let (data, ..) = sample();
    let mut tree = TreeNav::new();
    let press = tree.press_row(RowId::Group(GroupKind::Videos), &data);
    assert!(!press.arm_drag);
    assert!(!tree.expanded.videos);
    assert!(matches!(
        press.response,
        EventResponse::Action(UiAction::Accessibility(AccessibilityEvent::ValueChanged { .. }))
    ));
    let press = tree.press_row(RowId::Video(1), &data);
    assert_eq!(press.response, EventResponse::Consumed);
    assert!(press.arm_drag);
}

#[test]
fn menu_pointer_moves_highlight_and_presses_elsewhere_close() {
    let (data, source, _) = sample();
    let mut menu = Some(MenuState { target: RowId::Video(source), index: 0, submenu: None, submenu_index: 0 });
    let moved = handle_menu_pointer(
        &mut menu,
        MenuPointer::Move,
        MenuHit { submenu_row: None, menu_row: Some(99) },
        &data,
    );
    assert_eq!(moved, Some(EventResponse::Consumed));
    let last = menu.unwrap().index;
    assert!(last > 0);
    assert_eq!(
        handle_menu_pointer(&mut menu, MenuPointer::Move, MenuHit { submenu_row: None, menu_row: None }, &data),
        None
    );
    assert_eq!(menu.unwrap().index, last);
    assert_eq!(
        handle_menu_pointer(&mut menu, MenuPointer::Press, MenuHit { submenu_row: None, menu_row: None }, &data),
        Some(EventResponse::Consumed)
    );
    assert!(menu.is_none());
    assert_eq!(
        handle_menu_pointer(&mut menu, MenuPointer::Press, MenuHit { submenu_row: None, menu_row: Some(0) }, &data),
        None
    );
}

#[test]
fn the_wheel_scrolls_one_row_within_the_rows() {
    let (data, ..) = sample();
    let mut tree = TreeNav::new();
    tree.scroll_wheel(true, 3, &data);
    assert_eq!(tree.scroll, 0);
    let rows = coquerythmo_ui::file_explorer::rows::flatten(&data, &tree.expanded).len();
    for _ in 0..rows + 5 {
        tree.scroll_wheel(false, 3, &data);
    }
    assert_eq!(tree.scroll, rows - 3);
    tree.scroll_wheel(true, 3, &data);
    assert_eq!(tree.scroll, rows - 4);
}

#[test]
fn status_badges_follow_the_row() {
    let mut project = Project::new();
    let source = project.add_media_video("Source", "C:/videos/source.mp4", None, false).unwrap();
    let proxy = project
        .add_media_video("A1 proxy", "C:/videos/a1-proxy.mp4", Some(source), true)
        .unwrap();
    project.set_default_video(Some(source)).unwrap();
    let audio = project.add_media_audio("Inst", "C:/audio/inst.wav").unwrap();
    let band = project.active_language_id();
    project.set_language_instrumental_audio_path(band, Some("C:/audio/inst.wav".to_string()));
    let data = FileTreeData::from_project(&project, "Demo", Some("C:/videos/source.mp4"), None, &on_disk(&project));

    let kinds = |row| status_badges(row, &data).iter().map(|b| b.kind).collect::<Vec<_>>();
    assert_eq!(kinds(RowId::Video(source)), vec![BadgeKind::Default, BadgeKind::HasProxy]);
    assert_eq!(kinds(RowId::Video(proxy)), vec![BadgeKind::Proxy]);
    let source_badges = status_badges(RowId::Video(source), &data);
    assert_eq!(source_badges[0].icon, "file-tree/default");
    assert_eq!(source_badges[0].tooltip, "par défaut");
    assert_eq!(source_badges[0].color, (255, 207, 92));

    let audio_badges = status_badges(RowId::Audio(AudioRowId::Media(audio)), &data);
    assert_eq!(audio_badges.len(), 1);
    assert_eq!(audio_badges[0].icon, "file-tree/rythmo-band");
    let audio_row = data.audio(AudioRowId::Media(audio)).unwrap();
    assert_eq!(audio_badges[0].tooltip, audio_row.instrumental_badge);
    assert!(status_badges(RowId::Root, &data).is_empty());
}
