use coquerythmo_ui::file_explorer::data::{paths_equal, FileTreeData};
use coquerythmo_ui::file_explorer::rows::{AudioRowId, GroupKind};
use coquerythmo_ui::project::Project;

/// Whether each library video's file exists, in library order.
fn on_disk(project: &Project) -> Vec<bool> {
    project
        .media_library()
        .videos
        .iter()
        .map(|video| std::path::Path::new(&video.path).exists())
        .collect()
}

#[test]
fn snapshot_marks_active_default_and_proxy_rows() {
    let mut project = coquerythmo_ui::project::Project::new();
    let source = project
        .add_media_video("Film", "C:/v/film.mp4", None, false)
        .unwrap();
    let proxy = project
        .add_media_video("Proxy", "C:/v/film_proxy.mp4", Some(source), true)
        .unwrap();
    project.set_default_video(Some(proxy)).unwrap();

    let data = FileTreeData::from_project(
        &project,
        "Projet",
        Some("C:/v/film.mp4"),
        Some("C:/v/film_proxy.mp4"),
        &on_disk(&project),
    );

    let source_row = data.videos.iter().find(|v| v.id == source).unwrap();
    assert!(!source_row.active);
    assert!(!source_row.default);
    let proxy_row = data.videos.iter().find(|v| v.id == proxy).unwrap();
    assert!(proxy_row.active);
    assert!(proxy_row.default);
    assert_eq!(proxy_row.proxy_of, Some(source));
    assert!(data.active_proxy);
}

#[test]
fn only_the_loaded_proxy_is_marked_active() {
    let mut project = coquerythmo_ui::project::Project::new();
    let source = project
        .add_media_video("Film", "C:/v/film.mp4", None, false)
        .unwrap();
    let proxy = project
        .add_media_video("Proxy", "C:/v/film_proxy.mp4", Some(source), true)
        .unwrap();

    let data = FileTreeData::from_project(
        &project,
        "Projet",
        Some("C:/v/film.mp4"),
        Some("C:/v/film_proxy.mp4"),
        &on_disk(&project),
    );

    assert!(!data.video(source).unwrap().active);
    assert!(data.video(proxy).unwrap().active);
}

#[test]
fn original_audio_row_is_virtual_and_first() {
    let project = coquerythmo_ui::project::Project::new();
    let data = FileTreeData::from_project(&project, "P", Some("C:/v/a.mp4"), None, &on_disk(&project));
    assert_eq!(
        data.audios.first().map(|a| a.id),
        Some(AudioRowId::OriginalVideo)
    );
    assert!(data.audios.first().unwrap().media_id.is_none());

    let empty = FileTreeData::from_project(&project, "P", None, None, &on_disk(&project));
    assert!(empty.audios.is_empty());
}

#[test]
fn instrumental_badges_match_band_paths() {
    let mut project = coquerythmo_ui::project::Project::new();
    let fr = project.active_language_id();
    let en = project.create_language_named("English");
    let audio = project.add_media_audio("Inst", "C:/a/inst.wav").unwrap();
    project.set_language_instrumental_audio_path(fr, Some("C:/a/inst.wav".into()));
    project.set_language_instrumental_audio_path(en, Some("C:/a/inst.wav".into()));

    let data = FileTreeData::from_project(&project, "P", None, None, &on_disk(&project));
    let row = data
        .audios
        .iter()
        .find(|a| a.id == AudioRowId::Media(audio))
        .unwrap();
    assert_eq!(row.instrumental_of.len(), 2);
    let owners = data.instrumental_owners("C:/a/inst.wav");
    assert_eq!(owners.len(), 2);
}

#[test]
fn the_badge_lists_every_owner_in_band_order() {
    let mut project = coquerythmo_ui::project::Project::new();
    let fr = project.active_language_id();
    let en = project.create_language_named("English");
    project.add_media_audio("Inst", "C:/a/inst.wav").unwrap();
    project.set_language_instrumental_audio_path(fr, Some("C:/a/inst.wav".into()));
    project.set_language_instrumental_audio_path(en, Some("C:/a/inst.wav".into()));
    let data = FileTreeData::from_project(&project, "P", None, None, &on_disk(&project));
    assert_eq!(data.audios[0].instrumental_badge, "Instrumental de: Français, English");
    assert_eq!(data.bands.len(), 2);
    assert!(data.bands[0].active);
    assert!(!data.bands[1].active);
    assert_eq!(data.bands[1].name, "English");
}

#[test]
fn proxy_endpoints_and_empty_groups() {
    let mut project = coquerythmo_ui::project::Project::new();
    let source = project.add_media_video("Film", "C:/v/f.mp4", None, false).unwrap();
    let proxy = project.add_media_video("P", "C:/v/p.mp4", Some(source), true).unwrap();
    let lone = project.add_media_video("L", "C:/v/l.mp4", None, false).unwrap();
    assert!(project.add_media_video("X", "C:/v/x.mp4", Some(999), false).is_err());
    assert!(project.set_default_video(Some(999)).is_err());
    let data = FileTreeData::from_project(&project, "P", Some("C:/v/f.mp4"), None, &on_disk(&project));
    assert!(!data.can_be_proxy_endpoint(source));
    assert!(!data.can_be_proxy_endpoint(proxy));
    assert!(data.can_be_proxy_endpoint(lone));
    assert!(data.video(source).unwrap().is_proxy_source);
    assert!(data.video(source).unwrap().active);
    assert!(!data.group_is_empty(GroupKind::Videos));
    assert!(data.group_is_empty(GroupKind::Audios));
    assert!(!data.group_is_empty(GroupKind::Bands));
    assert!(paths_equal("C:/a/b", "C:/a//b"));
    assert!(!paths_equal("C:/a/b", "C:/a/c"));
}

#[test]
fn videos_not_on_disk_are_marked_missing() {
    let mut project = coquerythmo_ui::project::Project::new();
    let gone = project
        .add_media_video("Gone", "/nonexistent/dir/gone.mp4", None, false)
        .unwrap();
    let data = FileTreeData::from_project(&project, "P", None, None, &on_disk(&project));
    assert!(data.video(gone).unwrap().missing);
}

#[test]
fn a_video_whose_file_exists_is_not_missing() {
    let mut project = Project::new();
    let here = project.add_media_video("Here", "C:/v/here.mp4", None, false).unwrap();
    let gone = project.add_media_video("Gone", "C:/v/gone.mp4", None, false).unwrap();
    let data = FileTreeData::from_project(&project, "P", None, None, &vec![true, false]);
    assert!(!data.video(here).unwrap().missing);
    assert!(data.video(gone).unwrap().missing);
}
