use coquerythmo_ui::file_explorer::data::FileTreeData;
use coquerythmo_ui::file_explorer::rows::{
    flatten, group_content_range, set_metrics, ExpandedSet, GroupKind, Row, RowId,
};
use coquerythmo_ui::project::Project;

/// Whether each library video's file exists, in library order.
fn on_disk(project: &Project) -> Vec<bool> {
    project
        .media_library()
        .videos
        .iter()
        .map(|video| std::path::Path::new(&video.path).exists())
        .collect()
}

fn sample() -> FileTreeData {
    let mut project = Project::new();
    let source = project
        .add_media_video("Film", "C:/v/film.mp4", None, false)
        .unwrap();
    project
        .add_media_video("Proxy", "C:/v/p.mp4", Some(source), true)
        .unwrap();
    project.add_media_audio("Inst", "C:/a/i.wav").unwrap();
    project.create_language_named("English");
    FileTreeData::from_project(&project, "P", None, None, &on_disk(&project))
}

#[test]
fn collapsed_groups_show_only_root_and_headers() {
    let data = sample();
    let rows = flatten(&data, &ExpandedSet::default());
    assert_eq!(rows.len(), 4);
    assert_eq!(rows[0].id, RowId::Root);
    assert_eq!(rows[1].id, RowId::Group(GroupKind::Videos));
    assert_eq!(rows[2].id, RowId::Group(GroupKind::Bands));
    assert_eq!(rows[3].id, RowId::Group(GroupKind::Audios));
}

#[test]
fn expanded_videos_nest_proxies_under_source() {
    let data = sample();
    let expanded = ExpandedSet {
        videos: true,
        ..ExpandedSet::default()
    };
    let rows = flatten(&data, &expanded);
    let ids: Vec<RowId> = rows.iter().map(|r| r.id).collect();
    assert!(ids.contains(&RowId::Video(1)));
    assert!(ids.contains(&RowId::Video(2)));
    let source = rows.iter().find(|r| r.id == RowId::Video(1)).unwrap();
    let proxy = rows.iter().find(|r| r.id == RowId::Video(2)).unwrap();
    assert_eq!(source.depth, 2);
    assert_eq!(proxy.depth, 3);
    // proxy row must come directly after its source
    let source_index = ids.iter().position(|i| *i == RowId::Video(1)).unwrap();
    assert_eq!(ids[source_index + 1], RowId::Video(2));
}

#[test]
fn fully_expanded_lists_every_entry() {
    let data = sample();
    let rows = flatten(&data, &ExpandedSet::all_expanded());
    // root + 3 groups + 2 videos + 2 bands + 1 audio = 9
    assert_eq!(rows.len(), 9);
}

#[test]
fn set_metrics_are_one_based_within_visible_siblings() {
    let data = sample();
    let rows = flatten(&data, &ExpandedSet::all_expanded());
    let (position, size) = set_metrics(&rows, RowId::Root).unwrap();
    assert_eq!(position, 1);
    assert_eq!(size, 1);
    let (position, size) = set_metrics(&rows, RowId::Group(GroupKind::Bands)).unwrap();
    assert_eq!((position, size), (2, 3));
    assert!(set_metrics(&rows, RowId::Video(999)).is_none());
}

#[test]
fn group_content_ranges_stop_at_the_next_group_header() {
    let data = sample();
    let rows = flatten(&data, &ExpandedSet::all_expanded());
    let videos = group_content_range(&rows, GroupKind::Videos).unwrap();
    assert_eq!(videos, 2..4);
    let audios = group_content_range(&rows, GroupKind::Audios).unwrap();
    assert_eq!(audios, 8..9);
}

#[test]
fn proxy_metrics_count_only_the_proxies_of_the_same_source() {
    let data = sample();
    let rows = flatten(&data, &ExpandedSet::all_expanded());
    assert_eq!(set_metrics(&rows, RowId::Video(2)), Some((1, 1)));
    assert_eq!(set_metrics(&rows, RowId::Video(1)), Some((1, 1)));
    assert_eq!(set_metrics(&rows, RowId::Band(2)), Some((2, 2)));
    assert!(group_content_range(&rows[..1], GroupKind::Bands).is_none());
}

#[test]
fn toggling_a_group_changes_only_that_group() {
    let mut set = ExpandedSet::default();
    set.toggle(GroupKind::Bands);
    assert!(set.get(GroupKind::Bands));
    assert!(!set.get(GroupKind::Videos));
    assert!(!set.get(GroupKind::Audios));
    assert!(Row { id: RowId::Root, depth: 0 }.is_container());
    assert!(!Row { id: RowId::Band(1), depth: 2 }.is_container());
}
