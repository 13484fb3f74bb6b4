use coquerythmo_ui::icons::{
    atlas_layout, compose_atlas, flip_horizontal, AtlasEntry, AtlasEntryKind, ICON_SIZE,
};

fn entry(name: &str, width: u32, height: u32) -> AtlasEntry {
    AtlasEntry { name: name.to_string(), kind: AtlasEntryKind::Svg, width, height, flip_h: false }
}

#[test]
fn entry_constructors_set_sizes() {
    let pause = AtlasEntry::svg("pause");
    assert_eq!((pause.width, pause.height, pause.flip_h), (32, 32, false));
    let next = AtlasEntry::flipped_svg("next_frame");
    assert_eq!((next.width, next.height, next.flip_h), (32, 32, true));
    let labial = AtlasEntry::stretchable_svg("detection/labial");
    assert_eq!((labial.width, labial.height), (512, 64));
    let lips = AtlasEntry::rhubarb_png("detection/rhubarb_lips/AA");
    assert_eq!((lips.width, lips.height, lips.kind), (128, 128, AtlasEntryKind::Png));
}

#[test]
fn icons_are_placed_left_to_right() {
    let entries = vec![
        AtlasEntry::svg("pause"),
        AtlasEntry::flipped_svg("next_frame"),
        AtlasEntry::stretchable_svg("detection/labial"),
        AtlasEntry::rhubarb_png("detection/rhubarb_lips/AA"),
    ];
    let layout = atlas_layout(&entries);
    assert_eq!(layout.width, 32 + 32 + 512 + 128);
    assert_eq!(layout.height, 128);
    assert_eq!(layout.position_of("pause"), Some((0, 0, 32, 32)));
    assert_eq!(layout.position_of("next_frame"), Some((32, 0, 32, 32)));
    assert_eq!(layout.position_of("detection/labial"), Some((64, 0, 512, 64)));
    assert_eq!(layout.position_of("detection/rhubarb_lips/AA"), Some((576, 0, 128, 128)));
    assert_eq!(layout.position_of("missing"), None);
}

#[test]
fn an_empty_atlas_keeps_an_icon_height() {
    let layout = atlas_layout(&vec![]);
    assert_eq!(layout.width, 0);
    assert_eq!(layout.height, ICON_SIZE);
}

#[test]
fn a_repeated_name_finds_the_last_icon() {
    let layout = atlas_layout(&vec![entry("a", 4, 4), entry("a", 2, 2)]);
    assert_eq!(layout.position_of("a"), Some((4, 0, 2, 2)));
}

#[test]
fn composing_copies_each_icon_to_its_columns() {
    let layout = atlas_layout(&vec![entry("wide", 2, 1), entry("tall", 1, 2)]);
    assert_eq!((layout.width, layout.height), (3, 2));
    let wide = vec![1, 2, 3, 4, 5, 6, 7, 8];
    let tall = vec![10, 11, 12, 13, 20, 21, 22, 23];
    let atlas = compose_atlas(&layout, &vec![wide, tall]);
    assert_eq!(
        atlas,
        vec![
            1, 2, 3, 4, 5, 6, 7, 8, 10, 11, 12, 13, //
            0, 0, 0, 0, 0, 0, 0, 0, 20, 21, 22, 23,
        ]
    );
}

#[test]
fn flipping_mirrors_rows_and_twice_restores() {
    let original = vec![
        1, 1, 1, 1, 2, 2, 2, 2, 3, 3, 3, 3, //
        4, 4, 4, 4, 5, 5, 5, 5, 6, 6, 6, 6,
    ];
    let mut pixels = original.clone();
    flip_horizontal(&mut pixels, 3, 2);
    assert_eq!(
        pixels,
        vec![
            3, 3, 3, 3, 2, 2, 2, 2, 1, 1, 1, 1, //
            6, 6, 6, 6, 5, 5, 5, 5, 4, 4, 4, 4,
        ]
    );
    flip_horizontal(&mut pixels, 3, 2);
    assert_eq!(pixels, original);
}
