use coquerythmo_ui::event::{PointerKind, UiEvent};
use coquerythmo_ui::language_modal::{
    LanguageListItem, LanguageModal, LanguageModalResult, LanguageTarget, MediaExplorerData,
    MediaExplorerTab, MediaVideoItem, CLOSE_FOCUS, CONTENT_FOCUS,
};
use coquerythmo_ui::project::SyllableLanguage;

fn item(language: SyllableLanguage) -> LanguageListItem {
    LanguageListItem {
        id: 1,
        name: "English".into(),
        instrumental_audio_path: None,
        syllable_language: language,
    }
}

fn language_modal(language: SyllableLanguage) -> LanguageModal {
    let mut modal = LanguageModal::new(vec![item(language)], 1);
    modal.show_tab(MediaExplorerTab::RythmoBands);
    modal
}

fn key(text: &str) -> UiEvent {
    UiEvent::KeyInput { text: text.into() }
}

fn press() -> UiEvent {
    UiEvent::Pointer(PointerKind::MousePress)
}

fn two_videos() -> MediaExplorerData {
    let video = MediaVideoItem {
        name: "movie.mov".into(),
        path: "movie.mov".into(),
        summary: "1920 × 1080".into(),
        audio_summary: None,
    };
    MediaExplorerData {
        source: Some(video.clone()),
        proxy: Some(video),
        active_proxy: false,
        default_proxy: false,
        can_persist_default: true,
    }
}

#[test]
fn syllable_language_control_has_keyboard_and_pointer_parity() {
    let mut modal = language_modal(SyllableLanguage::French);
    for _ in 0..6 {
        modal.handle_event(&key("\t"), LanguageTarget::Card);
    }
    assert_eq!(modal.keyboard_focus(), CONTENT_FOCUS + 7);
    assert_eq!(
        modal.handle_event(&key("\r"), LanguageTarget::Card),
        LanguageModalResult::SetSyllableLanguage { id: 1, language: SyllableLanguage::English }
    );

    modal.refresh(vec![item(SyllableLanguage::English)], 1);
    // A press on the French option of the syllable-language control.
    assert_eq!(
        modal.handle_event(&press(), LanguageTarget::SyllableOption(0)),
        LanguageModalResult::SetSyllableLanguage { id: 1, language: SyllableLanguage::French }
    );
    assert_eq!(modal.keyboard_focus(), CONTENT_FOCUS + 7);
}

#[test]
fn tab_and_shift_tab_reach_the_syllable_control_deterministically() {
    let mut modal = language_modal(SyllableLanguage::French);
    modal.handle_event(&key("\u{b}"), LanguageTarget::Card);
    assert_eq!(modal.keyboard_focus(), MediaExplorerTab::Audios.index());
    modal.show_tab(MediaExplorerTab::RythmoBands);
    for _ in 0..6 {
        modal.handle_event(&key("\t"), LanguageTarget::Card);
    }
    assert_eq!(modal.keyboard_focus(), CONTENT_FOCUS + 7);
    assert_eq!(modal.keyboard_focus_role(), "radio group");
    assert!(modal.keyboard_focus_label().contains("Langue de découpe"));
}

#[test]
fn video_actions_separate_temporary_switch_from_persisted_default() {
    let mut modal = LanguageModal::with_media(vec![item(SyllableLanguage::French)], 1, two_videos());
    // A press on the "use" action of the proxy row.
    assert_eq!(
        modal.handle_event(&press(), LanguageTarget::VideoAction { row: 1, action: 0 }),
        LanguageModalResult::SwitchVideo { use_proxy: true }
    );
    // A press on its "make default" action.
    assert_eq!(
        modal.handle_event(&press(), LanguageTarget::VideoAction { row: 1, action: 1 }),
        LanguageModalResult::SetDefaultVideo { use_proxy: true }
    );

    modal.show_tab(MediaExplorerTab::Videos);
    assert_eq!(modal.keyboard_focus(), 0);
    assert_eq!(
        modal.handle_event(&UiEvent::CursorRight, LanguageTarget::Card),
        LanguageModalResult::Consumed
    );
    assert_eq!(modal.tab(), MediaExplorerTab::Audios);
}

#[test]
fn media_tab_order_includes_tabs_skips_disabled_actions_and_wraps() {
    let mut modal = LanguageModal::with_media(vec![item(SyllableLanguage::French)], 1, two_videos());

    for expected in [1, 2, CONTENT_FOCUS + 2] {
        modal.handle_event(&UiEvent::FocusNext, LanguageTarget::Card);
        assert_eq!(modal.keyboard_focus(), expected);
    }
    assert!(modal.keyboard_focus_label().contains("Vidéo originale"));
    assert!(modal.keyboard_focus_label().contains("Retirer"));
    assert_eq!(
        modal.handle_event(&key(" "), LanguageTarget::Card),
        LanguageModalResult::DeleteVideo { use_proxy: false }
    );

    modal.show_tab(MediaExplorerTab::Videos);
    assert_eq!(modal.keyboard_focus(), 0);
    modal.handle_event(&UiEvent::FocusPrevious, LanguageTarget::Card);
    assert_eq!(modal.keyboard_focus(), CLOSE_FOCUS);
    assert_eq!(modal.keyboard_focus_role(), "button");
}

#[test]
fn audio_tab_keeps_keyboard_focus_visible_and_skips_unavailable_remove() {
    let mut languages = Vec::new();
    for id in 1..=10 {
        languages.push(LanguageListItem {
            id,
            name: format!("Language {id}"),
            instrumental_audio_path: None,
            syllable_language: SyllableLanguage::French,
        });
    }
    let mut modal = LanguageModal::with_media(languages, 1, MediaExplorerData::default());
    modal.show_tab(MediaExplorerTab::Audios);

    for _ in 0..11 {
        modal.handle_event(&UiEvent::FocusNext, LanguageTarget::Card);
    }

    assert_eq!(modal.content_focus(), Some(9 * 2));
    assert!(modal.keyboard_focus_label().contains("Language 10"));
}

#[test]
fn band_name_editing_and_actions() {
    let mut modal = language_modal(SyllableLanguage::French);
    assert_eq!(modal.name_input(), "English");
    // A press on the name field selects it for replacement.
    modal.handle_event(&press(), LanguageTarget::NameField);
    modal.handle_event(&key("F"), LanguageTarget::Card);
    modal.handle_event(&key("r\u{7}"), LanguageTarget::Card);
    assert_eq!(modal.name_input(), "Fr");
    modal.handle_event(&key("\x08"), LanguageTarget::Card);
    assert_eq!(modal.name_input(), "F");
    modal.handle_event(&key(" x "), LanguageTarget::Card);
    assert_eq!(modal.name_input(), "F x ");
    assert_eq!(
        modal.handle_event(&press(), LanguageTarget::Action(0)),
        LanguageModalResult::Create { name: "F x".into() }
    );
    assert_eq!(
        modal.handle_event(&press(), LanguageTarget::Action(1)),
        LanguageModalResult::Rename { id: 1, name: "F x".into() }
    );
    // The only band cannot be deleted.
    assert_eq!(modal.handle_event(&press(), LanguageTarget::Action(4)), LanguageModalResult::Consumed);
    assert_eq!(modal.handle_event(&press(), LanguageTarget::Outside), LanguageModalResult::Close);
    assert_eq!(modal.handle_event(&key("\x1b"), LanguageTarget::Card), LanguageModalResult::Close);
}

#[test]
fn names_stop_at_eighty_characters() {
    let mut modal = language_modal(SyllableLanguage::French);
    modal.handle_event(&press(), LanguageTarget::NameField);
    modal.handle_event(&key(&"a".repeat(100)), LanguageTarget::Card);
    assert_eq!(modal.name_input().chars().count(), 80);
}

#[test]
fn list_arrows_move_the_selection() {
    let languages = vec![
        LanguageListItem { id: 4, name: "A".into(), instrumental_audio_path: Some("a.wav".into()), syllable_language: SyllableLanguage::French },
        LanguageListItem { id: 7, name: "B".into(), instrumental_audio_path: None, syllable_language: SyllableLanguage::Spanish },
    ];
    let mut modal = LanguageModal::new(languages, 99);
    assert_eq!(modal.selected_id(), 4);
    modal.show_tab(MediaExplorerTab::RythmoBands);
    modal.handle_event(&UiEvent::FocusNext, LanguageTarget::Card);
    assert_eq!(modal.content_focus(), Some(0));
    assert_eq!(modal.keyboard_focus_role(), "list box");
    modal.handle_event(&UiEvent::CursorDown, LanguageTarget::Card);
    modal.handle_event(&UiEvent::CursorDown, LanguageTarget::Card);
    assert_eq!(modal.selected_id(), 7);
    assert_eq!(modal.name_input(), "B");
    assert_eq!(modal.keyboard_selection_label(), Some("B".to_string()));
    modal.handle_event(&UiEvent::CursorUp, LanguageTarget::Card);
    assert_eq!(modal.selected_id(), 4);
    modal.show_tab(MediaExplorerTab::Audios);
    assert_eq!(
        modal.handle_event(&press(), LanguageTarget::AudioAction { index: 0, action: 1 }),
        LanguageModalResult::ClearInstrumental { id: 4 }
    );
    assert_eq!(
        modal.handle_event(&press(), LanguageTarget::AudioAction { index: 1, action: 1 }),
        LanguageModalResult::Consumed
    );
    assert_eq!(
        modal.handle_event(&key("\r"), LanguageTarget::Card),
        LanguageModalResult::Consumed
    );
}

#[test]
fn tab_then_shift_tab_returns_to_the_same_control() {
    let mut modal = LanguageModal::with_media(vec![item(SyllableLanguage::French)], 1, two_videos());
    let mut visited = Vec::new();
    for _ in 0..12 {
        let before = modal.keyboard_focus();
        modal.handle_event(&UiEvent::FocusNext, LanguageTarget::Card);
        visited.push(modal.keyboard_focus());
        modal.handle_event(&UiEvent::FocusPrevious, LanguageTarget::Card);
        assert_eq!(modal.keyboard_focus(), before);
        modal.handle_event(&UiEvent::FocusNext, LanguageTarget::Card);
    }
    assert!(visited.contains(&CLOSE_FOCUS));
    assert!(visited.contains(&0));
}
