use coquerythmo_ui::comic_dubs_settings::{
    adjust_duration, ComicDubsSettingsModal, SettingsStep, SettingsTarget,
};
use coquerythmo_ui::event::{PointerKind, UiEvent};
use coquerythmo_ui::font_dropdown::FontDropdownHit;

fn nowhere() -> FontDropdownHit {
    FontDropdownHit { on_trigger: false, list_row: None, scroll_up: false, scroll_step: 1 }
}

fn key(text: &str) -> UiEvent {
    UiEvent::KeyInput { text: text.into() }
}

#[test]
fn durations_move_in_250_ms_steps_and_stay_bounded() {
    assert_eq!(adjust_duration(250, -1), 0);
    assert_eq!(adjust_duration(250, 1), 500);
    assert_eq!(adjust_duration(60_000, 1), 60_000);
}

#[test]
fn durations_saturate_at_both_ends() {
    assert_eq!(adjust_duration(100, -1), 0);
    assert_eq!(adjust_duration(u64::MAX, 1), 60_000);
    assert_eq!(adjust_duration(59_900, 1), 60_000);
    assert_eq!(adjust_duration(1_000, 4), 2_000);
}

#[test]
fn focus_cycles_through_six_controls() {
    let mut modal = ComicDubsSettingsModal::new(vec!["Arial".into()], None, 3_000, 10_000);
    assert_eq!(modal.keyboard_focus_label(14), "Police, Police par défaut");
    assert_eq!(modal.handle_event(&key("\t"), nowhere(), SettingsTarget::Card), SettingsStep::Consumed);
    assert_eq!(modal.focus(), 1);
    assert_eq!(modal.keyboard_focus_label(14), "Durée d'une bulle, 3000 ms");
    modal.handle_event(&UiEvent::CursorRight, nowhere(), SettingsTarget::Card);
    assert_eq!(modal.durations(), (3_250, 10_000));
    modal.handle_event(&UiEvent::CursorDown, nowhere(), SettingsTarget::Card);
    modal.handle_event(&UiEvent::CursorLeft, nowhere(), SettingsTarget::Card);
    assert_eq!(modal.durations(), (3_250, 9_750));
    assert_eq!(modal.keyboard_focus_label(14), "Durée d'une page, 9750 ms");
    modal.handle_event(&UiEvent::CursorDown, nowhere(), SettingsTarget::Card);
    assert_eq!(modal.keyboard_focus_label(14), "Taille du texte par défaut, 14 px");
    assert_eq!(
        modal.handle_event(&UiEvent::CursorRight, nowhere(), SettingsTarget::Card),
        SettingsStep::FontSizeUp
    );
    modal.handle_event(&key("\t"), nowhere(), SettingsTarget::Card);
    assert_eq!(modal.keyboard_focus_label(14), "Enregistrer");
    assert_eq!(modal.handle_event(&key("\r"), nowhere(), SettingsTarget::Card), SettingsStep::Save);
    modal.handle_event(&key("\t"), nowhere(), SettingsTarget::Card);
    assert_eq!(modal.keyboard_focus_label(14), "Fermer");
    assert_eq!(modal.handle_event(&key(" "), nowhere(), SettingsTarget::Card), SettingsStep::Close);
    modal.handle_event(&key("\t"), nowhere(), SettingsTarget::Card);
    assert_eq!(modal.focus(), 0);
    modal.handle_event(&key("\u{b}"), nowhere(), SettingsTarget::Card);
    assert_eq!(modal.focus(), 5);
}

#[test]
fn the_focused_font_picker_takes_its_keys() {
    let mut modal = ComicDubsSettingsModal::new(vec!["Arial".into()], None, 3_000, 10_000);
    assert_eq!(modal.handle_event(&UiEvent::Activate, nowhere(), SettingsTarget::Card), SettingsStep::Consumed);
    assert!(modal.font().is_open());
    modal.handle_event(&UiEvent::CursorDown, nowhere(), SettingsTarget::Card);
    modal.handle_event(&UiEvent::Activate, nowhere(), SettingsTarget::Card);
    assert_eq!(modal.font().selected(), Some("Arial"));
    assert_eq!(modal.focus(), 0);
    assert_eq!(modal.keyboard_focus_label(14), "Police, Arial");
    // Escape with the list closed closes the dialog.
    assert_eq!(modal.handle_event(&key("\x1b"), nowhere(), SettingsTarget::Card), SettingsStep::Close);
}

#[test]
fn presses_step_durations_and_close() {
    let mut modal = ComicDubsSettingsModal::new(Vec::new(), None, 0, 60_000);
    let press = UiEvent::Pointer(PointerKind::MousePress);
    modal.handle_event(&press, nowhere(), SettingsTarget::Minus(1));
    modal.handle_event(&press, nowhere(), SettingsTarget::Plus(2));
    assert_eq!(modal.durations(), (0, 60_000));
    modal.handle_event(&press, nowhere(), SettingsTarget::Plus(1));
    assert_eq!(modal.durations(), (250, 60_000));
    assert_eq!(modal.handle_event(&press, nowhere(), SettingsTarget::Minus(3)), SettingsStep::FontSizeDown);
    assert_eq!(modal.handle_event(&press, nowhere(), SettingsTarget::SaveButton), SettingsStep::Save);
    assert_eq!(modal.handle_event(&press, nowhere(), SettingsTarget::Outside), SettingsStep::Close);
    assert_eq!(modal.handle_event(&press, nowhere(), SettingsTarget::CloseButton), SettingsStep::Close);
    let on_trigger = FontDropdownHit { on_trigger: true, ..nowhere() };
    modal.handle_event(&key("\t"), nowhere(), SettingsTarget::Card);
    assert_eq!(modal.handle_event(&press, on_trigger, SettingsTarget::Card), SettingsStep::Consumed);
    assert_eq!(modal.focus(), 0);
    assert!(modal.font().is_open());
}
