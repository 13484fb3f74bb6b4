use coquerythmo_ui::event::{PointerKind, UiEvent};
use coquerythmo_ui::font_dropdown::{FontDropdown, FontDropdownHit, FontLabelSlot};

fn nowhere() -> FontDropdownHit {
    FontDropdownHit { on_trigger: false, list_row: None, scroll_up: false, scroll_step: 1 }
}

fn on_trigger() -> FontDropdownHit {
    FontDropdownHit { on_trigger: true, ..nowhere() }
}

fn on_row(row: usize) -> FontDropdownHit {
    FontDropdownHit { list_row: Some(row), ..nowhere() }
}

fn press() -> UiEvent {
    UiEvent::Pointer(PointerKind::MousePress)
}

#[test]
fn dropdown_selects_a_visible_font_directly() {
    let mut dropdown = FontDropdown::new(vec!["Verdana".into(), "Arial".into()], None);
    // A press at (5, 5) lands on the 34 px trigger at the top.
    assert!(dropdown.handle_event(&press(), on_trigger()));
    // A press at (5, 75) lands on row 1 of the list, which starts 4 px
    // below the trigger and has 28 px rows: (75 - 38) / 28 = 1.
    assert!(dropdown.handle_event(&press(), on_row(1)));
    assert_eq!(dropdown.selected(), Some("Arial"));
}

#[test]
fn every_font_name_is_rendered_with_its_own_family() {
    let mut dropdown = FontDropdown::new(vec!["Arial".into()], None);
    dropdown.handle_event(&UiEvent::Activate, nowhere());
    let labels = dropdown.render("Default");
    assert!(labels
        .iter()
        .any(|label| label.text == "Arial" && label.family.as_deref() == Some("Arial")));
}

#[test]
fn fonts_are_sorted_case_insensitively_without_repeats() {
    let mut dropdown = FontDropdown::new(
        vec!["verdana".into(), "Arial".into(), "Courier".into(), "Arial".into(), "béton".into()],
        Some("Courier".into()),
    );
    dropdown.handle_event(&UiEvent::Activate, nowhere());
    let labels = dropdown.render("Default");
    let texts: Vec<&str> = labels[2..].iter().map(|l| l.text.as_str()).collect();
    assert_eq!(texts, vec!["Default", "Arial", "béton", "Courier", "verdana"]);
    // Opening hovers the selected font.
    assert!(labels[5].hovered && labels[5].selected);
    assert_eq!(labels[5].slot, FontLabelSlot::Item(3));
    assert_eq!(labels[1].text, "\u{25b2}");
    assert_eq!(labels[0].text, "Courier");
}

#[test]
fn keyboard_moves_and_chooses() {
    let mut dropdown = FontDropdown::new(vec!["A".into(), "B".into()], Some("B".into()));
    assert!(!dropdown.handle_event(&UiEvent::CursorDown, nowhere()));
    assert!(dropdown.handle_event(&UiEvent::KeyInput { text: " ".into() }, nowhere()));
    assert!(dropdown.is_open());
    // Opening hovers "B" (item 2); down stays on the last item.
    assert!(dropdown.handle_event(&UiEvent::CursorDown, nowhere()));
    assert!(dropdown.handle_event(&UiEvent::CursorUp, nowhere()));
    assert!(dropdown.handle_event(&UiEvent::KeyInput { text: "\r".into() }, nowhere()));
    assert!(!dropdown.is_open());
    assert_eq!(dropdown.selected(), Some("A"));
    assert_eq!(dropdown.selected_owned(), Some("A".to_string()));
    dropdown.handle_event(&UiEvent::Activate, nowhere());
    dropdown.handle_event(&UiEvent::CursorUp, nowhere());
    dropdown.handle_event(&UiEvent::Activate, nowhere());
    assert_eq!(dropdown.selected(), None);
    assert!(!dropdown.handle_event(&UiEvent::KeyInput { text: "\x1b".into() }, nowhere()));
}

#[test]
fn a_press_elsewhere_closes_the_list() {
    let mut dropdown = FontDropdown::new(vec!["A".into()], None);
    assert!(!dropdown.handle_event(&press(), nowhere()));
    dropdown.handle_event(&press(), on_trigger());
    assert!(dropdown.is_open());
    assert!(dropdown.handle_event(&press(), nowhere()));
    assert!(!dropdown.is_open());
    assert_eq!(dropdown.render("D").len(), 2);
}

#[test]
fn wheel_scrolls_within_the_list() {
    let fonts: Vec<String> = (0..20).map(|i| format!("Font {i:02}")).collect();
    let mut dropdown = FontDropdown::new(fonts, None);
    dropdown.handle_event(&UiEvent::Activate, nowhere());
    let wheel = UiEvent::Pointer(PointerKind::Scroll);
    let down = FontDropdownHit { list_row: Some(0), scroll_up: false, scroll_step: 100, ..nowhere() };
    assert!(dropdown.handle_event(&wheel, down));
    let labels = dropdown.render("D");
    assert_eq!(labels.len(), 9);
    assert_eq!(labels[2].slot, FontLabelSlot::Item(14));
    assert_eq!(labels[8].text, "Font 19");
    let up = FontDropdownHit { list_row: Some(0), scroll_up: true, scroll_step: 3, ..nowhere() };
    assert!(dropdown.handle_event(&wheel, up));
    assert_eq!(dropdown.render("D")[2].slot, FontLabelSlot::Item(11));
    assert!(dropdown.handle_event(&UiEvent::Pointer(PointerKind::MouseMove), on_row(2)));
    assert!(dropdown.render("D")[4].hovered);
    assert_eq!(dropdown.visible_rows(), 7);
}
