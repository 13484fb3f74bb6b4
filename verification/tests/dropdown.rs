use coquerythmo_ui::dropdown::{settle_response, Dropdown, DropdownHit, DropdownOutcome, DropdownState, SubmenuPos};
use coquerythmo_ui::event::{AccessibilityEvent, EventResponse, PointerKind, UiAction, UiEvent};

fn nowhere() -> DropdownHit {
    DropdownHit {
        in_bounds: false,
        in_panel: false,
        option: None,
        in_submenu_panel: false,
        submenu_item: None,
        in_remove_zone: false,
    }
}

fn on_trigger() -> DropdownHit {
    DropdownHit { in_bounds: true, ..nowhere() }
}

fn on_option(i: usize) -> DropdownHit {
    DropdownHit { in_panel: true, option: Some(i), ..nowhere() }
}

fn options() -> Vec<String> {
    vec!["Un".into(), "Deux".into(), "Trois".into(), "Quatre".into()]
}

fn announced(outcome: &DropdownOutcome) -> String {
    match outcome {
        DropdownOutcome::Respond(EventResponse::Action(UiAction::Accessibility(
            AccessibilityEvent::Selection { label },
        ))) => label.clone(),
        other => panic!("expected an announcement, got {other:?}"),
    }
}

#[test]
fn press_and_release_on_the_trigger_opens() {
    let mut dropdown = Dropdown::new(options());
    let press = UiEvent::Pointer(PointerKind::MousePress);
    let release = UiEvent::Pointer(PointerKind::MouseRelease);
    assert_eq!(dropdown.handle_event(&press, on_trigger()), DropdownOutcome::Respond(EventResponse::Consumed));
    assert_eq!(dropdown.trigger_state(), DropdownState::Pressed);
    dropdown.handle_event(&release, on_trigger());
    assert!(dropdown.is_open());
    assert_eq!(dropdown.handle_event(&release, on_option(2)), DropdownOutcome::Select(2));
    assert_eq!(dropdown.selected(), 2);
    assert!(!dropdown.is_open());
    assert_eq!(dropdown.handle_event(&press, nowhere()), DropdownOutcome::Respond(EventResponse::Ignored));
}

#[test]
fn keyboard_skips_disabled_options_and_wraps() {
    let mut dropdown = Dropdown::new(options()).with_disabled_items(vec![true, false, true, false]);
    assert_eq!(dropdown.handle_event(&UiEvent::CursorDown, nowhere()), DropdownOutcome::Respond(EventResponse::Ignored));
    dropdown.handle_event(&UiEvent::Activate, nowhere());
    assert_eq!(dropdown.hovered_option(), Some(1));
    assert_eq!(announced(&dropdown.handle_event(&UiEvent::CursorDown, nowhere())), "Quatre");
    assert_eq!(announced(&dropdown.handle_event(&UiEvent::CursorDown, nowhere())), "Deux");
    assert_eq!(announced(&dropdown.handle_event(&UiEvent::CursorUp, nowhere())), "Quatre");
    assert_eq!(announced(&dropdown.handle_event(&UiEvent::Home, nowhere())), "Deux");
    assert_eq!(announced(&dropdown.handle_event(&UiEvent::End, nowhere())), "Quatre");
    assert_eq!(dropdown.handle_event(&UiEvent::Activate, nowhere()), DropdownOutcome::Select(3));
    assert!(!dropdown.is_open());
}

#[test]
fn submenus_open_choose_and_remove_items() {
    let mut dropdown = Dropdown::new(options())
        .with_submenu(1, vec!["a".into(), "b".into()], true);
    dropdown.handle_event(&UiEvent::Activate, nowhere());
    dropdown.handle_event(&UiEvent::CursorDown, nowhere());
    assert_eq!(dropdown.hovered_option(), Some(1));
    assert_eq!(dropdown.handle_event(&UiEvent::CursorRight, nowhere()), DropdownOutcome::Respond(EventResponse::Consumed));
    assert!(dropdown.submenus()[0].open);
    assert_eq!(announced(&dropdown.handle_event(&UiEvent::CursorDown, nowhere())), "b");
    assert_eq!(dropdown.handle_event(&UiEvent::Delete, nowhere()), DropdownOutcome::SubmenuRemove(0, 1));
    assert!(!dropdown.is_open());
    assert!(!dropdown.submenus()[0].open);

    dropdown.handle_event(&UiEvent::Activate, nowhere());
    let hover = DropdownHit {
        in_submenu_panel: true,
        submenu_item: Some(SubmenuPos { sub: 0, item: 0 }),
        ..on_option(1)
    };
    assert_eq!(
        dropdown.handle_event(&UiEvent::Pointer(PointerKind::MouseMove), hover),
        DropdownOutcome::Respond(EventResponse::Consumed)
    );
    assert_eq!(dropdown.submenus()[0].hovered, Some(0));
    let release_on_item = DropdownHit { option: None, ..hover };
    assert_eq!(
        dropdown.handle_event(&UiEvent::Pointer(PointerKind::MouseRelease), release_on_item),
        DropdownOutcome::SubmenuSelect(0, 0)
    );
    // Releasing on a submenu's option does not choose it.
    dropdown.handle_event(&UiEvent::Activate, nowhere());
    assert_eq!(
        dropdown.handle_event(&UiEvent::Pointer(PointerKind::MouseRelease), on_option(1)),
        DropdownOutcome::Respond(EventResponse::Consumed)
    );
    assert!(dropdown.is_open());
    assert_eq!(dropdown.handle_event(&UiEvent::CursorLeft, nowhere()), DropdownOutcome::Respond(EventResponse::Consumed));
    assert!(!dropdown.is_open());
}

#[test]
fn ignored_callbacks_still_count_as_handled() {
    assert_eq!(settle_response(EventResponse::Ignored), EventResponse::Consumed);
    assert_eq!(settle_response(EventResponse::Consumed), EventResponse::Consumed);
    assert_eq!(
        settle_response(EventResponse::Action(UiAction::AddVideo)),
        EventResponse::Action(UiAction::AddVideo)
    );
}

#[test]
fn escape_closes_the_panel_and_its_submenus() {
    let mut dropdown = Dropdown::new(options()).with_submenu(1, vec!["a".into(), "b".into()], true);
    dropdown.handle_event(&UiEvent::Activate, nowhere());
    dropdown.handle_event(&UiEvent::CursorDown, nowhere());
    dropdown.handle_event(&UiEvent::CursorRight, nowhere());
    assert!(dropdown.submenus()[0].open);
    let escape = UiEvent::KeyInput { text: "\u{1b}".into() };
    assert_eq!(dropdown.handle_event(&escape, nowhere()), DropdownOutcome::Respond(EventResponse::Consumed));
    assert!(!dropdown.is_open());
    assert_eq!(dropdown.hovered_option(), None);
    assert!(!dropdown.submenus()[0].open);
    assert_eq!(dropdown.selected(), 0);
}
