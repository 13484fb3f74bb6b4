use coquerythmo_ui::event::{PointerKind, UiEvent};
use coquerythmo_ui::interactive::{InteractiveResult, InteractiveState};

#[test]
fn press_and_release_inside_clicks() {
    let mut state = InteractiveState::default();
    assert_eq!(state, InteractiveState::Normal);
    assert!(matches!(
        state.handle(&UiEvent::Pointer(PointerKind::MouseMove), true),
        InteractiveResult::StateChanged
    ));
    assert!(state.is_hovered());
    assert!(matches!(
        state.handle(&UiEvent::Pointer(PointerKind::MousePress), true),
        InteractiveResult::StateChanged
    ));
    assert_eq!(state, InteractiveState::Pressed);
    assert!(matches!(
        state.handle(&UiEvent::Pointer(PointerKind::MouseMove), true),
        InteractiveResult::Nothing
    ));
    assert!(matches!(
        state.handle(&UiEvent::Pointer(PointerKind::MouseRelease), true),
        InteractiveResult::Clicked
    ));
    assert_eq!(state, InteractiveState::Hovered);
}

#[test]
fn release_outside_does_not_click() {
    let mut state = InteractiveState::Pressed;
    assert!(matches!(
        state.handle(&UiEvent::Pointer(PointerKind::MouseRelease), false),
        InteractiveResult::StateChanged
    ));
    assert_eq!(state, InteractiveState::Normal);
    assert!(!state.is_hovered());
    assert!(matches!(
        state.handle(&UiEvent::Pointer(PointerKind::MousePress), false),
        InteractiveResult::Nothing
    ));
    assert!(matches!(state.handle(&UiEvent::Activate, true), InteractiveResult::Nothing));
}

#[test]
fn press_inside_while_pressed_changes_nothing() {
    let mut state = InteractiveState::Pressed;
    assert!(matches!(
        state.handle(&UiEvent::Pointer(PointerKind::MousePress), true),
        InteractiveResult::Nothing
    ));
    assert_eq!(state, InteractiveState::Pressed);
}
