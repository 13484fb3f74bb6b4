use coquerythmo_ui::connect_modal::{ConnectModal, ConnectModalResult, ConnectStep, ConnectTarget};
use coquerythmo_ui::invitation_modal::{InvitationModal, InvitationModalResult, InvitationTarget};
use coquerythmo_ui::event::{PointerKind, UiEvent};
use coquerythmo_ui::text_input::TextInputState;

fn modal(join: bool) -> ConnectModal {
    ConnectModal {
        join,
        ip: "127.0.0.1".into(),
        port: 9050,
        fields: [String::new(), String::new(), String::new()],
        input: TextInputState::new(),
        focused: 0,
        endpoint: "127.0.0.1:9050".into(),
        masked_password: String::new(),
        username_only: false,
    }
}

#[test]
fn required_connection_fields_control_submission() {
    let mut create = modal(false);
    assert!(!create.can_submit());
    create.fields[ConnectModal::USERNAME] = "Alex".into();
    assert!(create.can_submit());

    let mut join = modal(true);
    join.fields[ConnectModal::USERNAME] = "Alex".into();
    assert!(!join.can_submit());
    join.fields[ConnectModal::ROOM_CODE] = "abcd".into();
    assert!(join.can_submit());
}

#[test]
fn invitation_mode_exposes_only_the_username_field() {
    let mut invite = modal(true);
    invite.username_only = true;
    invite.fields[ConnectModal::ROOM_CODE] = "ABCD".into();

    assert_eq!(invite.field_count(), 1);
    assert_eq!(invite.field_index(0), ConnectModal::USERNAME);
    assert!(!invite.can_submit());

    invite.fields[ConnectModal::USERNAME] = "Invitee".into();
    assert!(invite.can_submit());
}

#[test]
fn blank_fields_do_not_count_as_filled() {
    let mut create = modal(false);
    create.fields[ConnectModal::USERNAME] = "  \t ".into();
    assert!(!create.can_submit());
    let mut join = modal(true);
    join.fields[ConnectModal::USERNAME] = "Alex".into();
    join.fields[ConnectModal::ROOM_CODE] = "   ".into();
    assert!(!join.can_submit());
    assert_eq!(join.field_count(), 3);
    assert_eq!(create.field_count(), 2);
}

#[test]
fn keyboard_exposes_both_copy_actions() {
    let mut modal = InvitationModal::new("ABCD", "coquerythmo://link/example");
    // The keyboard events carry no position; the pointer target is unused.
    assert!(matches!(
        modal.handle_event(&UiEvent::KeyInput { text: "\r".into() }, InvitationTarget::Card),
        InvitationModalResult::CopyLink
    ));
    modal.handle_event(&UiEvent::KeyInput { text: "\t".into() }, InvitationTarget::Card);
    assert!(matches!(
        modal.handle_event(&UiEvent::KeyInput { text: "\r".into() }, InvitationTarget::Card),
        InvitationModalResult::CopyCode
    ));
}

fn key(text: &str) -> UiEvent {
    UiEvent::KeyInput { text: text.into() }
}

#[test]
fn keys_move_focus_edit_fields_and_submit() {
    let mut m = modal(true);
    assert_eq!(m.handle_event(&key("a"), ConnectTarget::Card), ConnectStep::EditField(0));
    assert_eq!(m.handle_event(&UiEvent::CursorLeft, ConnectTarget::Card), ConnectStep::EditField(0));
    m.handle_event(&key("\t"), ConnectTarget::Card);
    assert_eq!(m.focused, 1);
    m.set_field_text(ConnectModal::USERNAME, "  Alex ".into());
    m.set_field_text(ConnectModal::PASSWORD, "pw".into());
    assert_eq!(m.masked_password, "••");
    m.handle_event(&UiEvent::CursorDown, ConnectTarget::Card);
    m.set_field_text(ConnectModal::ROOM_CODE, " abcd ".into());
    m.handle_event(&UiEvent::FocusNext, ConnectTarget::Card);
    assert_eq!(m.focused, 3);
    // Space on Cancel closes; Enter on Submit connects.
    assert_eq!(m.handle_event(&key(" "), ConnectTarget::Card), ConnectStep::Answer(ConnectModalResult::Close));
    m.handle_event(&key("\t"), ConnectTarget::Card);
    assert_eq!(
        m.handle_event(&key("\r"), ConnectTarget::Card),
        ConnectStep::Answer(ConnectModalResult::Connect {
            ip: "127.0.0.1".into(),
            port: 9050,
            password: "pw".into(),
            username: "Alex".into(),
            room_code: Some("ABCD".into()),
        })
    );
    m.handle_event(&key("\t"), ConnectTarget::Card);
    assert_eq!(m.focused, 0);
    m.handle_event(&key("\u{b}"), ConnectTarget::Card);
    assert_eq!(m.focused, 4);
    assert_eq!(m.handle_event(&key("\u{1b}"), ConnectTarget::Card), ConnectStep::Answer(ConnectModalResult::Close));
}

#[test]
fn presses_focus_fields_and_press_buttons() {
    let mut m = modal(false);
    let press = UiEvent::Pointer(PointerKind::MousePress);
    let double = UiEvent::Pointer(PointerKind::DoubleClick);
    assert_eq!(
        m.handle_event(&press, ConnectTarget::Field(1)),
        ConnectStep::PlaceCaret { field: 1, select_all: false }
    );
    assert_eq!(m.focused, 1);
    assert_eq!(
        m.handle_event(&double, ConnectTarget::Field(0)),
        ConnectStep::PlaceCaret { field: 0, select_all: true }
    );
    assert_eq!(m.handle_event(&press, ConnectTarget::Submit), ConnectStep::Answer(ConnectModalResult::Consumed));
    assert_eq!(m.focused, 3);
    assert_eq!(m.handle_event(&press, ConnectTarget::Cancel), ConnectStep::Answer(ConnectModalResult::Close));
    assert_eq!(m.focused, 2);
    assert_eq!(m.handle_event(&press, ConnectTarget::Outside), ConnectStep::Answer(ConnectModalResult::Close));
    assert_eq!(m.handle_event(&press, ConnectTarget::Card), ConnectStep::Answer(ConnectModalResult::Consumed));
}

#[test]
fn a_focus_index_past_the_buttons_still_answers_keys() {
    let mut create = modal(false);
    create.fields[ConnectModal::USERNAME] = " Alex ".into();
    create.focused = 9;
    assert!(matches!(
        create.handle_event(&key("\r"), ConnectTarget::Card),
        ConnectStep::Answer(ConnectModalResult::Connect { .. })
    ));
    assert_eq!(create.focused, 9);
    create.handle_event(&key("\t"), ConnectTarget::Card);
    assert_eq!(create.focused, 10 % 4);
    create.focused = 7;
    create.handle_event(&UiEvent::FocusPrevious, ConnectTarget::Card);
    assert_eq!(create.focused, 6 % 4);

    let mut invite = InvitationModal::new("ABCD", "coquerythmo://link/example");
    invite.focused = 7;
    assert!(matches!(
        invite.handle_event(&key(" "), InvitationTarget::Card),
        InvitationModalResult::Close
    ));
    invite.handle_event(&UiEvent::FocusNext, InvitationTarget::Card);
    assert_eq!(invite.focused, 8 % 3);
}
