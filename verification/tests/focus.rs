use coquerythmo_ui::focus::{AccessibleNode, AccessibleRole, FocusId, FocusManager};

fn node(id: &str, enabled: bool) -> AccessibleNode {
    AccessibleNode {
        id: FocusId::new(id),
        role: AccessibleRole::Button,
        label: id.into(),
        value: None,
        enabled,
    }
}

#[test]
fn traversal_wraps_and_skips_disabled_nodes() {
    let mut focus = FocusManager::default();
    focus.replace_root(vec![node("a", true), node("b", false), node("c", true)]);
    assert_eq!(focus.current_id(), None);
    assert_eq!(
        focus.focus_next().map(|node| node.id.clone()),
        Some(FocusId::new("a"))
    );
    assert_eq!(
        focus.focus_next().map(|node| node.id.clone()),
        Some(FocusId::new("c"))
    );
    assert_eq!(
        focus.focus_next().map(|node| node.id.clone()),
        Some(FocusId::new("a"))
    );
    assert_eq!(
        focus.focus_previous().map(|node| node.id.clone()),
        Some(FocusId::new("c"))
    );
}

#[test]
fn nested_scope_traps_then_restores_focus() {
    let mut focus = FocusManager::default();
    focus.replace_root(vec![node("a", true), node("b", true)]);
    focus.focus_next();
    focus.focus_next();
    focus.push_scope("dialog", vec![node("cancel", true), node("ok", true)]);
    assert_eq!(focus.active_scope_id(), Some("dialog"));
    focus.focus_next();
    assert_eq!(focus.current_id(), Some(&FocusId::new("ok")));
    assert_eq!(focus.pop_scope(), Some(FocusId::new("b")));
    assert_eq!(focus.current_id(), Some(&FocusId::new("b")));
}

#[test]
fn focus_previous_from_nothing_starts_at_the_last_enabled_node() {
    let mut focus = FocusManager::default();
    focus.replace_root(vec![node("a", true), node("b", true), node("c", false)]);
    assert_eq!(focus.focus_previous().map(|n| n.id.clone()), Some(FocusId::new("b")));
}

#[test]
fn a_scope_without_enabled_nodes_takes_no_focus() {
    let mut focus = FocusManager::default();
    focus.replace_root(vec![node("a", false)]);
    assert!(focus.focus_next().is_none());
    assert!(focus.current().is_none());
    assert!(!focus.focus(&FocusId::new("a")));
}

#[test]
fn replacing_the_root_keeps_the_focused_identifier() {
    let mut focus = FocusManager::default();
    focus.replace_root(vec![node("a", true), node("b", true)]);
    assert!(focus.focus(&FocusId::new("b")));
    focus.replace_root(vec![node("x", true), node("b", true)]);
    assert_eq!(focus.current_id(), Some(&FocusId::new("b")));
    focus.replace_root(vec![node("x", true)]);
    assert_eq!(focus.current_id(), None);
    assert_eq!(focus.active_scope_id(), Some("root"));
}

#[test]
fn the_root_scope_is_never_popped_and_clear_drops_focus() {
    let mut focus = FocusManager::default();
    assert_eq!(focus.pop_scope(), None);
    focus.replace_root(vec![node("a", true)]);
    assert_eq!(focus.pop_scope(), None);
    focus.focus_next();
    focus.clear();
    assert!(focus.current().is_none());
    let n = AccessibleNode::focusable("z", AccessibleRole::Checkbox, "Zed");
    assert!(n.enabled);
    assert_eq!(n.label, "Zed");
}

#[test]
fn a_cloned_manager_keeps_scopes_and_focus() {
    let mut focus = FocusManager::default();
    focus.replace_root(vec![node("a", true), node("b", true)]);
    focus.focus_next();
    focus.push_scope("dialog", vec![node("x", false), node("y", true)]);
    let mut copy = focus.clone();
    assert_eq!(copy.active_scope_id(), Some("dialog"));
    assert_eq!(copy.current_id(), Some(&FocusId::new("y")));
    assert_eq!(copy.pop_scope(), Some(FocusId::new("a")));
    assert_eq!(focus.active_scope_id(), Some("dialog"));
}
