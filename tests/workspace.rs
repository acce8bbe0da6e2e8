use winutils::{LayoutType, Workspace};

fn ids(ws: &Workspace) -> Vec<&str> {
    ws.get_windows().iter().map(|s| s.as_str()).collect()
}

#[test]
fn new_workspace_is_empty_with_generated_id() {
    let a = Workspace::new("Main".to_string(), LayoutType::Floating);
    let b = Workspace::new("Main".to_string(), LayoutType::Floating);
    assert_eq!(a.name, "Main");
    assert_eq!(a.layout, LayoutType::Floating);
    assert!(a.windows.is_empty());
    assert_eq!(a.focused_window, None);
    assert_eq!(a.id.len(), 36);
    assert_eq!(a.id.matches('-').count(), 4);
    assert_ne!(a.id, b.id);
}

#[test]
fn add_appends_and_focuses() {
    let mut ws = Workspace::new("w".to_string(), LayoutType::Tiling);
    ws.add_window("A".to_string());
    ws.add_window("B".to_string());
    assert_eq!(ids(&ws), vec!["A", "B"]);
    assert_eq!(ws.focused_window.as_deref(), Some("B"));
}

#[test]
fn adding_present_id_is_a_no_op() {
    let mut ws = Workspace::new("w".to_string(), LayoutType::Tiling);
    ws.add_window("A".to_string());
    ws.add_window("B".to_string());
    ws.add_window("A".to_string());
    assert_eq!(ids(&ws), vec!["A", "B"]);
    assert_eq!(ws.focused_window.as_deref(), Some("B"));
}

#[test]
fn removing_focused_last_moves_focus_to_new_last() {
    let mut ws = Workspace::new("w".to_string(), LayoutType::Tiling);
    for id in ["A", "B", "C"] {
        ws.add_window(id.to_string());
    }
    assert_eq!(ws.focused_window.as_deref(), Some("C"));
    ws.remove_window("C");
    assert_eq!(ids(&ws), vec!["A", "B"]);
    assert_eq!(ws.focused_window.as_deref(), Some("B"));
}

#[test]
fn removing_only_window_clears_focus() {
    let mut ws = Workspace::new("w".to_string(), LayoutType::Tiling);
    ws.add_window("A".to_string());
    ws.remove_window("A");
    assert!(ws.windows.is_empty());
    assert_eq!(ws.focused_window, None);
}

#[test]
fn removing_unfocused_window_keeps_focus() {
    let mut ws = Workspace::new("w".to_string(), LayoutType::Tiling);
    for id in ["A", "B", "C"] {
        ws.add_window(id.to_string());
    }
    ws.focus_window("A");
    ws.remove_window("B");
    assert_eq!(ids(&ws), vec!["A", "C"]);
    assert_eq!(ws.focused_window.as_deref(), Some("A"));
    ws.remove_window("Z");
    assert_eq!(ids(&ws), vec!["A", "C"]);
}

#[test]
fn removing_focused_middle_moves_focus_to_last() {
    let mut ws = Workspace::new("w".to_string(), LayoutType::Tiling);
    for id in ["A", "B", "C"] {
        ws.add_window(id.to_string());
    }
    ws.focus_window("B");
    ws.remove_window("B");
    assert_eq!(ws.focused_window.as_deref(), Some("C"));
}

#[test]
fn focus_ignores_non_members_and_keeps_order() {
    let mut ws = Workspace::new("w".to_string(), LayoutType::Tiling);
    ws.add_window("A".to_string());
    ws.add_window("B".to_string());
    ws.focus_window("A");
    assert_eq!(ws.focused_window.as_deref(), Some("A"));
    assert_eq!(ids(&ws), vec!["A", "B"]);
    ws.focus_window("Q");
    assert_eq!(ws.focused_window.as_deref(), Some("A"));
}

#[test]
fn set_layout_replaces_layout_only() {
    let mut ws = Workspace::new("w".to_string(), LayoutType::Tiling);
    ws.add_window("A".to_string());
    ws.set_layout(LayoutType::Monocle);
    assert_eq!(ws.layout, LayoutType::Monocle);
    assert_eq!(ids(&ws), vec!["A"]);
}
