use winutils::{
    Config, LayoutType, ManagedWindow, WindowManager, WindowPosition, WindowSize, WindowState,
    WmError,
};

fn geometry(w: &ManagedWindow) -> (i32, i32, u32, u32) {
    (w.position.x, w.position.y, w.size.width, w.size.height)
}

fn window<'a>(wm: &'a WindowManager, id: &str) -> &'a ManagedWindow {
    wm.get_windows().iter().find(|w| w.id == id).expect("window present")
}

fn active_workspace(wm: &WindowManager) -> &winutils::Workspace {
    let active = wm.get_active_workspace();
    wm.get_workspaces().iter().find(|w| w.id == active).expect("active workspace present")
}

fn assert_in_lockstep(wm: &WindowManager) {
    for ws in wm.get_workspaces() {
        for id in &ws.windows {
            let owner = wm.get_windows().iter().filter(|w| &w.id == id).collect::<Vec<_>>();
            assert_eq!(owner.len(), 1);
            assert_eq!(owner[0].workspace_id, ws.id);
        }
    }
    for w in wm.get_windows() {
        let homes = wm.get_workspaces().iter().filter(|ws| ws.id == w.workspace_id).collect::<Vec<_>>();
        assert_eq!(homes.len(), 1);
        assert!(homes[0].windows.contains(&w.id));
    }
}

#[test]
fn new_manager_has_one_default_workspace() {
    let wm = WindowManager::new();
    assert!(wm.get_windows().is_empty());
    assert_eq!(wm.get_workspaces().len(), 1);
    let ws = &wm.get_workspaces()[0];
    assert_eq!(ws.name, "Default");
    assert_eq!(ws.layout, LayoutType::Tiling);
    assert_eq!(wm.get_active_workspace(), ws.id);
    assert!(wm.system_windows.is_empty());
    assert_eq!(wm.get_config().screen_width, 1920);
}

#[test]
fn four_windows_tile_in_a_two_by_two_grid() {
    let mut wm = WindowManager::new();
    let ids: Vec<String> = (0..4)
        .map(|i| wm.add_window(format!("w{}", i), "app".to_string()).unwrap())
        .collect();
    assert_eq!(geometry(window(&wm, &ids[0])), (10, 10, 945, 525));
    assert_eq!(geometry(window(&wm, &ids[1])), (965, 10, 945, 525));
    assert_eq!(geometry(window(&wm, &ids[2])), (10, 545, 945, 525));
    assert_eq!(geometry(window(&wm, &ids[3])), (965, 545, 945, 525));
    assert_in_lockstep(&wm);
}

#[test]
fn single_window_fills_screen_inside_gap() {
    let mut wm = WindowManager::new();
    let id = wm.add_window("only".to_string(), "app".to_string()).unwrap();
    assert_eq!(geometry(window(&wm, &id)), (10, 10, 1900, 1060));
}

#[test]
fn monocle_gives_every_window_the_full_screen() {
    let mut wm = WindowManager::new();
    let ws = wm.create_workspace("stack".to_string(), LayoutType::Monocle).unwrap();
    wm.switch_workspace(&ws).unwrap();
    let ids: Vec<String> = (0..3)
        .map(|i| wm.add_window(format!("w{}", i), "app".to_string()).unwrap())
        .collect();
    for id in &ids {
        assert_eq!(geometry(window(&wm, id)), (0, 0, 1920, 1080));
        assert_eq!(window(&wm, id).workspace_id, ws);
    }
    assert_in_lockstep(&wm);
}

#[test]
fn floating_keeps_default_geometry() {
    let mut wm = WindowManager::new();
    let ws = wm.create_workspace("free".to_string(), LayoutType::Floating).unwrap();
    wm.switch_workspace(&ws).unwrap();
    let id = wm.add_window("f".to_string(), "app".to_string()).unwrap();
    assert_eq!(geometry(window(&wm, &id)), (0, 0, 800, 600));
    assert_eq!(wm.arrange_workspace(&ws), Ok(()));
    assert_eq!(geometry(window(&wm, &id)), (0, 0, 800, 600));
}

#[test]
fn added_window_has_defaults_and_timestamps() {
    let mut wm = WindowManager::new();
    let id = wm.add_window("Editor".to_string(), "code".to_string()).unwrap();
    let w = window(&wm, &id);
    assert_eq!(id.len(), 36);
    assert_eq!(w.title, "Editor");
    assert_eq!(w.app_name, "code");
    assert_eq!(w.state, WindowState::Normal);
    assert_eq!(w.workspace_id, wm.get_active_workspace());
    // after 2020-01-01 in milliseconds
    assert!(w.created_at > 1_577_836_800_000);
    assert_eq!(w.created_at, w.last_focused);
    assert_eq!(active_workspace(&wm).focused_window.as_deref(), Some(id.as_str()));
}

#[test]
fn add_with_explicit_values_and_duplicate_id() {
    let mut wm = WindowManager::new();
    assert_eq!(wm.add_window_with("a".to_string(), "t".to_string(), "p".to_string(), 42), Ok("a".to_string()));
    let w = window(&wm, "a");
    assert_eq!(w.created_at, 42);
    assert_eq!(w.last_focused, 42);
    assert_eq!(
        wm.add_window_with("a".to_string(), "other".to_string(), "p".to_string(), 43),
        Err(WmError::DuplicateId)
    );
    assert_eq!(wm.get_windows().len(), 1);
    assert_eq!(window(&wm, "a").title, "t");
}

#[test]
fn removing_focused_window_refocuses_last_and_retiles() {
    let mut wm = WindowManager::new();
    for id in ["A", "B", "C"] {
        wm.add_window_with(id.to_string(), id.to_string(), "app".to_string(), 0).unwrap();
    }
    assert_eq!(active_workspace(&wm).focused_window.as_deref(), Some("C"));
    assert_eq!(wm.remove_window("C"), Ok(()));
    let ws = active_workspace(&wm);
    assert_eq!(ws.windows, vec!["A".to_string(), "B".to_string()]);
    assert_eq!(ws.focused_window.as_deref(), Some("B"));
    assert_eq!(geometry(window(&wm, "A")), (10, 10, 945, 1060));
    assert_eq!(geometry(window(&wm, "B")), (965, 10, 945, 1060));
    assert_in_lockstep(&wm);
}

#[test]
fn removing_last_window_clears_focus() {
    let mut wm = WindowManager::new();
    wm.add_window_with("A".to_string(), "A".to_string(), "app".to_string(), 0).unwrap();
    wm.remove_window("A").unwrap();
    assert!(wm.get_windows().is_empty());
    assert_eq!(active_workspace(&wm).focused_window, None);
}

#[test]
fn unknown_ids_are_not_found() {
    let mut wm = WindowManager::new();
    assert_eq!(wm.remove_window("nope"), Err(WmError::WindowNotFound));
    assert_eq!(wm.focus_window("nope"), Err(WmError::WindowNotFound));
    assert_eq!(wm.minimize_window("nope"), Err(WmError::WindowNotFound));
    assert_eq!(wm.maximize_window("nope"), Err(WmError::WindowNotFound));
    assert_eq!(wm.switch_workspace("nope"), Err(WmError::WorkspaceNotFound));
    assert_eq!(wm.arrange_workspace("nope"), Err(WmError::WorkspaceNotFound));
}

#[test]
fn focus_sets_time_and_workspace_focus_without_reordering() {
    let mut wm = WindowManager::new();
    for id in ["A", "B"] {
        wm.add_window_with(id.to_string(), id.to_string(), "app".to_string(), 5).unwrap();
    }
    assert_eq!(wm.focus_window_at("A", 99), Ok(()));
    assert_eq!(window(&wm, "A").last_focused, 99);
    assert_eq!(window(&wm, "B").last_focused, 5);
    let ws = active_workspace(&wm);
    assert_eq!(ws.focused_window.as_deref(), Some("A"));
    assert_eq!(ws.windows, vec!["A".to_string(), "B".to_string()]);
    assert_eq!(wm.focus_window("B"), Ok(()));
    assert!(window(&wm, "B").last_focused > 1_577_836_800_000);
}

#[test]
fn minimize_and_maximize_set_state() {
    let mut wm = WindowManager::new();
    wm.add_window_with("A".to_string(), "A".to_string(), "app".to_string(), 0).unwrap();
    wm.minimize_window("A").unwrap();
    assert_eq!(window(&wm, "A").state, WindowState::Minimized);
    wm.maximize_window("A").unwrap();
    assert_eq!(window(&wm, "A").state, WindowState::Maximized);
}

#[test]
fn switching_workspace_moves_no_window() {
    let mut wm = WindowManager::new();
    let first = wm.get_active_workspace();
    wm.add_window_with("A".to_string(), "A".to_string(), "app".to_string(), 0).unwrap();
    let second = wm.create_workspace("two".to_string(), LayoutType::Tiling).unwrap();
    assert_eq!(wm.get_workspaces().len(), 2);
    wm.switch_workspace(&second).unwrap();
    assert_eq!(wm.get_active_workspace(), second);
    assert_eq!(window(&wm, "A").workspace_id, first);
    wm.add_window_with("B".to_string(), "B".to_string(), "app".to_string(), 0).unwrap();
    assert_eq!(window(&wm, "B").workspace_id, second);
    assert_eq!(geometry(window(&wm, "A")), (10, 10, 1900, 1060));
    assert_eq!(geometry(window(&wm, "B")), (10, 10, 1900, 1060));
    let in_first: Vec<String> = wm.get_workspace_windows(&first).into_iter().map(|w| w.id).collect();
    assert_eq!(in_first, vec!["A".to_string()]);
    assert!(wm.get_workspace_windows("none").is_empty());
    assert_in_lockstep(&wm);
}

#[test]
fn new_workspace_is_empty_and_unfocused() {
    let mut wm = WindowManager::new();
    let id = wm.create_workspace("code".to_string(), LayoutType::Monocle).unwrap();
    let ws = wm.get_workspaces().iter().find(|w| w.id == id).unwrap();
    assert_eq!(ws.name, "code");
    assert_eq!(ws.layout, LayoutType::Monocle);
    assert!(ws.windows.is_empty());
    assert_eq!(ws.focused_window, None);
}

#[test]
fn arrangement_follows_config_changes() {
    let mut wm = WindowManager::new();
    wm.add_window_with("A".to_string(), "A".to_string(), "app".to_string(), 0).unwrap();
    let mut config = Config::default();
    config.screen_width = 1000;
    config.screen_height = 500;
    config.window_gap = 0;
    wm.update_config(config);
    assert_eq!(wm.get_config().screen_width, 1000);
    assert_eq!(geometry(window(&wm, "A")), (10, 10, 1900, 1060));
    let active = wm.get_active_workspace();
    wm.arrange_workspace(&active).unwrap();
    assert_eq!(geometry(window(&wm, "A")), (0, 0, 1000, 500));
}

#[test]
fn too_large_gap_reports_screen_too_small() {
    let mut wm = WindowManager::new();
    let mut config = Config::default();
    config.window_gap = 600;
    wm.update_config(config);
    assert_eq!(
        wm.add_window_with("A".to_string(), "A".to_string(), "app".to_string(), 0),
        Err(WmError::ScreenTooSmall)
    );
    // the record stays, with its default geometry
    assert_eq!(geometry(window(&wm, "A")), (0, 0, 800, 600));
    assert_in_lockstep(&wm);
}

#[test]
fn default_config_values() {
    let c = Config::default();
    assert_eq!((c.window_gap, c.screen_width, c.screen_height), (10, 1920, 1080));
    assert!(c.auto_arrange);
    assert!(!c.focus_follows_mouse);
    assert_eq!(c.border_width, 2);
    assert_eq!(c.border_color_active, "#0066cc");
    assert_eq!(c.border_color_inactive, "#666666");
    let k = &c.keybindings;
    assert_eq!(k.switch_workspace_1, "Super+1");
    assert_eq!(k.switch_workspace_4, "Super+4");
    assert_eq!(k.close_window, "Super+q");
    assert_eq!(k.toggle_layout, "Super+space");
    assert_eq!(k.focus_next, "Super+j");
    assert_eq!(k.focus_prev, "Super+k");
}

#[test]
fn error_messages() {
    assert_eq!(WmError::WindowNotFound.message(), "Window not found");
    assert_eq!(WmError::WorkspaceNotFound.message(), "Workspace not found");
    assert_eq!(WmError::InvalidLayout.message(), "Invalid layout type");
    assert_eq!(WmError::PlatformError("denied".to_string()).message(), "denied");
}

#[test]
fn position_and_size_types_compare() {
    assert_eq!(WindowPosition { x: 1, y: 2 }, WindowPosition { x: 1, y: 2 });
    assert_ne!(WindowSize { width: 1, height: 2 }, WindowSize { width: 2, height: 1 });
}

#[test]
fn empty_tiling_workspace_arranges_on_any_screen() {
    let mut wm = WindowManager::new();
    let mut config = Config::default();
    config.screen_width = 3_000_000_000;
    config.window_gap = 0;
    wm.update_config(config);
    let active = wm.get_active_workspace();
    assert_eq!(wm.arrange_workspace(&active), Ok(()));
}
