use winutils::{SystemWindow, SystemWindowManager, WindowManager, WmError};

fn snapshot(handle: u64) -> SystemWindow {
    SystemWindow {
        handle,
        title: format!("window {}", handle),
        process_name: "proc".to_string(),
        pid: 7,
        x: 1,
        y: 2,
        width: 3,
        height: 4,
        is_visible: true,
        is_minimized: false,
        is_maximized: false,
    }
}

/// A platform that accepts every call and lists handles 1 and 2.
struct TwoWindows;

/// A platform that accepts every call and lists handle 1 only.
struct OneWindow;

/// A platform that refuses every call.
struct Refusing;

/// A platform that accepts every call but reports no window by handle, and
/// refuses to move handle 13.
struct Quiet;

impl SystemWindowManager for TwoWindows {
    fn get_all_windows() -> Result<Vec<SystemWindow>, String> {
        Ok(vec![snapshot(1), snapshot(2)])
    }
    fn get_window_by_handle(handle: u64) -> Result<Option<SystemWindow>, String> {
        Ok(Some(snapshot(handle)))
    }
    fn move_window(handle: u64, _x: i32, _y: i32) -> Result<(), String> {
        let _ = handle;
        Ok(())
    }
    fn resize_window(handle: u64, _w: u32, _h: u32) -> Result<(), String> {
        let _ = handle;
        Ok(())
    }
    fn set_window_position_and_size(handle: u64, _x: i32, _y: i32, _w: u32, _h: u32) -> Result<(), String> {
        let _ = handle;
        Ok(())
    }
    fn minimize_window(_handle: u64) -> Result<(), String> {
        Ok(())
    }
    fn maximize_window(_handle: u64) -> Result<(), String> {
        Ok(())
    }
    fn restore_window(_handle: u64) -> Result<(), String> {
        Ok(())
    }
    fn close_window(_handle: u64) -> Result<(), String> {
        Ok(())
    }
    fn focus_window(_handle: u64) -> Result<(), String> {
        Ok(())
    }
    fn hide_window(_handle: u64) -> Result<(), String> {
        Ok(())
    }
    fn show_window(_handle: u64) -> Result<(), String> {
        Ok(())
    }
}

impl SystemWindowManager for OneWindow {
    fn get_all_windows() -> Result<Vec<SystemWindow>, String> {
        Ok(vec![snapshot(1)])
    }
    fn get_window_by_handle(handle: u64) -> Result<Option<SystemWindow>, String> {
        Ok(Some(snapshot(handle)))
    }
    fn move_window(handle: u64, _x: i32, _y: i32) -> Result<(), String> {
        let _ = handle;
        Ok(())
    }
    fn resize_window(handle: u64, _w: u32, _h: u32) -> Result<(), String> {
        let _ = handle;
        Ok(())
    }
    fn set_window_position_and_size(handle: u64, _x: i32, _y: i32, _w: u32, _h: u32) -> Result<(), String> {
        let _ = handle;
        Ok(())
    }
    fn minimize_window(_handle: u64) -> Result<(), String> {
        Ok(())
    }
    fn maximize_window(_handle: u64) -> Result<(), String> {
        Ok(())
    }
    fn restore_window(_handle: u64) -> Result<(), String> {
        Ok(())
    }
    fn close_window(_handle: u64) -> Result<(), String> {
        Ok(())
    }
    fn focus_window(_handle: u64) -> Result<(), String> {
        Ok(())
    }
    fn hide_window(_handle: u64) -> Result<(), String> {
        Ok(())
    }
    fn show_window(_handle: u64) -> Result<(), String> {
        Ok(())
    }
}

impl SystemWindowManager for Refusing {
    fn get_all_windows() -> Result<Vec<SystemWindow>, String> {
        Err("access denied".to_string())
    }
    fn get_window_by_handle(handle: u64) -> Result<Option<SystemWindow>, String> {
        let _ = handle;
        Err("access denied".to_string())
    }
    fn move_window(handle: u64, _x: i32, _y: i32) -> Result<(), String> {
        let _ = handle;
        Err("access denied".to_string())
    }
    fn resize_window(handle: u64, _w: u32, _h: u32) -> Result<(), String> {
        let _ = handle;
        Err("access denied".to_string())
    }
    fn set_window_position_and_size(handle: u64, _x: i32, _y: i32, _w: u32, _h: u32) -> Result<(), String> {
        let _ = handle;
        Err("access denied".to_string())
    }
    fn minimize_window(_handle: u64) -> Result<(), String> {
        Err("access denied".to_string())
    }
    fn maximize_window(_handle: u64) -> Result<(), String> {
        Err("access denied".to_string())
    }
    fn restore_window(_handle: u64) -> Result<(), String> {
        Err("access denied".to_string())
    }
    fn close_window(_handle: u64) -> Result<(), String> {
        Err("access denied".to_string())
    }
    fn focus_window(_handle: u64) -> Result<(), String> {
        Err("access denied".to_string())
    }
    fn hide_window(_handle: u64) -> Result<(), String> {
        Err("access denied".to_string())
    }
    fn show_window(_handle: u64) -> Result<(), String> {
        Err("access denied".to_string())
    }
}

impl SystemWindowManager for Quiet {
    fn get_all_windows() -> Result<Vec<SystemWindow>, String> {
        Ok(Vec::new())
    }
    fn get_window_by_handle(handle: u64) -> Result<Option<SystemWindow>, String> {
        let _ = handle;
        Ok(None)
    }
    fn move_window(handle: u64, _x: i32, _y: i32) -> Result<(), String> {
        if handle == 13 {
            Err("invalid handle".to_string())
        } else {
            Ok(())
        }
    }
    fn resize_window(handle: u64, _w: u32, _h: u32) -> Result<(), String> {
        if handle == 13 {
            Err("invalid handle".to_string())
        } else {
            Ok(())
        }
    }
    fn set_window_position_and_size(handle: u64, _x: i32, _y: i32, _w: u32, _h: u32) -> Result<(), String> {
        if handle == 13 {
            Err("invalid handle".to_string())
        } else {
            Ok(())
        }
    }
    fn minimize_window(_handle: u64) -> Result<(), String> {
        Ok(())
    }
    fn maximize_window(_handle: u64) -> Result<(), String> {
        Ok(())
    }
    fn restore_window(_handle: u64) -> Result<(), String> {
        Ok(())
    }
    fn close_window(_handle: u64) -> Result<(), String> {
        Ok(())
    }
    fn focus_window(_handle: u64) -> Result<(), String> {
        Ok(())
    }
    fn hide_window(_handle: u64) -> Result<(), String> {
        Ok(())
    }
    fn show_window(_handle: u64) -> Result<(), String> {
        Ok(())
    }
}

fn handles(wm: &WindowManager) -> Vec<u64> {
    let mut hs: Vec<u64> = wm.system_windows.keys().copied().collect();
    hs.sort();
    hs
}

#[test]
fn enumeration_replaces_the_whole_mirror() {
    let mut wm = WindowManager::new();
    let first = wm.get_system_windows::<TwoWindows>().unwrap();
    assert_eq!(first.len(), 2);
    assert_eq!(handles(&wm), vec![1, 2]);
    let second = wm.get_system_windows::<OneWindow>().unwrap();
    assert_eq!(second.len(), 1);
    assert_eq!(handles(&wm), vec![1]);
    assert!(!wm.system_windows.contains_key(&2));
    wm.get_system_windows::<Quiet>().unwrap();
    assert!(wm.system_windows.is_empty());
}

#[test]
fn failed_enumeration_keeps_the_mirror() {
    let mut wm = WindowManager::new();
    wm.get_system_windows::<TwoWindows>().unwrap();
    assert_eq!(
        wm.get_system_windows::<Refusing>().err(),
        Some(WmError::PlatformError("access denied".to_string()))
    );
    assert_eq!(handles(&wm), vec![1, 2]);
}

#[test]
fn successful_move_refreshes_entry() {
    let mut wm = WindowManager::new();
    assert_eq!(wm.move_system_window::<TwoWindows>(5, 10, 20), Ok(()));
    assert_eq!(handles(&wm), vec![5]);
    assert_eq!(wm.system_windows[&5].title, "window 5");
    assert_eq!(wm.resize_system_window::<TwoWindows>(6, 10, 20), Ok(()));
    assert_eq!(wm.set_system_window_bounds::<TwoWindows>(7, 1, 2, 3, 4), Ok(()));
    assert_eq!(handles(&wm), vec![5, 6, 7]);
}

#[test]
fn move_of_unreported_window_leaves_mirror() {
    let mut wm = WindowManager::new();
    assert_eq!(wm.move_system_window::<Quiet>(5, 10, 20), Ok(()));
    assert!(wm.system_windows.is_empty());
}

#[test]
fn refused_calls_report_platform_error_and_keep_mirror() {
    let mut wm = WindowManager::new();
    wm.get_system_windows::<TwoWindows>().unwrap();
    let denied = Err(WmError::PlatformError("access denied".to_string()));
    assert_eq!(wm.move_system_window::<Refusing>(1, 0, 0), denied);
    assert_eq!(wm.resize_system_window::<Refusing>(1, 5, 5), denied);
    assert_eq!(wm.set_system_window_bounds::<Refusing>(1, 0, 0, 5, 5), denied);
    assert_eq!(wm.close_system_window::<Refusing>(1), denied);
    assert_eq!(wm.minimize_system_window::<Refusing>(1), denied);
    assert_eq!(wm.maximize_system_window::<Refusing>(1), denied);
    assert_eq!(wm.restore_system_window::<Refusing>(1), denied);
    assert_eq!(wm.focus_system_window::<Refusing>(1), denied);
    assert_eq!(wm.hide_system_window::<Refusing>(1), denied);
    assert_eq!(wm.show_system_window::<Refusing>(1), denied);
    assert_eq!(wm.arrange_system_windows::<Refusing>(&[1, 2]), denied);
    assert_eq!(handles(&wm), vec![1, 2]);
    assert_eq!(wm.system_windows[&1].title, "window 1");
}

#[test]
fn state_calls_refresh_their_entry() {
    let mut wm = WindowManager::new();
    assert_eq!(wm.minimize_system_window::<TwoWindows>(1), Ok(()));
    assert_eq!(wm.maximize_system_window::<TwoWindows>(2), Ok(()));
    assert_eq!(wm.restore_system_window::<TwoWindows>(3), Ok(()));
    assert_eq!(wm.focus_system_window::<TwoWindows>(4), Ok(()));
    assert_eq!(wm.hide_system_window::<TwoWindows>(5), Ok(()));
    assert_eq!(wm.show_system_window::<TwoWindows>(6), Ok(()));
    assert_eq!(handles(&wm), vec![1, 2, 3, 4, 5, 6]);
    assert_eq!(wm.hide_system_window::<Quiet>(7), Ok(()));
    assert_eq!(handles(&wm), vec![1, 2, 3, 4, 5, 6]);
}

#[test]
fn close_drops_the_entry() {
    let mut wm = WindowManager::new();
    wm.get_system_windows::<TwoWindows>().unwrap();
    assert_eq!(wm.close_system_window::<TwoWindows>(2), Ok(()));
    assert_eq!(handles(&wm), vec![1]);
    assert_eq!(wm.close_system_window::<TwoWindows>(9), Ok(()));
    assert_eq!(handles(&wm), vec![1]);
}

#[test]
fn arrange_system_windows_sets_every_handle() {
    let mut wm = WindowManager::new();
    assert_eq!(wm.arrange_system_windows::<TwoWindows>(&[3, 4, 5]), Ok(()));
    assert_eq!(handles(&wm), vec![3, 4, 5]);
    assert_eq!(wm.arrange_system_windows::<Refusing>(&[]), Ok(()));
}

#[test]
fn arrange_system_windows_stops_at_first_failure() {
    let mut wm = WindowManager::new();
    assert_eq!(
        wm.arrange_system_windows::<Quiet>(&[1, 13, 2]),
        Err(WmError::PlatformError("invalid handle".to_string()))
    );
}

#[test]
fn arrange_system_windows_checks_the_screen_first() {
    let mut wm = WindowManager::new();
    let mut config = wm.get_config().clone();
    config.window_gap = 2000;
    wm.update_config(config);
    assert_eq!(wm.arrange_system_windows::<TwoWindows>(&[1]), Err(WmError::ScreenTooSmall));
    assert!(wm.system_windows.is_empty());
}
