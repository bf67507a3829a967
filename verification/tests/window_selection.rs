//! Behaviour of main-window selection over a platform enumeration.

use hookcore::common::Handle;
use hookcore::window::{find_window, WindowInfo};

fn window(handle: usize, process_id: u32, has_owner: bool, visible: bool) -> WindowInfo {
    WindowInfo { handle: Handle(handle), process_id, has_owner, visible }
}

#[test]
fn picks_first_qualifying_window() {
    let console = Handle(0x50);
    let windows = vec![
        window(0x10, 7, false, false),  // invisible
        window(0x20, 8, false, true),   // another process
        window(0x30, 7, true, true),    // owned
        window(0x50, 7, false, true),   // the console itself
        window(0x60, 7, false, true),   // the main window
        window(0x70, 7, false, true),   // a later candidate, ignored
    ];
    assert_eq!(find_window(&windows, 7, console), Some(Handle(0x60)));
}

#[test]
fn no_qualifying_window_returns_none() {
    let console = Handle(0x50);
    let windows = vec![
        window(0x10, 9, false, true),
        window(0x20, 7, true, true),
        window(0x30, 7, false, false),
        window(0x50, 7, false, true),
    ];
    assert_eq!(find_window(&windows, 7, console), None);
    assert_eq!(find_window(&Vec::new(), 7, console), None);
}

#[test]
fn null_handles_are_recognized() {
    assert!(Handle::null().is_null());
    assert_eq!(Handle::null(), Handle(0));
    assert!(!Handle(0x60).is_null());
}
