//! Selection of the host process's main window.
//!
//! The platform enumerates the top-level windows of the system and reports,
//! for each, the plain facts this choice needs: its handle, the process it
//! belongs to, whether it has an owner, and whether it is visible. This
//! module picks the main window out of that enumeration.

use vstd::prelude::*;

use crate::common::Handle;

verus! {

/// What the platform reports of one enumerated top-level window.
#[derive(Clone, Copy, Debug, PartialEq, Eq, Structural)]
pub struct WindowInfo {
    /// The window's handle.
    pub handle: Handle,
    /// The identifier of the process the window belongs to.
    pub process_id: u32,
    /// Whether the window has an owner window.
    pub has_owner: bool,
    /// Whether the window is visible.
    pub visible: bool,
}

/// Whether `w` is the main window of process `pid`: it belongs to the
/// process, has no owner, is visible, and is not the console window.
pub open spec fn is_main_window(w: WindowInfo, pid: u32, console: Handle) -> bool {
    &&& w.process_id == pid
    &&& !w.has_owner
    &&& w.visible
    &&& w.handle != console
}

/// Picks the main window of the process out of an enumeration of the
/// system's top-level windows: the first entry that belongs to the process,
/// has no owner, is visible and is not the console window — in the order
/// the platform enumerated them — or `None` when no entry qualifies.
pub fn find_window(windows: &Vec<WindowInfo>, process_id: u32, console: Handle) -> (r: Option<
    Handle,
>)
    ensures
        match r {
            Some(h) => exists|i: int|
                0 <= i < windows@.len() && is_main_window(windows@[i], process_id, console)
                    && windows@[i].handle == h && (forall|k: int|
                    0 <= k < i ==> !is_main_window(windows@[k], process_id, console)),
            None => forall|k: int|
                0 <= k < windows@.len() ==> !is_main_window(windows@[k], process_id, console),
        },
{
    let n = windows.len();
    let mut i: usize = 0;
    while i < n
        invariant
            n == windows@.len(),
            i <= n,
            forall|k: int| 0 <= k < i ==> !is_main_window(windows@[k], process_id, console),
        decreases n - i,
    {
        let w = windows[i];
        if w.process_id == process_id && !w.has_owner && w.visible && !(w.handle.0 == console.0) {
            return Some(w.handle);
        }
        i = i + 1;
    }
    None
}

} // verus!
