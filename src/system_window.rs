//! The mirror of the operating system's windows and the driver that reaches them.
use vstd::prelude::*;
use std::collections::HashMap;
use crate::error::WmError;
use crate::layout::{fits_tiling, tiling_fits, tiling_layout};
use crate::window_manager::WindowManager;

verus! {

broadcast use vstd::std_specs::hash::group_hash_axioms;

/// A snapshot of one operating-system window as the driver last reported it.
#[derive(Clone, Debug)]
pub struct SystemWindow {
    /// Opaque token that only the driver interprets; never a pointer here.
    pub handle: u64,
    pub title: String,
    pub process_name: String,
    pub pid: u32,
    pub x: i32,
    pub y: i32,
    pub width: u32,
    pub height: u32,
    pub is_visible: bool,
    pub is_minimized: bool,
    pub is_maximized: bool,
}

impl SystemWindow {
    /// A field-by-field copy.
    pub fn duplicate(&self) -> (r: SystemWindow)
        ensures
            r == *self,
    {
        SystemWindow {
            handle: self.handle,
            title: self.title.clone(),
            process_name: self.process_name.clone(),
            pid: self.pid,
            x: self.x,
            y: self.y,
            width: self.width,
            height: self.height,
            is_visible: self.is_visible,
            is_minimized: self.is_minimized,
            is_maximized: self.is_maximized,
        }
    }
}

/// The operations that a platform offers on its real windows. Each returns the
/// platform's reason on failure; nothing is assumed of what a call does.
pub trait SystemWindowManager {
    /// Every window that the platform lists.
    fn get_all_windows() -> Result<Vec<SystemWindow>, String>;

    /// The window with this handle; `Ok(None)` when there is none.
    fn get_window_by_handle(handle: u64) -> Result<Option<SystemWindow>, String>;

    fn move_window(handle: u64, x: i32, y: i32) -> Result<(), String>;

    fn resize_window(handle: u64, width: u32, height: u32) -> Result<(), String>;

    fn set_window_position_and_size(handle: u64, x: i32, y: i32, width: u32, height: u32) -> Result<
        (),
        String,
    >;

    fn minimize_window(handle: u64) -> Result<(), String>;

    fn maximize_window(handle: u64) -> Result<(), String>;

    fn restore_window(handle: u64) -> Result<(), String>;

    fn close_window(handle: u64) -> Result<(), String>;

    fn focus_window(handle: u64) -> Result<(), String>;

    fn hide_window(handle: u64) -> Result<(), String>;

    fn show_window(handle: u64) -> Result<(), String>;
}

/// The mirror built from an enumeration: each window under its handle, a later
/// entry replacing an earlier one with the same handle.
pub open spec fn mirror_of(ws: Seq<SystemWindow>) -> Map<u64, SystemWindow>
    decreases ws.len(),
{
    if ws.len() == 0 {
        Map::empty()
    } else {
        mirror_of(ws.drop_last()).insert(ws.last().handle, ws.last())
    }
}

/// A mirror built from an enumeration holds exactly the handles that the
/// enumeration lists: a handle missing from it is gone, whatever was there before.
pub proof fn lemma_mirror_handles(ws: Seq<SystemWindow>, handle: u64)
    ensures
        mirror_of(ws).contains_key(handle) <==> exists|i: int|
            0 <= i < ws.len() && (#[trigger] ws[i]).handle == handle,
    decreases ws.len(),
{
    if ws.len() > 0 {
        let rest = ws.drop_last();
        lemma_mirror_handles(rest, handle);
        if mirror_of(ws).contains_key(handle) && ws.last().handle != handle {
            let i = choose|i: int| 0 <= i < rest.len() && (#[trigger] rest[i]).handle == handle;
            assert(ws[i] == rest[i]);
        }
        if exists|i: int| 0 <= i < ws.len() && (#[trigger] ws[i]).handle == handle {
            let i = choose|i: int| 0 <= i < ws.len() && (#[trigger] ws[i]).handle == handle;
            if i < ws.len() - 1 {
                assert(rest[i] == ws[i]);
            }
        }
    }
}

/// When the enumeration lists every handle once, the mirror holds each listed
/// window, unchanged, under its handle.
pub proof fn lemma_mirror_entries(ws: Seq<SystemWindow>)
    requires
        forall|i: int, j: int|
            0 <= i < ws.len() && 0 <= j < ws.len() && i != j ==> (#[trigger] ws[i]).handle != (
            #[trigger] ws[j]).handle,
    ensures
        forall|i: int|
            0 <= i < ws.len() ==> mirror_of(ws).contains_key((#[trigger] ws[i]).handle) && mirror_of(
                ws,
            )[ws[i].handle] == ws[i],
    decreases ws.len(),
{
    if ws.len() > 0 {
        let rest = ws.drop_last();
        assert forall|i: int, j: int|
            0 <= i < rest.len() && 0 <= j < rest.len() && i != j implies (#[trigger] rest[i]).handle
            != (#[trigger] rest[j]).handle by {
            assert(rest[i] == ws[i] && rest[j] == ws[j]);
        }
        lemma_mirror_entries(rest);
        assert forall|i: int| 0 <= i < ws.len() implies mirror_of(ws).contains_key(
            (#[trigger] ws[i]).handle,
        ) && mirror_of(ws)[ws[i].handle] == ws[i] by {
            if i < ws.len() - 1 {
                assert(rest[i] == ws[i]);
                assert(ws[i].handle != ws[ws.len() - 1].handle);
            }
        }
    }
}

/// `after` is `before`, or `before` with `handle` mapped to a fresh snapshot.
pub open spec fn refreshed(before: Map<u64, SystemWindow>, after: Map<u64, SystemWindow>, handle: u64) -> bool {
    after == before || exists|w: SystemWindow| after == before.insert(handle, w)
}

/// `after` agrees with `before` on every handle outside `handles`.
pub open spec fn same_outside(
    before: Map<u64, SystemWindow>,
    after: Map<u64, SystemWindow>,
    handles: Seq<u64>,
) -> bool {
    forall|h: u64|
        !handles.contains(h) ==> (#[trigger] after.contains_key(h) == before.contains_key(h)) && (
        before.contains_key(h) ==> after[h] == before[h])
}

impl WindowManager {
    /// Everything but the system-window mirror agrees.
    pub open spec fn same_logical(&self, other: WindowManager) -> bool {
        &&& self.windows == other.windows
        &&& self.workspaces == other.workspaces
        &&& self.active_workspace == other.active_workspace
        &&& self.config == other.config
    }

    /// The invariant does not look at the mirror.
    proof fn lemma_wf_mirror_only(before: WindowManager, after: WindowManager)
        requires
            before.wf(),
            after.same_logical(before),
        ensures
            after.wf(),
    {
        assert forall|l: int| 0 <= l < before.workspaces@.len() implies (#[trigger] after.workspaces@[l]).id
            == before.workspaces@[l].id && after.workspaces@[l].windows
            == before.workspaces@[l].windows && after.workspaces@[l].wf() by {
            assert(before.workspaces@[l].wf());
        }
        Self::lemma_wf_same_identity(before, after);
    }

    /// Enumerates the platform's windows and replaces the whole mirror with
    /// them: handles that the platform no longer lists are dropped.
    pub fn get_system_windows<D: SystemWindowManager>(&mut self) -> (r: Result<Vec<SystemWindow>, WmError>)
        requires
            old(self).wf(),
        ensures
            final(self).wf(),
            final(self).same_logical(*old(self)),
            match r {
                Ok(windows) => final(self).mirror() == mirror_of(windows@),
                Err(e) => e is PlatformError && final(self).mirror() == old(self).mirror(),
            },
    {
        match D::get_all_windows() {
            Ok(windows) => {
                let ghost before = *self;
                let mut mirror: HashMap<u64, SystemWindow> = HashMap::new();
                let mut i: usize = 0;
                while i < windows.len()
                    invariant
                        0 <= i <= windows@.len(),
                        mirror@ == mirror_of(windows@.subrange(0, i as int)),
                    decreases windows@.len() - i,
                {
                    proof {
                        let prefix = windows@.subrange(0, i + 1);
                        assert(prefix.drop_last() =~= windows@.subrange(0, i as int));
                        assert(prefix.last() == windows@[i as int]);
                    }
                    mirror.insert(windows[i].handle, windows[i].duplicate());
                    i = i + 1;
                }
                assert(windows@.subrange(0, i as int) =~= windows@);
                self.system_windows = mirror;
                proof {
                    Self::lemma_wf_mirror_only(before, *self);
                }
                Ok(windows)
            },
            Err(reason) => Err(WmError::PlatformError(reason)),
        }
    }

    /// Re-reads window `handle` from the platform and records it in the mirror
    /// if the platform still reports it; otherwise leaves the mirror alone.
    fn refresh_system_window<D: SystemWindowManager>(&mut self, handle: u64)
        requires
            old(self).wf(),
        ensures
            final(self).wf(),
            final(self).same_logical(*old(self)),
            refreshed(old(self).mirror(), final(self).mirror(), handle),
    {
        let ghost before = *self;
        match D::get_window_by_handle(handle) {
            Ok(Some(window)) => {
                self.system_windows.insert(handle, window);
                proof {
                    Self::lemma_wf_mirror_only(before, *self);
                }
            },
            _ => {},
        }
    }

    /// Moves system window `handle` to (`x`, `y`), then refreshes its mirror entry.
    pub fn move_system_window<D: SystemWindowManager>(&mut self, handle: u64, x: i32, y: i32) -> (r:
        Result<(), WmError>)
        requires
            old(self).wf(),
        ensures
            final(self).wf(),
            final(self).same_logical(*old(self)),
            match r {
                Ok(()) => refreshed(old(self).mirror(), final(self).mirror(), handle),
                Err(e) => e is PlatformError && final(self).mirror() == old(self).mirror(),
            },
    {
        match D::move_window(handle, x, y) {
            Ok(()) => {
                self.refresh_system_window::<D>(handle);
                Ok(())
            },
            Err(reason) => Err(WmError::PlatformError(reason)),
        }
    }

    /// Resizes system window `handle`, then refreshes its mirror entry.
    pub fn resize_system_window<D: SystemWindowManager>(
        &mut self,
        handle: u64,
        width: u32,
        height: u32,
    ) -> (r: Result<(), WmError>)
        requires
            old(self).wf(),
        ensures
            final(self).wf(),
            final(self).same_logical(*old(self)),
            match r {
                Ok(()) => refreshed(old(self).mirror(), final(self).mirror(), handle),
                Err(e) => e is PlatformError && final(self).mirror() == old(self).mirror(),
            },
    {
        match D::resize_window(handle, width, height) {
            Ok(()) => {
                self.refresh_system_window::<D>(handle);
                Ok(())
            },
            Err(reason) => Err(WmError::PlatformError(reason)),
        }
    }

    /// Moves and resizes system window `handle` in one call, then refreshes
    /// its mirror entry.
    pub fn set_system_window_bounds<D: SystemWindowManager>(
        &mut self,
        handle: u64,
        x: i32,
        y: i32,
        width: u32,
        height: u32,
    ) -> (r: Result<(), WmError>)
        requires
            old(self).wf(),
        ensures
            final(self).wf(),
            final(self).same_logical(*old(self)),
            match r {
                Ok(()) => refreshed(old(self).mirror(), final(self).mirror(), handle),
                Err(e) => e is PlatformError && final(self).mirror() == old(self).mirror(),
            },
    {
        match D::set_window_position_and_size(handle, x, y, width, height) {
            Ok(()) => {
                self.refresh_system_window::<D>(handle);
                Ok(())
            },
            Err(reason) => Err(WmError::PlatformError(reason)),
        }
    }

    /// Minimizes system window `handle`, then refreshes its mirror entry.
    pub fn minimize_system_window<D: SystemWindowManager>(&mut self, handle: u64) -> (r: Result<(), WmError>)
        requires
            old(self).wf(),
        ensures
            final(self).wf(),
            final(self).same_logical(*old(self)),
            match r {
                Ok(()) => refreshed(old(self).mirror(), final(self).mirror(), handle),
                Err(e) => e is PlatformError && final(self).mirror() == old(self).mirror(),
            },
    {
        match D::minimize_window(handle) {
            Ok(()) => {
                self.refresh_system_window::<D>(handle);
                Ok(())
            },
            Err(reason) => Err(WmError::PlatformError(reason)),
        }
    }

    /// Maximizes system window `handle`, then refreshes its mirror entry.
    pub fn maximize_system_window<D: SystemWindowManager>(&mut self, handle: u64) -> (r: Result<(), WmError>)
        requires
            old(self).wf(),
        ensures
            final(self).wf(),
            final(self).same_logical(*old(self)),
            match r {
                Ok(()) => refreshed(old(self).mirror(), final(self).mirror(), handle),
                Err(e) => e is PlatformError && final(self).mirror() == old(self).mirror(),
            },
    {
        match D::maximize_window(handle) {
            Ok(()) => {
                self.refresh_system_window::<D>(handle);
                Ok(())
            },
            Err(reason) => Err(WmError::PlatformError(reason)),
        }
    }

    /// Restores system window `handle`, then refreshes its mirror entry.
    pub fn restore_system_window<D: SystemWindowManager>(&mut self, handle: u64) -> (r: Result<(), WmError>)
        requires
            old(self).wf(),
        ensures
            final(self).wf(),
            final(self).same_logical(*old(self)),
            match r {
                Ok(()) => refreshed(old(self).mirror(), final(self).mirror(), handle),
                Err(e) => e is PlatformError && final(self).mirror() == old(self).mirror(),
            },
    {
        match D::restore_window(handle) {
            Ok(()) => {
                self.refresh_system_window::<D>(handle);
                Ok(())
            },
            Err(reason) => Err(WmError::PlatformError(reason)),
        }
    }

    /// Closes system window `handle` and, once the platform accepts, drops it
    /// from the mirror.
    pub fn close_system_window<D: SystemWindowManager>(&mut self, handle: u64) -> (r: Result<(), WmError>)
        requires
            old(self).wf(),
        ensures
            final(self).wf(),
            final(self).same_logical(*old(self)),
            match r {
                Ok(()) => final(self).mirror() == old(self).mirror().remove(handle),
                Err(e) => e is PlatformError && final(self).mirror() == old(self).mirror(),
            },
    {
        match D::close_window(handle) {
            Ok(()) => {
                let ghost before = *self;
                self.system_windows.remove(&handle);
                proof {
                    Self::lemma_wf_mirror_only(before, *self);
                }
                Ok(())
            },
            Err(reason) => Err(WmError::PlatformError(reason)),
        }
    }

    /// Gives system window `handle` the input focus, then refreshes its mirror entry.
    pub fn focus_system_window<D: SystemWindowManager>(&mut self, handle: u64) -> (r: Result<(), WmError>)
        requires
            old(self).wf(),
        ensures
            final(self).wf(),
            final(self).same_logical(*old(self)),
            match r {
                Ok(()) => refreshed(old(self).mirror(), final(self).mirror(), handle),
                Err(e) => e is PlatformError && final(self).mirror() == old(self).mirror(),
            },
    {
        match D::focus_window(handle) {
            Ok(()) => {
                self.refresh_system_window::<D>(handle);
                Ok(())
            },
            Err(reason) => Err(WmError::PlatformError(reason)),
        }
    }

    /// Hides system window `handle`, then refreshes its mirror entry.
    pub fn hide_system_window<D: SystemWindowManager>(&mut self, handle: u64) -> (r: Result<(), WmError>)
        requires
            old(self).wf(),
        ensures
            final(self).wf(),
            final(self).same_logical(*old(self)),
            match r {
                Ok(()) => refreshed(old(self).mirror(), final(self).mirror(), handle),
                Err(e) => e is PlatformError && final(self).mirror() == old(self).mirror(),
            },
    {
        match D::hide_window(handle) {
            Ok(()) => {
                self.refresh_system_window::<D>(handle);
                Ok(())
            },
            Err(reason) => Err(WmError::PlatformError(reason)),
        }
    }

    /// Shows system window `handle`, then refreshes its mirror entry.
    pub fn show_system_window<D: SystemWindowManager>(&mut self, handle: u64) -> (r: Result<(), WmError>)
        requires
            old(self).wf(),
        ensures
            final(self).wf(),
            final(self).same_logical(*old(self)),
            match r {
                Ok(()) => refreshed(old(self).mirror(), final(self).mirror(), handle),
                Err(e) => e is PlatformError && final(self).mirror() == old(self).mirror(),
            },
    {
        match D::show_window(handle) {
            Ok(()) => {
                self.refresh_system_window::<D>(handle);
                Ok(())
            },
            Err(reason) => Err(WmError::PlatformError(reason)),
        }
    }

    /// Tiles the given system windows on the configured screen, in order:
    /// handle `i` gets cell `i` of `tiling_layout`. The first platform failure
    /// stops the arrangement; the cells set before it stay set.
    pub fn arrange_system_windows<D: SystemWindowManager>(&mut self, window_handles: &[u64]) -> (r:
        Result<(), WmError>)
        requires
            old(self).wf(),
        ensures
            final(self).wf(),
            final(self).same_logical(*old(self)),
            same_outside(old(self).mirror(), final(self).mirror(), window_handles@),
            window_handles@.len() == 0 ==> r == Ok::<(), WmError>(()) && *final(self) == *old(self),
            window_handles@.len() > 0 && !tiling_fits(
                window_handles@.len() as int,
                old(self).config.screen_width as int,
                old(self).config.screen_height as int,
                old(self).config.window_gap as int,
            ) ==> r == Err::<(), WmError>(WmError::ScreenTooSmall) && *final(self) == *old(self),
            r == Err::<(), WmError>(WmError::ScreenTooSmall) ==> window_handles@.len() > 0
                && !tiling_fits(
                window_handles@.len() as int,
                old(self).config.screen_width as int,
                old(self).config.screen_height as int,
                old(self).config.window_gap as int,
            ),
            r is Err ==> r->Err_0 is PlatformError || r->Err_0 is ScreenTooSmall,
    {
        let width = self.config.screen_width;
        let height = self.config.screen_height;
        let gap = self.config.window_gap;
        let n = window_handles.len();
        if n == 0 {
            return Ok(());
        }
        if !fits_tiling(n, width, height, gap) {
            return Err(WmError::ScreenTooSmall);
        }
        let cells = tiling_layout(n, width, height, gap);
        let ghost before = *self;
        let mut i: usize = 0;
        while i < n
            invariant
                0 <= i <= n,
                n == window_handles@.len(),
                cells@.len() == n,
                before == *old(self),
                tiling_fits(
                    n as int,
                    before.config.screen_width as int,
                    before.config.screen_height as int,
                    before.config.window_gap as int,
                ),
                self.wf(),
                self.same_logical(before),
                same_outside(before.mirror(), self.mirror(), window_handles@),
            decreases n - i,
        {
            let cell = cells[i];
            let ghost prev = self.mirror();
            match self.set_system_window_bounds::<D>(window_handles[i], cell.x, cell.y, cell.width, cell.height) {
                Ok(()) => {},
                Err(e) => {
                    return Err(e);
                },
            }
            proof {
                let h0 = window_handles@[i as int];
                assert forall|h: u64| !window_handles@.contains(h) implies (#[trigger] self.mirror().contains_key(h)
                    == before.mirror().contains_key(h)) && (before.mirror().contains_key(h)
                    ==> self.mirror()[h] == before.mirror()[h]) by {
                    assert(h != h0);
                    assert(prev.contains_key(h) == before.mirror().contains_key(h));
                }
            }
            i = i + 1;
        }
        Ok(())
    }
}

} // verus!
