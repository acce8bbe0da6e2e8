//! The orchestrator: owns the windows, the workspaces, the active-workspace
//! pointer, the configuration and the system-window mirror.
use vstd::prelude::*;
use std::collections::HashMap;
use crate::config::Config;
use crate::error::WmError;
use crate::layout::{
    LayoutType, Rect, fits_tiling, is_tile, monocle_layout, tiling_fits, tiling_layout,
};
use crate::sources::{new_id, now_millis};
use crate::system_window::SystemWindow;
use crate::text::same_text;
use crate::workspace::{Workspace, id_texts};

verus! {

broadcast use vstd::std_specs::hash::group_hash_axioms;

/// Top-left corner of a managed window, in screen pixels.
#[derive(Clone, Copy, Debug, PartialEq, Eq, Structural)]
pub struct WindowPosition {
    pub x: i32,
    pub y: i32,
}

/// Size of a managed window, in pixels.
#[derive(Clone, Copy, Debug, PartialEq, Eq, Structural)]
pub struct WindowSize {
    pub width: u32,
    pub height: u32,
}

/// Lifecycle state of a managed window.
#[derive(Clone, Copy, Debug, PartialEq, Eq, Structural)]
pub enum WindowState {
    Normal,
    Minimized,
    Maximized,
    Fullscreen,
}

/// The logical record of an application window.
#[derive(Clone, Debug)]
pub struct ManagedWindow {
    pub id: String,
    pub title: String,
    pub app_name: String,
    /// The workspace whose window sequence holds this window.
    pub workspace_id: String,
    pub position: WindowPosition,
    pub size: WindowSize,
    pub state: WindowState,
    /// Creation time, in milliseconds since the Unix epoch (UTC).
    pub created_at: i64,
    /// Time of the last focus, in milliseconds since the Unix epoch (UTC).
    pub last_focused: i64,
}

/// The geometry of a window as a rectangle.
pub open spec fn geometry(w: ManagedWindow) -> Rect {
    Rect { x: w.position.x, y: w.position.y, width: w.size.width, height: w.size.height }
}

/// `a` and `b` agree on everything but position and size.
pub open spec fn same_but_geometry(a: ManagedWindow, b: ManagedWindow) -> bool {
    &&& a.id == b.id
    &&& a.title == b.title
    &&& a.app_name == b.app_name
    &&& a.workspace_id == b.workspace_id
    &&& a.state == b.state
    &&& a.created_at == b.created_at
    &&& a.last_focused == b.last_focused
}

/// `r` is where `layout` puts the window at sequence index `p` out of `n`.
pub open spec fn placed(r: Rect, layout: LayoutType, n: int, config: Config, p: int) -> bool {
    match layout {
        LayoutType::Tiling => is_tile(
            r,
            n,
            config.screen_width as int,
            config.screen_height as int,
            config.window_gap as int,
            p,
        ),
        LayoutType::Monocle => r == Rect {
            x: 0,
            y: 0,
            width: config.screen_width,
            height: config.screen_height,
        },
        LayoutType::Floating => true,
    }
}

/// `after` is `before` with every window named in `ids` moved to its slot of
/// `layout`; windows not named, and all windows under `Floating`, keep their geometry.
pub open spec fn arranged(
    before: Seq<ManagedWindow>,
    after: Seq<ManagedWindow>,
    ids: Seq<Seq<char>>,
    layout: LayoutType,
    config: Config,
) -> bool {
    &&& after.len() == before.len()
    &&& forall|i: int| 0 <= i < before.len() ==> same_but_geometry(#[trigger] after[i], before[i])
    &&& forall|i: int|
        0 <= i < before.len() && (layout == LayoutType::Floating || !ids.contains(before[i].id@))
            ==> #[trigger] after[i] == before[i]
    &&& forall|i: int, p: int|
        0 <= i < before.len() && 0 <= p < ids.len() && #[trigger] ids[p] == before[i].id@
            ==> placed(geometry(#[trigger] after[i]), layout, ids.len() as int, config, p)
}

/// Position of the window with identifier `id` in `windows`, if any.
fn find_window_in(windows: &Vec<ManagedWindow>, id: &str) -> (r: Option<usize>)
    ensures
        match r {
            Some(i) => i < windows@.len() && windows@[i as int].id@ == id@,
            None => forall|i: int| 0 <= i < windows@.len() ==> (#[trigger] windows@[i]).id@ != id@,
        },
{
    let mut i: usize = 0;
    while i < windows.len()
        invariant
            0 <= i <= windows@.len(),
            forall|j: int| 0 <= j < i ==> (#[trigger] windows@[j]).id@ != id@,
        decreases windows@.len() - i,
    {
        if same_text(windows[i].id.as_str(), id) {
            return Some(i);
        }
        i = i + 1;
    }
    None
}

/// Position of the workspace with identifier `id` in `workspaces`, if any.
fn find_workspace_in(workspaces: &Vec<Workspace>, id: &str) -> (r: Option<usize>)
    ensures
        match r {
            Some(k) => k < workspaces@.len() && workspaces@[k as int].id@ == id@,
            None => forall|k: int| 0 <= k < workspaces@.len() ==> (#[trigger] workspaces@[k]).id@ != id@,
        },
{
    let mut k: usize = 0;
    while k < workspaces.len()
        invariant
            0 <= k <= workspaces@.len(),
            forall|j: int| 0 <= j < k ==> (#[trigger] workspaces@[j]).id@ != id@,
        decreases workspaces@.len() - k,
    {
        if same_text(workspaces[k].id.as_str(), id) {
            return Some(k);
        }
        k = k + 1;
    }
    None
}

/// Gives the window named `ids[p]` the geometry `rects[p]`, for every `p`.
fn apply_rects(windows: &mut Vec<ManagedWindow>, ids: &Vec<String>, rects: &Vec<Rect>)
    requires
        ids@.len() == rects@.len(),
        id_texts(ids@).no_duplicates(),
        forall|i: int, j: int|
            0 <= i < old(windows)@.len() && 0 <= j < old(windows)@.len() && i != j
                ==> (#[trigger] old(windows)@[i]).id@ != (#[trigger] old(windows)@[j]).id@,
    ensures
        final(windows)@.len() == old(windows)@.len(),
        forall|i: int|
            0 <= i < old(windows)@.len() ==> same_but_geometry(
                #[trigger] final(windows)@[i],
                old(windows)@[i],
            ),
        forall|i: int|
            0 <= i < old(windows)@.len() && !id_texts(ids@).contains(old(windows)@[i].id@)
                ==> #[trigger] final(windows)@[i] == old(windows)@[i],
        forall|i: int, p: int|
            0 <= i < old(windows)@.len() && 0 <= p < ids@.len() && #[trigger] ids@[p]@
                == old(windows)@[i].id@ ==> geometry(#[trigger] final(windows)@[i]) == rects@[p],
{
    let ghost before = windows@;
    let mut p: usize = 0;
    while p < ids.len()
        invariant
            0 <= p <= ids@.len(),
            ids@.len() == rects@.len(),
            id_texts(ids@).no_duplicates(),
            forall|i: int, j: int|
                0 <= i < before.len() && 0 <= j < before.len() && i != j
                    ==> (#[trigger] before[i]).id@ != (#[trigger] before[j]).id@,
            windows@.len() == before.len(),
            forall|i: int| 0 <= i < before.len() ==> same_but_geometry(#[trigger] windows@[i], before[i]),
            forall|i: int|
                0 <= i < before.len() && (forall|q: int| 0 <= q < p ==> ids@[q]@ != before[i].id@)
                    ==> #[trigger] windows@[i] == before[i],
            forall|i: int, q: int|
                0 <= i < before.len() && 0 <= q < p && #[trigger] ids@[q]@ == before[i].id@
                    ==> geometry(#[trigger] windows@[i]) == rects@[q],
        decreases ids@.len() - p,
    {
        let ghost prev = windows@;
        match find_window_in(windows, ids[p].as_str()) {
            Some(i) => {
                let r = rects[p];
                windows[i].position = WindowPosition { x: r.x, y: r.y };
                windows[i].size = WindowSize { width: r.width, height: r.height };
                proof {
                    assert forall|j: int, q: int|
                        0 <= j < before.len() && 0 <= q < p + 1 && #[trigger] ids@[q]@ == before[j].id@
                        implies geometry(#[trigger] windows@[j]) == rects@[q] by {
                        if q < p && j == i {
                            assert(id_texts(ids@)[q] == id_texts(ids@)[p as int]);
                        } else if q == p && j != i {
                            assert(before[j].id@ != before[i as int].id@);
                        }
                    }
                }
            },
            None => {},
        }
        p = p + 1;
    }
    proof {
        assert forall|i: int|
            0 <= i < before.len() && !id_texts(ids@).contains(before[i].id@)
            implies #[trigger] windows@[i] == before[i] by {
            assert forall|q: int| 0 <= q < ids@.len() implies ids@[q]@ != before[i].id@ by {
                assert(id_texts(ids@)[q] == ids@[q]@);
            }
        }
    }
}

/// The workspace's layout can place its windows on the configured screen.
pub open spec fn layout_fits(ws: Workspace, config: Config) -> bool {
    ws.layout == LayoutType::Tiling ==> tiling_fits(
        ws.windows@.len() as int,
        config.screen_width as int,
        config.screen_height as int,
        config.window_gap as int,
    )
}

impl ManagedWindow {
    /// A field-by-field copy.
    pub fn duplicate(&self) -> (r: ManagedWindow)
        ensures
            r == *self,
    {
        ManagedWindow {
            id: self.id.clone(),
            title: self.title.clone(),
            app_name: self.app_name.clone(),
            workspace_id: self.workspace_id.clone(),
            position: self.position,
            size: self.size,
            state: self.state,
            created_at: self.created_at,
            last_focused: self.last_focused,
        }
    }
}

/// Owner of all shared collections. Every operation keeps `wf`.
pub struct WindowManager {
    pub windows: Vec<ManagedWindow>,
    pub workspaces: Vec<Workspace>,
    pub active_workspace: String,
    pub config: Config,
    /// Last known state of the platform's windows, by handle; a cache, not the truth.
    pub system_windows: HashMap<u64, SystemWindow>,
}

impl WindowManager {
    /// Some managed window has identifier `id`.
    pub open spec fn has_window(&self, id: Seq<char>) -> bool {
        exists|i: int| 0 <= i < self.windows@.len() && (#[trigger] self.windows@[i]).id@ == id
    }

    /// Some workspace has identifier `id`.
    pub open spec fn has_workspace(&self, id: Seq<char>) -> bool {
        exists|k: int| 0 <= k < self.workspaces@.len() && (#[trigger] self.workspaces@[k]).id@ == id
    }

    /// Index of the window with identifier `id`.
    pub open spec fn window_index(&self, id: Seq<char>) -> int {
        choose|i: int| 0 <= i < self.windows@.len() && (#[trigger] self.windows@[i]).id@ == id
    }

    /// Index of the workspace with identifier `id`.
    pub open spec fn workspace_index(&self, id: Seq<char>) -> int {
        choose|k: int| 0 <= k < self.workspaces@.len() && (#[trigger] self.workspaces@[k]).id@ == id
    }

    /// The last-known system windows.
    pub open spec fn mirror(&self) -> Map<u64, SystemWindow> {
        self.system_windows@
    }

    /// No two windows, and no two workspaces, share an identifier.
    pub open spec fn ids_unique(&self) -> bool {
        &&& forall|i: int, j: int|
            0 <= i < self.windows@.len() && 0 <= j < self.windows@.len() && i != j
                ==> (#[trigger] self.windows@[i]).id@ != (#[trigger] self.windows@[j]).id@
        &&& forall|k: int, l: int|
            0 <= k < self.workspaces@.len() && 0 <= l < self.workspaces@.len() && k != l
                ==> (#[trigger] self.workspaces@[k]).id@ != (#[trigger] self.workspaces@[l]).id@
    }

    /// Entry `p` of workspace `k` names a window that records workspace `k`.
    pub open spec fn entry_resolves(&self, k: int, p: int) -> bool {
        exists|i: int|
            0 <= i < self.windows@.len() && (#[trigger] self.windows@[i]).id@
                == self.workspaces@[k].windows@[p]@ && self.windows@[i].workspace_id@
                == self.workspaces@[k].id@
    }

    /// Window `i` is in the sequence of the workspace that it records.
    pub open spec fn window_listed(&self, i: int) -> bool {
        exists|k: int|
            0 <= k < self.workspaces@.len() && (#[trigger] self.workspaces@[k]).id@
                == self.windows@[i].workspace_id@ && self.workspaces@[k].ids().contains(
                self.windows@[i].id@,
            )
    }

    /// Every identifier in a workspace's sequence names a window that records
    /// that workspace, and every window is in the sequence of the workspace it records.
    pub open spec fn in_lockstep(&self) -> bool {
        &&& forall|k: int, p: int|
            0 <= k < self.workspaces@.len() && 0 <= p < self.workspaces@[k].windows@.len()
                ==> #[trigger] self.entry_resolves(k, p)
        &&& forall|i: int| 0 <= i < self.windows@.len() ==> #[trigger] self.window_listed(i)
    }

    /// The manager's invariant.
    pub open spec fn wf(&self) -> bool {
        &&& self.ids_unique()
        &&& forall|k: int| 0 <= k < self.workspaces@.len() ==> (#[trigger] self.workspaces@[k]).wf()
        &&& self.has_workspace(self.active_workspace@)
        &&& self.in_lockstep()
    }

    /// A manager with one empty tiling workspace named `Default`, made active,
    /// the default configuration and an empty mirror.
    pub fn new() -> (r: WindowManager)
        ensures
            r.wf(),
            r.windows@.len() == 0,
            r.workspaces@.len() == 1,
            r.workspaces@[0].name@ == "Default"@,
            r.workspaces@[0].layout == LayoutType::Tiling,
            r.workspaces@[0].windows@.len() == 0,
            r.workspaces@[0].focused_window is None,
            r.active_workspace == r.workspaces@[0].id,
            r.config.is_default(),
            r.mirror() == Map::<u64, SystemWindow>::empty(),
    {
        let workspace = Workspace::new("Default".to_owned(), LayoutType::Tiling);
        let active = workspace.id.clone();
        let mut workspaces: Vec<Workspace> = Vec::new();
        workspaces.push(workspace);
        let r = WindowManager {
            windows: Vec::new(),
            workspaces,
            active_workspace: active,
            config: Config::default(),
            system_windows: HashMap::new(),
        };
        assert(r.workspaces@[0].id@ == r.active_workspace@);
        r
    }

    /// Changing windows and workspaces in anything but their identifiers,
    /// memberships and sequences keeps the invariant.
    pub(crate) proof fn lemma_wf_same_identity(before: WindowManager, after: WindowManager)
        requires
            before.wf(),
            after.workspaces@.len() == before.workspaces@.len(),
            forall|l: int|
                0 <= l < before.workspaces@.len() ==> (#[trigger] after.workspaces@[l]).id
                    == before.workspaces@[l].id && after.workspaces@[l].windows
                    == before.workspaces@[l].windows && after.workspaces@[l].wf(),
            after.active_workspace == before.active_workspace || after.has_workspace(
                after.active_workspace@,
            ),
            after.windows@.len() == before.windows@.len(),
            forall|i: int|
                0 <= i < before.windows@.len() ==> (#[trigger] after.windows@[i]).id
                    == before.windows@[i].id && after.windows@[i].workspace_id
                    == before.windows@[i].workspace_id,
        ensures
            after.wf(),
    {
        assert forall|i: int, j: int|
            0 <= i < after.windows@.len() && 0 <= j < after.windows@.len() && i != j
            implies (#[trigger] after.windows@[i]).id@ != (#[trigger] after.windows@[j]).id@ by {
            assert(before.windows@[i].id@ != before.windows@[j].id@);
        }
        assert forall|k: int, p: int|
            0 <= k < after.workspaces@.len() && 0 <= p < after.workspaces@[k].windows@.len()
            implies #[trigger] after.entry_resolves(k, p) by {
            assert(before.entry_resolves(k, p));
            let i = choose|i: int|
                0 <= i < before.windows@.len() && (#[trigger] before.windows@[i]).id@
                    == before.workspaces@[k].windows@[p]@ && before.windows@[i].workspace_id@
                    == before.workspaces@[k].id@;
            assert(after.windows@[i].id == before.windows@[i].id);
            assert(after.workspaces@[k].windows == before.workspaces@[k].windows);
        }
        assert forall|i: int| 0 <= i < after.windows@.len() implies #[trigger] after.window_listed(i) by {
            assert(before.window_listed(i));
            let k = choose|k: int|
                0 <= k < before.workspaces@.len() && (#[trigger] before.workspaces@[k]).id@
                    == before.windows@[i].workspace_id@ && before.workspaces@[k].ids().contains(
                    before.windows@[i].id@,
                );
            assert(after.workspaces@[k].windows == before.workspaces@[k].windows);
            assert(after.workspaces@[k].ids() == before.workspaces@[k].ids());
        }
        assert(after.has_workspace(after.active_workspace@)) by {
            if after.active_workspace == before.active_workspace {
                let k = choose|k: int|
                    0 <= k < before.workspaces@.len() && (#[trigger] before.workspaces@[k]).id@
                        == before.active_workspace@;
                assert(after.workspaces@[k].id == before.workspaces@[k].id);
            }
        }
        assert forall|k: int, l: int|
            0 <= k < after.workspaces@.len() && 0 <= l < after.workspaces@.len() && k != l
            implies (#[trigger] after.workspaces@[k]).id@ != (#[trigger] after.workspaces@[l]).id@ by {
            assert(before.workspaces@[k].id@ != before.workspaces@[l].id@);
        }
        assert(after.ids_unique());
        assert(after.in_lockstep());
        assert(forall|k: int| 0 <= k < after.workspaces@.len() ==> (#[trigger] after.workspaces@[k]).wf());
    }

    /// With unique identifiers, the chosen index is the one found.
    proof fn lemma_workspace_index(&self, k: int)
        requires
            self.ids_unique(),
            0 <= k < self.workspaces@.len(),
        ensures
            self.workspace_index(self.workspaces@[k].id@) == k,
            self.has_workspace(self.workspaces@[k].id@),
    {
        assert(self.workspaces@[k] == self.workspaces@[k]);
    }

    /// With unique identifiers, the chosen index is the one found.
    proof fn lemma_window_index(&self, i: int)
        requires
            self.ids_unique(),
            0 <= i < self.windows@.len(),
        ensures
            self.window_index(self.windows@[i].id@) == i,
            self.has_window(self.windows@[i].id@),
    {
        assert(self.windows@[i] == self.windows@[i]);
    }

    /// The window record that `add_window` creates.
    pub open spec fn new_record(
        id: String,
        title: String,
        app_name: String,
        workspace_id: String,
        now: i64,
    ) -> ManagedWindow {
        ManagedWindow {
            id,
            title,
            app_name,
            workspace_id,
            position: WindowPosition { x: 0, y: 0 },
            size: WindowSize { width: 800, height: 600 },
            state: WindowState::Normal,
            created_at: now,
            last_focused: now,
        }
    }

    /// `after` is `before` with window `id`, created at `now`, added to the
    /// active workspace and focused there, and that workspace re-arranged when
    /// its layout fits the screen; `r` reports the outcome.
    pub open spec fn window_added(
        before: WindowManager,
        after: WindowManager,
        id: String,
        title: String,
        app_name: String,
        now: i64,
        r: Result<String, WmError>,
    ) -> bool {
        let k = before.workspace_index(before.active_workspace@);
        let ws = before.workspaces@[k];
        let grown = before.windows@.push(
            Self::new_record(id, title, app_name, before.active_workspace, now),
        );
        &&& after.workspaces@.len() == before.workspaces@.len()
        &&& forall|l: int|
            0 <= l < before.workspaces@.len() && l != k ==> #[trigger] after.workspaces@[l] == before.workspaces@[l]
        &&& after.workspaces@[k].windows@ == ws.windows@.push(id)
        &&& after.workspaces@[k].focused_window == Some(id)
        &&& after.workspaces@[k].id == ws.id
        &&& after.workspaces@[k].name == ws.name
        &&& after.workspaces@[k].layout == ws.layout
        &&& after.active_workspace == before.active_workspace
        &&& after.config == before.config
        &&& after.system_windows == before.system_windows
        &&& layout_fits(after.workspaces@[k], before.config) ==> r == Ok::<
            String,
            WmError,
        >(id) && arranged(
            grown,
            after.windows@,
            after.workspaces@[k].ids(),
            ws.layout,
            before.config,
        )
        &&& !layout_fits(after.workspaces@[k], before.config) ==> r == Err::<
            String,
            WmError,
        >(WmError::ScreenTooSmall) && after.windows@ == grown
    }

    /// The active workspace is among the workspaces.
    proof fn lemma_active_found(&self, found: Option<usize>)
        requires
            self.wf(),
            match found {
                Some(k) => k < self.workspaces@.len() && self.workspaces@[k as int].id@
                    == self.active_workspace@,
                None => forall|k: int|
                    0 <= k < self.workspaces@.len() ==> (#[trigger] self.workspaces@[k]).id@
                        != self.active_workspace@,
            },
        ensures
            found is Some,
    {
        let k = choose|k: int|
            0 <= k < self.workspaces@.len() && (#[trigger] self.workspaces@[k]).id@
                == self.active_workspace@;
        assert(self.workspaces@[k].id@ == self.active_workspace@);
    }

    /// Records a new window `id`, created at time `now`, in the active
    /// workspace, focuses it there and re-arranges that workspace. An `id`
    /// already in use is refused and nothing changes.
    pub fn add_window_with(&mut self, id: String, title: String, app_name: String, now: i64) -> (r:
        Result<String, WmError>)
        requires
            old(self).wf(),
        ensures
            final(self).wf(),
            old(self).has_window(id@) ==> r == Err::<String, WmError>(WmError::DuplicateId) && *final(self) == *old(self),
            !old(self).has_window(id@) ==> Self::window_added(*old(self), *final(self), id, title, app_name, now, r),
    {
        match find_window_in(&self.windows, id.as_str()) {
            Some(i) => {
                proof {
                    self.lemma_window_index(i as int);
                }
                return Err(WmError::DuplicateId);
            },
            None => {},
        }
        let found = find_workspace_in(&self.workspaces, self.active_workspace.as_str());
        proof {
            self.lemma_active_found(found);
        }
        let k = found.unwrap();
        proof {
            self.lemma_workspace_index(k as int);
        }
        let ghost before = *self;
        let record = ManagedWindow {
            id: id.clone(),
            title,
            app_name,
            workspace_id: self.active_workspace.clone(),
            position: WindowPosition { x: 0, y: 0 },
            size: WindowSize { width: 800, height: 600 },
            state: WindowState::Normal,
            created_at: now,
            last_focused: now,
        };
        self.windows.push(record);
        proof {
            if before.workspaces@[k as int].ids().contains(id@) {
                let p = choose|p: int|
                    0 <= p < before.workspaces@[k as int].ids().len()
                        && before.workspaces@[k as int].ids()[p] == id@;
                assert(before.entry_resolves(k as int, p));
            }
        }
        self.workspaces[k].add_window(id.clone());
        proof {
            let n = before.windows@.len() as int;
            let ws = before.workspaces@[k as int];
            assert(self.windows@[n].id@ == id@);
            assert forall|i: int, j: int|
                0 <= i < self.windows@.len() && 0 <= j < self.windows@.len() && i != j
                implies (#[trigger] self.windows@[i]).id@ != (#[trigger] self.windows@[j]).id@ by {
                if i < n && j < n {
                    assert(before.windows@[i] == self.windows@[i]);
                    assert(before.windows@[j] == self.windows@[j]);
                } else if i < n {
                    assert(before.windows@[i] == self.windows@[i]);
                } else {
                    assert(before.windows@[j] == self.windows@[j]);
                }
            }
            assert forall|l: int, m: int|
                0 <= l < self.workspaces@.len() && 0 <= m < self.workspaces@.len() && l != m
                implies (#[trigger] self.workspaces@[l]).id@ != (#[trigger] self.workspaces@[m]).id@ by {
                assert(before.workspaces@[l].id@ != before.workspaces@[m].id@);
            }
            assert forall|l: int| 0 <= l < self.workspaces@.len() implies (#[trigger] self.workspaces@[l]).wf() by {
                assert(before.workspaces@[l].wf());
            }
            assert(self.workspaces@[k as int].id@ == self.active_workspace@);
            assert forall|l: int, p: int|
                0 <= l < self.workspaces@.len() && 0 <= p < self.workspaces@[l].windows@.len()
                implies #[trigger] self.entry_resolves(l, p) by {
                if l == k && p == ws.windows@.len() {
                    assert(self.windows@[n].workspace_id@ == self.workspaces@[l].id@);
                } else {
                    assert(self.workspaces@[l].windows@[p] == before.workspaces@[l].windows@[p]);
                    assert(before.entry_resolves(l, p));
                    let i = choose|i: int|
                        0 <= i < before.windows@.len() && (#[trigger] before.windows@[i]).id@
                            == before.workspaces@[l].windows@[p]@ && before.windows@[i].workspace_id@
                            == before.workspaces@[l].id@;
                    assert(self.windows@[i] == before.windows@[i]);
                }
            }
            assert forall|i: int| 0 <= i < self.windows@.len() implies #[trigger] self.window_listed(i) by {
                if i == n {
                    assert(self.workspaces@[k as int].ids().contains(id@));
                } else {
                    assert(self.windows@[i] == before.windows@[i]);
                    assert(before.window_listed(i));
                    let l = choose|l: int|
                        0 <= l < before.workspaces@.len() && (#[trigger] before.workspaces@[l]).id@
                            == before.windows@[i].workspace_id@ && before.workspaces@[l].ids().contains(
                            before.windows@[i].id@,
                        );
                    if l == k {
                        let p = choose|p: int| 0 <= p < ws.ids().len() && ws.ids()[p] == before.windows@[i].id@;
                        assert(self.workspaces@[l].ids()[p] == before.windows@[i].id@);
                    }
                    assert(self.workspaces@[l].ids().contains(self.windows@[i].id@));
                }
            }
            assert(self.wf());
            self.lemma_workspace_index(k as int);
        }
        let active = self.active_workspace.clone();
        match self.arrange_workspace(active.as_str()) {
            Ok(()) => Ok(id),
            Err(e) => Err(e),
        }
    }

    /// Adds a window titled `title` of application `app_name` to the active
    /// workspace, under a freshly generated identifier, and returns that identifier.
    pub fn add_window(&mut self, title: String, app_name: String) -> (r: Result<String, WmError>)
        requires
            old(self).wf(),
        ensures
            final(self).wf(),
            r == Err::<String, WmError>(WmError::DuplicateId) ==> *final(self) == *old(self),
            r != Err::<String, WmError>(WmError::DuplicateId) ==> exists|id: String, now: i64|
                !old(self).has_window(id@) && Self::window_added(
                    *old(self),
                    *final(self),
                    id,
                    title,
                    app_name,
                    now,
                    r,
                ),
            match r {
                Ok(id) => !old(self).has_window(id@) && final(self).has_window(id@)
                    && final(self).windows@.len() == old(self).windows@.len() + 1
                    && final(self).workspaces@[old(self).workspace_index(
                    old(self).active_workspace@,
                )].ids().last() == id@,
                Err(e) => e == WmError::DuplicateId || e == WmError::ScreenTooSmall,
            },
    {
        let id = new_id();
        let now = now_millis();
        let ghost (gid, gtitle, gapp) = (id, title, app_name);
        let r = self.add_window_with(id, title, app_name, now);
        proof {
            if r != Err::<String, WmError>(WmError::DuplicateId) {
                assert(!old(self).has_window(gid@) && Self::window_added(
                    *old(self),
                    *self,
                    gid,
                    gtitle,
                    gapp,
                    now,
                    r,
                ));
            }
            if r is Ok {
                let n = old(self).windows@.len() as int;
                self.lemma_window_index(n);
            }
        }
        r
    }

    /// Deletes window `window_id`, takes it out of its workspace (moving that
    /// workspace's focus to its last remaining window if it held the focus)
    /// and re-arranges that workspace.
    pub fn remove_window(&mut self, window_id: &str) -> (r: Result<(), WmError>)
        requires
            old(self).wf(),
        ensures
            final(self).wf(),
            !old(self).has_window(window_id@) ==> r == Err::<(), WmError>(WmError::WindowNotFound)
                && *final(self) == *old(self),
            old(self).has_window(window_id@) ==> ({
                let i = old(self).window_index(window_id@);
                let k = old(self).workspace_index(old(self).windows@[i].workspace_id@);
                let ws = old(self).workspaces@[k];
                let after = final(self).workspaces@[k];
                let shrunk = old(self).windows@.remove(i);
                &&& final(self).workspaces@.len() == old(self).workspaces@.len()
                &&& forall|l: int|
                    0 <= l < old(self).workspaces@.len() && l != k ==> #[trigger] final(self).workspaces@[l]
                        == old(self).workspaces@[l]
                &&& !after.ids().contains(window_id@)
                &&& forall|p: int|
                    0 <= p < ws.windows@.len() && #[trigger] ws.ids()[p] == window_id@
                        ==> after.windows@ == ws.windows@.remove(p)
                &&& ws.focus() == Some(window_id@) && after.windows@.len() == 0
                    ==> after.focused_window is None
                &&& ws.focus() == Some(window_id@) && after.windows@.len() > 0
                    ==> after.focused_window == Some(after.windows@.last())
                &&& ws.focus() != Some(window_id@) ==> after.focused_window == ws.focused_window
                &&& after.id == ws.id
                &&& after.name == ws.name
                &&& after.layout == ws.layout
                &&& final(self).active_workspace == old(self).active_workspace
                &&& final(self).config == old(self).config
                &&& final(self).system_windows == old(self).system_windows
                &&& layout_fits(after, old(self).config) ==> r == Ok::<(), WmError>(()) && arranged(
                    shrunk,
                    final(self).windows@,
                    after.ids(),
                    ws.layout,
                    old(self).config,
                )
                &&& !layout_fits(after, old(self).config) ==> r == Err::<(), WmError>(
                    WmError::ScreenTooSmall,
                ) && final(self).windows@ == shrunk
            }),
    {
        let i = match find_window_in(&self.windows, window_id) {
            Some(i) => i,
            None => {
                return Err(WmError::WindowNotFound);
            },
        };
        proof {
            self.lemma_window_index(i as int);
        }
        let ghost before = *self;
        let removed = self.windows.remove(i);
        let found = find_workspace_in(&self.workspaces, removed.workspace_id.as_str());
        proof {
            assert(before.window_listed(i as int));
            if found is None {
                let l = choose|l: int|
                    0 <= l < before.workspaces@.len() && (#[trigger] before.workspaces@[l]).id@
                        == before.windows@[i as int].workspace_id@ && before.workspaces@[l].ids().contains(
                        before.windows@[i as int].id@,
                    );
                assert(self.workspaces@[l].id@ != removed.workspace_id@);
            }
        }
        let k = found.unwrap();
        proof {
            before.lemma_workspace_index(k as int);
        }
        self.workspaces[k].remove_window(window_id);
        proof {
            let n = before.windows@.len() as int;
            let ii = i as int;
            let ws = before.workspaces@[k as int];
            // where each remaining window came from
            assert forall|j: int| 0 <= j < self.windows@.len() implies #[trigger] self.windows@[j]
                == before.windows@[if j < ii { j } else { j + 1 }] by {}
            assert forall|a: int, b: int|
                0 <= a < self.windows@.len() && 0 <= b < self.windows@.len() && a != b
                implies (#[trigger] self.windows@[a]).id@ != (#[trigger] self.windows@[b]).id@ by {
                let oa = if a < ii { a } else { a + 1 };
                let ob = if b < ii { b } else { b + 1 };
                assert(before.windows@[oa].id@ != before.windows@[ob].id@);
            }
            assert forall|l: int, m: int|
                0 <= l < self.workspaces@.len() && 0 <= m < self.workspaces@.len() && l != m
                implies (#[trigger] self.workspaces@[l]).id@ != (#[trigger] self.workspaces@[m]).id@ by {
                assert(before.workspaces@[l].id@ != before.workspaces@[m].id@);
            }
            assert forall|l: int| 0 <= l < self.workspaces@.len() implies (#[trigger] self.workspaces@[l]).wf() by {
                assert(before.workspaces@[l].wf());
            }
            let a = choose|a: int|
                0 <= a < before.workspaces@.len() && (#[trigger] before.workspaces@[a]).id@
                    == before.active_workspace@;
            assert(self.workspaces@[a].id@ == self.active_workspace@);
            assert forall|l: int, p: int|
                0 <= l < self.workspaces@.len() && 0 <= p < self.workspaces@[l].windows@.len()
                implies #[trigger] self.entry_resolves(l, p) by {
                let q = if l != k {
                    p
                } else {
                    let pk = choose|pk: int| 0 <= pk < ws.ids().len() && ws.ids()[pk] == window_id@;
                    assert(ws.ids()[pk] == window_id@);
                    if p < pk { p } else { p + 1 }
                };
                if l == k {
                    let pk = choose|pk: int| 0 <= pk < ws.ids().len() && ws.ids()[pk] == window_id@;
                    assert(ws.ids()[pk] == window_id@);
                    assert(self.workspaces@[l].windows@ == ws.windows@.remove(pk));
                }
                assert(self.workspaces@[l].windows@[p] == before.workspaces@[l].windows@[q]);
                assert(before.entry_resolves(l, q));
                let j = choose|j: int|
                    0 <= j < before.windows@.len() && (#[trigger] before.windows@[j]).id@
                        == before.workspaces@[l].windows@[q]@ && before.windows@[j].workspace_id@
                        == before.workspaces@[l].id@;
                if j == ii {
                    if l == k {
                        assert(self.workspaces@[l].ids()[p] == window_id@);
                    } else {
                        assert(before.workspaces@[l].id@ != before.workspaces@[k as int].id@);
                    }
                }
                let nj = if j < ii { j } else { j - 1 };
                assert(self.windows@[nj] == before.windows@[j]);
            }
            assert forall|j: int| 0 <= j < self.windows@.len() implies #[trigger] self.window_listed(j) by {
                let oj = if j < ii { j } else { j + 1 };
                assert(self.windows@[j] == before.windows@[oj]);
                assert(before.window_listed(oj));
                let l = choose|l: int|
                    0 <= l < before.workspaces@.len() && (#[trigger] before.workspaces@[l]).id@
                        == before.windows@[oj].workspace_id@ && before.workspaces@[l].ids().contains(
                        before.windows@[oj].id@,
                    );
                if l == k {
                    let pk = choose|pk: int| 0 <= pk < ws.ids().len() && ws.ids()[pk] == window_id@;
                    assert(ws.ids()[pk] == window_id@);
                    let q = choose|q: int| 0 <= q < ws.ids().len() && ws.ids()[q] == before.windows@[oj].id@;
                    assert(before.windows@[oj].id@ != before.windows@[ii].id@);
                    assert(q != pk);
                    let nq = if q < pk { q } else { q - 1 };
                    assert(self.workspaces@[l].ids()[nq] == before.windows@[oj].id@);
                }
                assert(self.workspaces@[l].ids().contains(self.windows@[j].id@));
            }
            assert(self.wf());
            self.lemma_workspace_index(k as int);
            assert(self.windows@ =~= before.windows@.remove(ii));
        }
        match self.arrange_workspace(removed.workspace_id.as_str()) {
            Ok(()) => Ok(()),
            Err(e) => Err(e),
        }
    }

    /// `w` with its last-focus time set to `now`.
    pub open spec fn focused_at(w: ManagedWindow, now: i64) -> ManagedWindow {
        ManagedWindow {
            id: w.id,
            title: w.title,
            app_name: w.app_name,
            workspace_id: w.workspace_id,
            position: w.position,
            size: w.size,
            state: w.state,
            created_at: w.created_at,
            last_focused: now,
        }
    }

    /// `w` in lifecycle state `state`.
    pub open spec fn in_state(w: ManagedWindow, state: WindowState) -> ManagedWindow {
        ManagedWindow {
            id: w.id,
            title: w.title,
            app_name: w.app_name,
            workspace_id: w.workspace_id,
            position: w.position,
            size: w.size,
            state,
            created_at: w.created_at,
            last_focused: w.last_focused,
        }
    }

    /// `after` is `before` with window `window_id` focused in its workspace at
    /// time `now`; windows keep their order and nothing else changes.
    pub open spec fn window_focused(
        before: WindowManager,
        after: WindowManager,
        window_id: Seq<char>,
        now: i64,
    ) -> bool {
        let i = before.window_index(window_id);
        let k = before.workspace_index(before.windows@[i].workspace_id@);
        let ws = before.workspaces@[k];
                        &&& after.windows@ == before.windows@.update(
            i,
            Self::focused_at(before.windows@[i], now),
        )
        &&& after.workspaces@.len() == before.workspaces@.len()
        &&& forall|l: int|
            0 <= l < before.workspaces@.len() && l != k ==> #[trigger] after.workspaces@[l]
                == before.workspaces@[l]
        &&& after.workspaces@[k].focus() == Some(window_id)
        &&& after.workspaces@[k].windows == ws.windows
        &&& after.workspaces@[k].id == ws.id
        &&& after.workspaces@[k].name == ws.name
        &&& after.workspaces@[k].layout == ws.layout
        &&& after.active_workspace == before.active_workspace
        &&& after.config == before.config
        &&& after.system_windows == before.system_windows
    }

    /// The workspace of window `i` is among the workspaces.
    proof fn lemma_home_found(&self, i: int, found: Option<usize>)
        requires
            self.wf(),
            0 <= i < self.windows@.len(),
            match found {
                Some(k) => k < self.workspaces@.len() && self.workspaces@[k as int].id@
                    == self.windows@[i].workspace_id@,
                None => forall|k: int|
                    0 <= k < self.workspaces@.len() ==> (#[trigger] self.workspaces@[k]).id@
                        != self.windows@[i].workspace_id@,
            },
        ensures
            found is Some,
            found is Some ==> self.workspaces@[found->0 as int].ids().contains(self.windows@[i].id@),
    {
        assert(self.window_listed(i));
        let k = choose|k: int|
            0 <= k < self.workspaces@.len() && (#[trigger] self.workspaces@[k]).id@
                == self.windows@[i].workspace_id@ && self.workspaces@[k].ids().contains(
                self.windows@[i].id@,
            );
        assert(self.workspaces@[k].id@ == self.windows@[i].workspace_id@);
        if found is Some {
            let f = found->0 as int;
            if f != k {
                assert(self.workspaces@[f].id@ != self.workspaces@[k].id@);
            }
        }
    }

    /// Focuses window `window_id` at time `now`: its last-focus time becomes
    /// `now` and it becomes its workspace's focus. The order of windows is kept.
    pub fn focus_window_at(&mut self, window_id: &str, now: i64) -> (r: Result<(), WmError>)
        requires
            old(self).wf(),
        ensures
            final(self).wf(),
            !old(self).has_window(window_id@) ==> r == Err::<(), WmError>(WmError::WindowNotFound)
                && *final(self) == *old(self),
            old(self).has_window(window_id@) ==> r == Ok::<(), WmError>(()) && Self::window_focused(
                *old(self),
                *final(self),
                window_id@,
                now,
            ),
    {
        let i = match find_window_in(&self.windows, window_id) {
            Some(i) => i,
            None => {
                return Err(WmError::WindowNotFound);
            },
        };
        proof {
            self.lemma_window_index(i as int);
        }
        let ghost before = *self;
        let found = find_workspace_in(&self.workspaces, self.windows[i].workspace_id.as_str());
        proof {
            self.lemma_home_found(i as int, found);
        }
        let k = found.unwrap();
        proof {
            self.lemma_workspace_index(k as int);
        }
        self.windows[i].last_focused = now;
        self.workspaces[k].focus_window(window_id);
        proof {
            assert(self.windows@ =~= before.windows@.update(i as int, Self::focused_at(before.windows@[i as int], now)));
            assert forall|l: int| 0 <= l < before.workspaces@.len() implies (#[trigger] self.workspaces@[l]).id
                == before.workspaces@[l].id && self.workspaces@[l].windows
                == before.workspaces@[l].windows && self.workspaces@[l].wf() by {
                assert(before.workspaces@[l].wf());
            }
            Self::lemma_wf_same_identity(before, *self);
        }
        Ok(())
    }

    /// Focuses window `window_id`, stamping the current time as its last focus.
    pub fn focus_window(&mut self, window_id: &str) -> (r: Result<(), WmError>)
        requires
            old(self).wf(),
        ensures
            final(self).wf(),
            !old(self).has_window(window_id@) ==> r == Err::<(), WmError>(WmError::WindowNotFound)
                && *final(self) == *old(self),
            old(self).has_window(window_id@) ==> r == Ok::<(), WmError>(()) && exists|now: i64|
                Self::window_focused(*old(self), *final(self), window_id@, now),
    {
        let now = now_millis();
        let r = self.focus_window_at(window_id, now);
        proof {
            if old(self).has_window(window_id@) {
                assert(Self::window_focused(*old(self), *self, window_id@, now));
            }
        }
        r
    }

    /// Sets the lifecycle state of window `window_id` directly.
    fn set_window_state(&mut self, window_id: &str, state: WindowState) -> (r: Result<(), WmError>)
        requires
            old(self).wf(),
        ensures
            final(self).wf(),
            !old(self).has_window(window_id@) ==> r == Err::<(), WmError>(WmError::WindowNotFound)
                && *final(self) == *old(self),
            old(self).has_window(window_id@) ==> r == Ok::<(), WmError>(()) && final(self).windows@
                == old(self).windows@.update(
                old(self).window_index(window_id@),
                Self::in_state(old(self).windows@[old(self).window_index(window_id@)], state),
            ) && final(self).workspaces == old(self).workspaces && final(self).active_workspace
                == old(self).active_workspace && final(self).config == old(self).config
                && final(self).system_windows == old(self).system_windows,
    {
        let i = match find_window_in(&self.windows, window_id) {
            Some(i) => i,
            None => {
                return Err(WmError::WindowNotFound);
            },
        };
        proof {
            self.lemma_window_index(i as int);
        }
        let ghost before = *self;
        self.windows[i].state = state;
        proof {
            assert(self.windows@ =~= before.windows@.update(i as int, Self::in_state(before.windows@[i as int], state)));
            assert forall|l: int| 0 <= l < before.workspaces@.len() implies (#[trigger] self.workspaces@[l]).id
                == before.workspaces@[l].id && self.workspaces@[l].windows
                == before.workspaces@[l].windows && self.workspaces@[l].wf() by {
                assert(before.workspaces@[l].wf());
            }
            Self::lemma_wf_same_identity(before, *self);
        }
        Ok(())
    }

    /// Marks window `window_id` minimized; no platform call is made.
    pub fn minimize_window(&mut self, window_id: &str) -> (r: Result<(), WmError>)
        requires
            old(self).wf(),
        ensures
            final(self).wf(),
            !old(self).has_window(window_id@) ==> r == Err::<(), WmError>(WmError::WindowNotFound)
                && *final(self) == *old(self),
            old(self).has_window(window_id@) ==> r == Ok::<(), WmError>(()) && final(self).windows@
                == old(self).windows@.update(
                old(self).window_index(window_id@),
                Self::in_state(old(self).windows@[old(self).window_index(window_id@)], WindowState::Minimized),
            ) && final(self).workspaces == old(self).workspaces && final(self).active_workspace
                == old(self).active_workspace && final(self).config == old(self).config
                && final(self).system_windows == old(self).system_windows,
    {
        self.set_window_state(window_id, WindowState::Minimized)
    }

    /// Marks window `window_id` maximized; no platform call is made.
    pub fn maximize_window(&mut self, window_id: &str) -> (r: Result<(), WmError>)
        requires
            old(self).wf(),
        ensures
            final(self).wf(),
            !old(self).has_window(window_id@) ==> r == Err::<(), WmError>(WmError::WindowNotFound)
                && *final(self) == *old(self),
            old(self).has_window(window_id@) ==> r == Ok::<(), WmError>(()) && final(self).windows@
                == old(self).windows@.update(
                old(self).window_index(window_id@),
                Self::in_state(old(self).windows@[old(self).window_index(window_id@)], WindowState::Maximized),
            ) && final(self).workspaces == old(self).workspaces && final(self).active_workspace
                == old(self).active_workspace && final(self).config == old(self).config
                && final(self).system_windows == old(self).system_windows,
    {
        self.set_window_state(window_id, WindowState::Maximized)
    }

    /// Adds an empty workspace. A workspace whose identifier is already in use
    /// is refused and nothing changes.
    pub fn add_workspace(&mut self, workspace: Workspace) -> (r: Result<String, WmError>)
        requires
            old(self).wf(),
            workspace.windows@.len() == 0,
            workspace.focused_window is None,
        ensures
            final(self).wf(),
            old(self).has_workspace(workspace.id@) ==> r == Err::<String, WmError>(WmError::DuplicateId)
                && *final(self) == *old(self),
            !old(self).has_workspace(workspace.id@) ==> r == Ok::<String, WmError>(workspace.id)
                && final(self).workspaces@ == old(self).workspaces@.push(workspace)
                && final(self).windows == old(self).windows && final(self).active_workspace
                == old(self).active_workspace && final(self).config == old(self).config
                && final(self).system_windows == old(self).system_windows,
    {
        match find_workspace_in(&self.workspaces, workspace.id.as_str()) {
            Some(k) => {
                proof {
                    self.lemma_workspace_index(k as int);
                }
                return Err(WmError::DuplicateId);
            },
            None => {},
        }
        let ghost before = *self;
        let id = workspace.id.clone();
        self.workspaces.push(workspace);
        proof {
            let n = before.workspaces@.len() as int;
            assert forall|k: int, l: int|
                0 <= k < self.workspaces@.len() && 0 <= l < self.workspaces@.len() && k != l
                implies (#[trigger] self.workspaces@[k]).id@ != (#[trigger] self.workspaces@[l]).id@ by {
                if k < n && l < n {
                    assert(before.workspaces@[k].id@ != before.workspaces@[l].id@);
                } else if k < n {
                    assert(before.workspaces@[k] == self.workspaces@[k]);
                } else {
                    assert(before.workspaces@[l] == self.workspaces@[l]);
                }
            }
            assert forall|k: int| 0 <= k < self.workspaces@.len() implies (#[trigger] self.workspaces@[k]).wf() by {
                if k < n {
                    assert(before.workspaces@[k].wf());
                } else {
                    assert(self.workspaces@[k].ids() =~= Seq::<Seq<char>>::empty());
                }
            }
            let a = choose|a: int|
                0 <= a < before.workspaces@.len() && (#[trigger] before.workspaces@[a]).id@
                    == before.active_workspace@;
            assert(self.workspaces@[a].id@ == self.active_workspace@);
            assert forall|l: int, p: int|
                0 <= l < self.workspaces@.len() && 0 <= p < self.workspaces@[l].windows@.len()
                implies #[trigger] self.entry_resolves(l, p) by {
                assert(before.entry_resolves(l, p));
                let i = choose|i: int|
                    0 <= i < before.windows@.len() && (#[trigger] before.windows@[i]).id@
                        == before.workspaces@[l].windows@[p]@ && before.windows@[i].workspace_id@
                        == before.workspaces@[l].id@;
                assert(self.windows@[i] == before.windows@[i]);
            }
            assert forall|i: int| 0 <= i < self.windows@.len() implies #[trigger] self.window_listed(i) by {
                assert(before.window_listed(i));
                let l = choose|l: int|
                    0 <= l < before.workspaces@.len() && (#[trigger] before.workspaces@[l]).id@
                        == before.windows@[i].workspace_id@ && before.workspaces@[l].ids().contains(
                        before.windows@[i].id@,
                    );
                assert(self.workspaces@[l] == before.workspaces@[l]);
            }
        }
        Ok(id)
    }

    /// Creates an empty workspace named `name` with layout `layout`, under a
    /// freshly generated identifier, and returns that identifier.
    pub fn create_workspace(&mut self, name: String, layout: LayoutType) -> (r: Result<String, WmError>)
        requires
            old(self).wf(),
        ensures
            final(self).wf(),
            match r {
                Ok(id) => !old(self).has_workspace(id@) && final(self).workspaces@.len()
                    == old(self).workspaces@.len() + 1 && final(self).workspaces@.last().id == id
                    && final(self).workspaces@.last().name == name
                    && final(self).workspaces@.last().layout == layout
                    && final(self).workspaces@.last().windows@.len() == 0
                    && final(self).workspaces@.last().focused_window is None
                    && final(self).workspaces@.drop_last() == old(self).workspaces@
                    && final(self).windows == old(self).windows
                    && final(self).active_workspace == old(self).active_workspace
                    && final(self).config == old(self).config
                    && final(self).system_windows == old(self).system_windows,
                Err(e) => e == WmError::DuplicateId && *final(self) == *old(self),
            },
    {
        let workspace = Workspace::new(name, layout);
        let r = self.add_workspace(workspace);
        proof {
            if r is Ok {
                assert(self.workspaces@.drop_last() =~= old(self).workspaces@);
            }
        }
        r
    }

    /// Makes workspace `workspace_id` the active one. Windows of other
    /// workspaces are neither moved nor hidden.
    pub fn switch_workspace(&mut self, workspace_id: &str) -> (r: Result<(), WmError>)
        requires
            old(self).wf(),
        ensures
            final(self).wf(),
            !old(self).has_workspace(workspace_id@) ==> r == Err::<(), WmError>(
                WmError::WorkspaceNotFound,
            ) && *final(self) == *old(self),
            old(self).has_workspace(workspace_id@) ==> r == Ok::<(), WmError>(())
                && final(self).active_workspace@ == workspace_id@ && final(self).windows
                == old(self).windows && final(self).workspaces == old(self).workspaces
                && final(self).config == old(self).config && final(self).system_windows
                == old(self).system_windows,
    {
        match find_workspace_in(&self.workspaces, workspace_id) {
            Some(k) => {
                proof {
                    self.lemma_workspace_index(k as int);
                }
                let ghost before = *self;
                self.active_workspace = workspace_id.to_owned();
                assert(self.workspaces@[k as int].id@ == self.active_workspace@);
                proof {
                    Self::lemma_wf_same_identity(before, *self);
                }
                Ok(())
            },
            None => Err(WmError::WorkspaceNotFound),
        }
    }

    /// All managed windows.
    pub fn get_windows(&self) -> (r: &[ManagedWindow])
        ensures
            r@ == self.windows@,
    {
        self.windows.as_slice()
    }

    /// Copies of the windows that record workspace `workspace_id`, in order.
    pub fn get_workspace_windows(&self, workspace_id: &str) -> (r: Vec<ManagedWindow>)
        ensures
            r@ == self.windows@.filter(|w: ManagedWindow| w.workspace_id@ == workspace_id@),
    {
        let ghost keep = |w: ManagedWindow| w.workspace_id@ == workspace_id@;
        let mut out: Vec<ManagedWindow> = Vec::new();
        let mut i: usize = 0;
        while i < self.windows.len()
            invariant
                0 <= i <= self.windows@.len(),
                keep == (|w: ManagedWindow| w.workspace_id@ == workspace_id@),
                out@ == self.windows@.subrange(0, i as int).filter(keep),
            decreases self.windows@.len() - i,
        {
            proof {
                assert(self.windows@.subrange(0, i + 1).drop_last() =~= self.windows@.subrange(0, i as int));
            }
            if same_text(self.windows[i].workspace_id.as_str(), workspace_id) {
                out.push(self.windows[i].duplicate());
            }
            proof {
                reveal(Seq::filter);
                let prefix = self.windows@.subrange(0, i + 1);
                assert(prefix.last() == self.windows@[i as int]);
                assert(prefix.filter(keep) == if keep(prefix.last()) {
                    prefix.drop_last().filter(keep).push(prefix.last())
                } else {
                    prefix.drop_last().filter(keep)
                });
            }
            i = i + 1;
        }
        proof {
            assert(self.windows@.subrange(0, i as int) =~= self.windows@);
        }
        out
    }

    /// All workspaces.
    pub fn get_workspaces(&self) -> (r: &[Workspace])
        ensures
            r@ == self.workspaces@,
    {
        self.workspaces.as_slice()
    }

    /// The identifier of the active workspace.
    pub fn get_active_workspace(&self) -> (r: String)
        ensures
            r == self.active_workspace,
    {
        self.active_workspace.clone()
    }

    /// The current configuration.
    pub fn get_config(&self) -> (r: &Config)
        ensures
            *r == self.config,
    {
        &self.config
    }

    /// Replaces the whole configuration; windows are not re-arranged here.
    pub fn update_config(&mut self, config: Config)
        requires
            old(self).wf(),
        ensures
            final(self).wf(),
            final(self).config == config,
            final(self).windows == old(self).windows,
            final(self).workspaces == old(self).workspaces,
            final(self).active_workspace == old(self).active_workspace,
            final(self).system_windows == old(self).system_windows,
    {
        let ghost before = *self;
        self.config = config;
        proof {
            Self::lemma_wf_same_identity(before, *self);
        }
    }

    /// Re-applies the layout of workspace `workspace_id` to its windows, with the
    /// screen size and gap of the configuration. Floating is a successful no-op.
    pub fn arrange_workspace(&mut self, workspace_id: &str) -> (r: Result<(), WmError>)
        requires
            old(self).wf(),
        ensures
            final(self).wf(),
            final(self).workspaces == old(self).workspaces,
            final(self).active_workspace == old(self).active_workspace,
            final(self).config == old(self).config,
            final(self).system_windows == old(self).system_windows,
            !old(self).has_workspace(workspace_id@) ==> r == Err::<(), WmError>(
                WmError::WorkspaceNotFound,
            ) && final(self).windows == old(self).windows,
            old(self).has_workspace(workspace_id@) ==> ({
                let ws = old(self).workspaces@[old(self).workspace_index(workspace_id@)];
                &&& !layout_fits(ws, old(self).config) ==> r == Err::<(), WmError>(
                    WmError::ScreenTooSmall,
                ) && final(self).windows == old(self).windows
                &&& layout_fits(ws, old(self).config) ==> r == Ok::<(), WmError>(()) && arranged(
                    old(self).windows@,
                    final(self).windows@,
                    ws.ids(),
                    ws.layout,
                    old(self).config,
                )
            }),
    {
        let k = match find_workspace_in(&self.workspaces, workspace_id) {
            Some(k) => k,
            None => {
                return Err(WmError::WorkspaceNotFound);
            },
        };
        proof {
            self.lemma_workspace_index(k as int);
        }
        let ghost before = *self;
        let layout = self.workspaces[k].layout;
        let n = self.workspaces[k].windows.len();
        let width = self.config.screen_width;
        let height = self.config.screen_height;
        let gap = self.config.window_gap;
        let rects = match layout {
            LayoutType::Floating => {
                return Ok(());
            },
            LayoutType::Tiling => {
                if !fits_tiling(n, width, height, gap) {
                    return Err(WmError::ScreenTooSmall);
                }
                tiling_layout(n, width, height, gap)
            },
            LayoutType::Monocle => monocle_layout(n, width, height),
        };
        apply_rects(&mut self.windows, &self.workspaces[k].windows, &rects);
        proof {
            Self::lemma_wf_same_identity(before, *self);
            let ws = before.workspaces@[k as int];
            assert forall|i: int, p: int|
                0 <= i < before.windows@.len() && 0 <= p < ws.ids().len() && #[trigger] ws.ids()[p]
                    == before.windows@[i].id@ implies placed(
                geometry(#[trigger] self.windows@[i]),
                layout,
                ws.ids().len() as int,
                before.config,
                p,
            ) by {
                assert(ws.windows@[p]@ == ws.ids()[p]);
            }
        }
        Ok(())
    }
}

/// Windows and workspaces are kept in lockstep: every identifier in a
/// workspace's sequence names an existing window that records that workspace,
/// and every window is in the sequence of the existing workspace that it records.
pub proof fn lemma_windows_match_workspaces(wm: WindowManager)
    requires
        wm.wf(),
    ensures
        forall|k: int, p: int|
            0 <= k < wm.workspaces@.len() && 0 <= p < wm.workspaces@[k].windows@.len() ==> {
                let id = #[trigger] wm.workspaces@[k].ids()[p];
                &&& wm.has_window(id)
                &&& wm.windows@[wm.window_index(id)].workspace_id@ == wm.workspaces@[k].id@
            },
        forall|i: int|
            0 <= i < wm.windows@.len() ==> {
                let w = #[trigger] wm.windows@[i];
                &&& wm.has_workspace(w.workspace_id@)
                &&& wm.workspaces@[wm.workspace_index(w.workspace_id@)].ids().contains(w.id@)
            },
{
    assert forall|k: int, p: int|
        0 <= k < wm.workspaces@.len() && 0 <= p < wm.workspaces@[k].windows@.len() implies {
            let id = #[trigger] wm.workspaces@[k].ids()[p];
            &&& wm.has_window(id)
            &&& wm.windows@[wm.window_index(id)].workspace_id@ == wm.workspaces@[k].id@
        } by {
        assert(wm.entry_resolves(k, p));
        let i = choose|i: int|
            0 <= i < wm.windows@.len() && (#[trigger] wm.windows@[i]).id@
                == wm.workspaces@[k].windows@[p]@ && wm.windows@[i].workspace_id@
                == wm.workspaces@[k].id@;
        wm.lemma_window_index(i);
    }
    assert forall|i: int| 0 <= i < wm.windows@.len() implies {
        let w = #[trigger] wm.windows@[i];
        &&& wm.has_workspace(w.workspace_id@)
        &&& wm.workspaces@[wm.workspace_index(w.workspace_id@)].ids().contains(w.id@)
    } by {
        assert(wm.window_listed(i));
        let k = choose|k: int|
            0 <= k < wm.workspaces@.len() && (#[trigger] wm.workspaces@[k]).id@
                == wm.windows@[i].workspace_id@ && wm.workspaces@[k].ids().contains(
                wm.windows@[i].id@,
            );
        wm.lemma_workspace_index(k);
    }
}

} // verus!
