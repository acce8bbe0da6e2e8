//! Screen geometry, gaps and the pass-through settings of the host.
use vstd::prelude::*;

verus! {

/// Settings read by the layout engine (screen size, gap) and carried for the host.
#[derive(Clone, Debug)]
pub struct Config {
    pub window_gap: u32,
    pub screen_width: u32,
    pub screen_height: u32,
    pub auto_arrange: bool,
    pub focus_follows_mouse: bool,
    pub border_width: u32,
    pub border_color_active: String,
    pub border_color_inactive: String,
    pub keybindings: KeyBindings,
}

/// Accelerator strings for named actions.
#[derive(Clone, Debug)]
pub struct KeyBindings {
    pub switch_workspace_1: String,
    pub switch_workspace_2: String,
    pub switch_workspace_3: String,
    pub switch_workspace_4: String,
    pub close_window: String,
    pub toggle_layout: String,
    pub focus_next: String,
    pub focus_prev: String,
}

impl Default for Config {
    /// A 1920×1080 screen with 10-pixel gaps.
    fn default() -> (r: Self)
        ensures
            r.is_default(),
    {
        Config {
            window_gap: 10,
            screen_width: 1920,
            screen_height: 1080,
            auto_arrange: true,
            focus_follows_mouse: false,
            border_width: 2,
            border_color_active: "#0066cc".to_owned(),
            border_color_inactive: "#666666".to_owned(),
            keybindings: KeyBindings::default(),
        }
    }
}

impl Config {
    /// The configuration holds the default settings.
    pub open spec fn is_default(&self) -> bool {
        &&& self.window_gap == 10
        &&& self.screen_width == 1920
        &&& self.screen_height == 1080
        &&& self.auto_arrange
        &&& !self.focus_follows_mouse
        &&& self.border_width == 2
        &&& self.border_color_active@ == "#0066cc"@
        &&& self.border_color_inactive@ == "#666666"@
        &&& self.keybindings.is_default()
    }
}

impl KeyBindings {
    /// The bindings hold the default accelerators.
    pub open spec fn is_default(&self) -> bool {
        &&& self.switch_workspace_1@ == "Super+1"@
        &&& self.switch_workspace_2@ == "Super+2"@
        &&& self.switch_workspace_3@ == "Super+3"@
        &&& self.switch_workspace_4@ == "Super+4"@
        &&& self.close_window@ == "Super+q"@
        &&& self.toggle_layout@ == "Super+space"@
        &&& self.focus_next@ == "Super+j"@
        &&& self.focus_prev@ == "Super+k"@
    }
}

impl Default for KeyBindings {
    /// Super+1..4 switch workspaces; Super+q, Super+space, Super+j and Super+k
    /// close, toggle the layout and move focus.
    fn default() -> (r: Self)
        ensures
            r.is_default(),
    {
        KeyBindings {
            switch_workspace_1: "Super+1".to_owned(),
            switch_workspace_2: "Super+2".to_owned(),
            switch_workspace_3: "Super+3".to_owned(),
            switch_workspace_4: "Super+4".to_owned(),
            close_window: "Super+q".to_owned(),
            toggle_layout: "Super+space".to_owned(),
            focus_next: "Super+j".to_owned(),
            focus_prev: "Super+k".to_owned(),
        }
    }
}

} // verus!
