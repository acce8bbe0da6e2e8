//! A workspace: an ordered set of window identifiers with a focus pointer.
use vstd::prelude::*;
use crate::layout::LayoutType;
use crate::text::same_text;
use crate::sources::new_id;

verus! {

/// An ordered, named group of windows sharing one layout and one focus.
#[derive(Clone, Debug)]
pub struct Workspace {
    pub id: String,
    pub name: String,
    pub layout: LayoutType,
    /// Window identifiers in insertion order, which is the tiling order.
    pub windows: Vec<String>,
    pub focused_window: Option<String>,
}

/// The characters of each identifier in `ids`.
pub open spec fn id_texts(ids: Seq<String>) -> Seq<Seq<char>> {
    ids.map_values(|s: String| s@)
}

/// Position of the first identifier in `ids` that reads `id`, if any.
pub fn index_of(ids: &Vec<String>, id: &str) -> (r: Option<usize>)
    ensures
        match r {
            Some(i) => i < ids@.len() && ids@[i as int]@ == id@ && forall|j: int|
                0 <= j < i ==> ids@[j]@ != id@,
            None => !id_texts(ids@).contains(id@),
        },
{
    let mut i: usize = 0;
    while i < ids.len()
        invariant
            0 <= i <= ids@.len(),
            forall|j: int| 0 <= j < i ==> ids@[j]@ != id@,
        decreases ids@.len() - i,
    {
        if same_text(ids[i].as_str(), id) {
            return Some(i);
        }
        i = i + 1;
    }
    proof {
        if id_texts(ids@).contains(id@) {
            let j = choose|j: int| 0 <= j < id_texts(ids@).len() && id_texts(ids@)[j] == id@;
            assert(ids@[j]@ == id@);
        }
    }
    None
}

impl Workspace {
    /// The window identifiers as character sequences.
    pub open spec fn ids(&self) -> Seq<Seq<char>> {
        id_texts(self.windows@)
    }

    /// The focused identifier as a character sequence.
    pub open spec fn focus(&self) -> Option<Seq<char>> {
        match self.focused_window {
            Some(f) => Some(f@),
            None => None,
        }
    }

    /// No identifier appears twice, and the focus, if any, is one of them.
    pub open spec fn wf(&self) -> bool {
        &&& self.ids().no_duplicates()
        &&& match self.focus() {
            Some(f) => self.ids().contains(f),
            None => true,
        }
    }

    /// An empty workspace with a freshly generated identifier and no focus.
    pub fn new(name: String, layout: LayoutType) -> (r: Workspace)
        ensures
            r.name == name,
            r.layout == layout,
            r.windows@.len() == 0,
            r.focused_window is None,
            r.id@.len() == 36,
            r.wf(),
    {
        Workspace { id: new_id(), name, layout, windows: Vec::new(), focused_window: None }
    }

    /// Appends `window_id` and focuses it; does nothing if it is already present.
    pub fn add_window(&mut self, window_id: String)
        ensures
            old(self).ids().contains(window_id@) ==> *final(self) == *old(self),
            !old(self).ids().contains(window_id@) ==> {
                &&& final(self).windows@ == old(self).windows@.push(window_id)
                &&& final(self).focused_window == Some(window_id)
                &&& final(self).id == old(self).id
                &&& final(self).name == old(self).name
                &&& final(self).layout == old(self).layout
            },
            final(self).ids().contains(window_id@),
            old(self).wf() ==> final(self).wf(),
    {
        match index_of(&self.windows, window_id.as_str()) {
            Some(i) => {
                assert(self.ids()[i as int] == window_id@);
            },
            None => {
                let ghost before = self.ids();
                let focus = window_id.clone();
                self.windows.push(window_id);
                self.focused_window = Some(focus);
                assert(self.ids() =~= before.push(focus@));
                assert(self.ids()[before.len() as int] == focus@);
            },
        }
    }

    /// Removes `window_id`; if it held the focus, the focus moves to the last
    /// remaining window, or to none when the workspace is now empty.
    pub fn remove_window(&mut self, window_id: &str)
        requires
            old(self).wf(),
        ensures
            final(self).wf(),
            final(self).id == old(self).id,
            final(self).name == old(self).name,
            final(self).layout == old(self).layout,
            !final(self).ids().contains(window_id@),
            forall|k: int|
                0 <= k < old(self).windows@.len() && old(self).ids()[k] == window_id@
                    ==> final(self).windows@ == old(self).windows@.remove(k),
            !old(self).ids().contains(window_id@) ==> final(self).windows@ == old(self).windows@,
            old(self).focus() == Some(window_id@) && final(self).windows@.len() == 0
                ==> final(self).focused_window is None,
            old(self).focus() == Some(window_id@) && final(self).windows@.len() > 0
                ==> final(self).focused_window == Some(final(self).windows@.last()),
            old(self).focus() != Some(window_id@)
                ==> final(self).focused_window == old(self).focused_window,
    {
        let ghost before = self.windows@;
        let found = index_of(&self.windows, window_id);
        match found {
            Some(k) => {
                self.windows.remove(k);
                proof {
                    assert(id_texts(before)[k as int] == window_id@);
                    assert(self.windows@ =~= before.remove(k as int));
                    assert forall|j: int| 0 <= j < before.len() && id_texts(before)[j] == window_id@
                        implies j == k by {
                        assert(id_texts(before)[k as int] == window_id@);
                    }
                    assert(self.ids() =~= id_texts(before).remove(k as int));
                    assert(self.ids().no_duplicates());
                    if self.ids().contains(window_id@) {
                        let j = choose|j: int| 0 <= j < self.ids().len() && self.ids()[j] == window_id@;
                        if j < k {
                            assert(id_texts(before)[j] == window_id@);
                        } else {
                            assert(id_texts(before)[j + 1] == window_id@);
                        }
                    }
                }
            },
            None => {},
        }
        let focused_here = match &self.focused_window {
            Some(f) => same_text(f.as_str(), window_id),
            None => false,
        };
        if focused_here {
            let n = self.windows.len();
            if n == 0 {
                self.focused_window = None;
            } else {
                self.focused_window = Some(self.windows[n - 1].clone());
                assert(self.ids()[n - 1] == self.windows@[n - 1]@);
            }
        }
        proof {
            match self.focus() {
                Some(f) => {
                    if !focused_here {
                        let j = choose|j: int| 0 <= j < id_texts(before).len() && id_texts(before)[j] == f;
                        assert(f != window_id@);
                        match found {
                            Some(k) => {
                                if j < k {
                                    assert(self.ids()[j] == f);
                                } else {
                                    assert(j != k);
                                    assert(self.ids()[j - 1] == f);
                                }
                            },
                            None => {
                                assert(self.ids()[j] == f);
                            },
                        }
                    }
                },
                None => {},
            }
        }
    }

    /// Focuses `window_id` if it is a member; otherwise does nothing.
    pub fn focus_window(&mut self, window_id: &str)
        ensures
            old(self).ids().contains(window_id@) ==> {
                &&& final(self).focus() == Some(window_id@)
                &&& final(self).windows == old(self).windows
                &&& final(self).id == old(self).id
                &&& final(self).name == old(self).name
                &&& final(self).layout == old(self).layout
            },
            !old(self).ids().contains(window_id@) ==> *final(self) == *old(self),
            old(self).wf() ==> final(self).wf(),
    {
        match index_of(&self.windows, window_id) {
            Some(i) => {
                assert(self.ids()[i as int] == window_id@);
                self.focused_window = Some(window_id.to_owned());
            },
            None => {},
        }
    }

    /// The window identifiers in insertion order.
    pub fn get_windows(&self) -> (r: &[String])
        ensures
            r@ == self.windows@,
    {
        self.windows.as_slice()
    }

    /// Replaces the layout; the windows are not re-arranged here.
    pub fn set_layout(&mut self, layout: LayoutType)
        ensures
            final(self).layout == layout,
            final(self).id == old(self).id,
            final(self).name == old(self).name,
            final(self).windows == old(self).windows,
            final(self).focused_window == old(self).focused_window,
    {
        self.layout = layout;
    }
}

} // verus!
