//! State of the container/pod picker and of the settings overlay.

use vstd::prelude::*;
use crate::discovery::DiscoveredSource;

verus! {

/// Which picker is currently open.
#[derive(Clone, Copy, Debug, PartialEq, Eq, Structural)]
pub enum PickerMode {
    Docker,
    K8s,
}

/// State for the container/pod picker overlay.
pub struct PickerState {
    /// Whether the picker is visible
    pub visible: bool,
    /// Which picker mode (Docker or K8s)
    pub mode: PickerMode,
    /// Discovered sources
    pub sources: Vec<DiscoveredSource>,
    /// Currently selected index
    pub selected: usize,
    /// Which items are checked for multi-select
    pub checked: Vec<bool>,
    /// Loading state
    pub loading: bool,
    /// Error message if discovery failed
    pub error: Option<String>,
}

/// The indices below `n` of checked entries that have a source, in order.
pub open spec fn checked_indices(checked: Seq<bool>, n_sources: nat, n: nat) -> Seq<int>
    decreases n,
{
    if n == 0 {
        seq![]
    } else {
        let rest = checked_indices(checked, n_sources, (n - 1) as nat);
        if n - 1 < n_sources && n - 1 < checked.len() && checked[n - 1] {
            rest.push(n - 1)
        } else {
            rest
        }
    }
}

/// The indices of checked entries that have a source.
pub open spec fn all_checked(checked: Seq<bool>, n_sources: nat) -> Seq<int> {
    checked_indices(checked, n_sources, checked.len())
}

impl Default for PickerState {
    fn default() -> (r: Self)
        ensures
            !r.visible,
            r.mode == PickerMode::Docker,
            r.sources@.len() == 0,
            r.selected == 0,
            r.checked@.len() == 0,
            !r.loading,
            r.error.is_none(),
    {
        PickerState {
            visible: false,
            mode: PickerMode::Docker,
            sources: Vec::new(),
            selected: 0,
            checked: Vec::new(),
            loading: false,
            error: None,
        }
    }
}

impl PickerState {
    /// Open the picker with a specific mode.
    pub fn open(&mut self, mode: PickerMode)
        ensures
            final(self).visible,
            final(self).mode == mode,
            final(self).sources@.len() == 0,
            final(self).selected == 0,
            final(self).checked@.len() == 0,
            final(self).loading,
            final(self).error.is_none(),
    {
        self.visible = true;
        self.mode = mode;
        self.sources.clear();
        self.selected = 0;
        self.checked.clear();
        self.loading = true;
        self.error = None;
    }

    /// Close the picker.
    pub fn close(&mut self)
        ensures
            !final(self).visible,
            !final(self).loading,
            final(self).mode == old(self).mode,
            final(self).sources@ == old(self).sources@,
            final(self).selected == old(self).selected,
            final(self).checked@ == old(self).checked@,
            final(self).error == old(self).error,
    {
        self.visible = false;
        self.loading = false;
    }

    /// Set discovered sources: none checked, the first selected.
    pub fn set_sources(&mut self, sources: Vec<DiscoveredSource>)
        ensures
            final(self).sources@ == sources@,
            final(self).checked@ == Seq::new(sources@.len(), |i: int| false),
            final(self).selected == 0,
            !final(self).loading,
            final(self).visible == old(self).visible,
            final(self).mode == old(self).mode,
            final(self).error == old(self).error,
    {
        self.checked = vec![false; sources.len()];
        assert(self.checked@ =~= Seq::new(sources@.len(), |i: int| false));
        self.sources = sources;
        self.selected = 0;
        self.loading = false;
    }

    /// Set error state.
    pub fn set_error(&mut self, error: String)
        ensures
            final(self).error == Some(error),
            !final(self).loading,
            final(self).visible == old(self).visible,
            final(self).mode == old(self).mode,
            final(self).sources@ == old(self).sources@,
            final(self).selected == old(self).selected,
            final(self).checked@ == old(self).checked@,
    {
        self.error = Some(error);
        self.loading = false;
    }

    /// Navigate up.
    pub fn up(&mut self)
        ensures
            final(self).selected == if old(self).sources@.len() > 0 && old(self).selected > 0 {
                (old(self).selected - 1) as usize
            } else {
                old(self).selected
            },
            final(self).sources@ == old(self).sources@,
            final(self).checked@ == old(self).checked@,
            final(self).visible == old(self).visible,
    {
        if self.sources.len() > 0 && self.selected > 0 {
            self.selected -= 1;
        }
    }

    /// Navigate down.
    pub fn down(&mut self)
        ensures
            final(self).selected == if old(self).sources@.len() > 0 && old(self).selected + 1
                < old(self).sources@.len() {
                (old(self).selected + 1) as usize
            } else {
                old(self).selected
            },
            final(self).sources@ == old(self).sources@,
            final(self).checked@ == old(self).checked@,
            final(self).visible == old(self).visible,
    {
        if self.sources.len() > 0 && self.selected < self.sources.len() - 1 {
            self.selected += 1;
        }
    }

    /// Toggle the checkbox on the selected item.
    pub fn toggle_selected(&mut self)
        ensures
            final(self).checked@ == if old(self).selected < old(self).checked@.len() {
                old(self).checked@.update(
                    old(self).selected as int,
                    !old(self).checked@[old(self).selected as int],
                )
            } else {
                old(self).checked@
            },
            final(self).sources@ == old(self).sources@,
            final(self).selected == old(self).selected,
            final(self).visible == old(self).visible,
    {
        if self.selected < self.checked.len() {
            let s = self.selected;
            let v = self.checked[s];
            self.checked.set(s, !v);
        }
    }

    /// Get checked sources, in order.
    pub fn get_checked_sources(&self) -> (r: Vec<&DiscoveredSource>)
        ensures
            r@.len() == all_checked(self.checked@, self.sources@.len()).len(),
            forall|i: int|
                0 <= i < r@.len() ==> *r@[i] == self.sources@[all_checked(
                    self.checked@,
                    self.sources@.len(),
                )[i]],
    {
        let mut out: Vec<&DiscoveredSource> = Vec::new();
        let mut i: usize = 0;
        while i < self.checked.len()
            invariant
                i <= self.checked@.len(),
                out@.len() == checked_indices(self.checked@, self.sources@.len(), i as nat).len(),
                forall|j: int|
                    0 <= j < out@.len() ==> *out@[j] == self.sources@[checked_indices(
                        self.checked@,
                        self.sources@.len(),
                        i as nat,
                    )[j]],
                forall|j: int|
                    0 <= j < checked_indices(self.checked@, self.sources@.len(), i as nat).len()
                        ==> 0 <= #[trigger] checked_indices(self.checked@, self.sources@.len(), i as nat)[j]
                        < self.sources@.len(),
            decreases self.checked@.len() - i,
        {
            if i < self.sources.len() && self.checked[i] {
                out.push(&self.sources[i]);
            }
            i += 1;
        }
        out
    }

    /// Check if any items are checked.
    pub fn has_selection(&self) -> (r: bool)
        ensures
            r == exists|i: int| 0 <= i < self.checked@.len() && self.checked@[i],
    {
        let mut i: usize = 0;
        while i < self.checked.len()
            invariant
                i <= self.checked@.len(),
                forall|j: int| 0 <= j < i ==> !self.checked@[j],
            decreases self.checked@.len() - i,
        {
            if self.checked[i] {
                return true;
            }
            i += 1;
        }
        false
    }

    /// The single selected source: the first checked one when any item is
    /// checked, else the highlighted one.
    pub fn get_selected_source(&self) -> (r: Option<&DiscoveredSource>)
        ensures
            (exists|i: int| 0 <= i < self.checked@.len() && self.checked@[i]) ==> r == if all_checked(
                self.checked@,
                self.sources@.len(),
            ).len() == 0 {
                None
            } else {
                Some(&self.sources@[all_checked(self.checked@, self.sources@.len())[0]])
            },
            !(exists|i: int| 0 <= i < self.checked@.len() && self.checked@[i]) ==> r == if self.selected
                < self.sources@.len() {
                Some(&self.sources@[self.selected as int])
            } else {
                None
            },
    {
        if self.has_selection() {
            let checked = self.get_checked_sources();
            if checked.len() > 0 {
                Some(checked[0])
            } else {
                None
            }
        } else if self.selected < self.sources.len() {
            Some(&self.sources[self.selected])
        } else {
            None
        }
    }
}

/// State for the settings overlay.
pub struct SettingsState {
    /// Whether the settings overlay is visible
    pub visible: bool,
    /// Currently selected setting index
    pub selected: usize,
}

impl Default for SettingsState {
    fn default() -> (r: Self)
        ensures
            !r.visible,
            r.selected == 0,
    {
        SettingsState { visible: false, selected: 0 }
    }
}

impl SettingsState {
    /// Number of settings available.
    pub const COUNT: usize = 4;

    /// Open the settings overlay.
    pub fn open(&mut self)
        ensures
            final(self).visible,
            final(self).selected == 0,
    {
        self.visible = true;
        self.selected = 0;
    }

    /// Close the settings overlay.
    pub fn close(&mut self)
        ensures
            !final(self).visible,
            final(self).selected == old(self).selected,
    {
        self.visible = false;
    }

    /// Navigate up.
    pub fn up(&mut self)
        ensures
            final(self).selected == if old(self).selected > 0 {
                (old(self).selected - 1) as usize
            } else {
                old(self).selected
            },
            final(self).visible == old(self).visible,
    {
        if self.selected > 0 {
            self.selected -= 1;
        }
    }

    /// Navigate down.
    pub fn down(&mut self)
        ensures
            final(self).selected == if old(self).selected < Self::COUNT - 1 {
                (old(self).selected + 1) as usize
            } else {
                old(self).selected
            },
            final(self).visible == old(self).visible,
    {
        if self.selected < Self::COUNT - 1 {
            self.selected += 1;
        }
    }
}

} // verus!
