//! The list of image tabs of a session: which tab is shown, which layer is
//! selected for merge adjustments, the counter that names new tabs, and
//! whether the merged map must be rebuilt.
//!
//! The tabs themselves are of any type `T`; the session decides where they
//! go and which one is active.

use vstd::prelude::*;

verus! {

/// What the main area shows: one image tab, by position, or the merged map.
#[derive(Debug, PartialEq, Eq, Clone, Copy, Structural)]
pub enum ActiveTab {
    Image(usize),
    Merge,
}

/// Where an image file dropped onto the window goes.
#[derive(Debug, PartialEq, Eq, Clone, Copy, Structural)]
pub enum ImageDropTarget {
    /// Into the image tab at this position, which has no image yet.
    CurrentTab(usize),
    /// Into a new tab.
    NewTab,
}

/// A dropped image fills the shown image tab when that tab has no image
/// yet; otherwise, and over the merged map, it opens a new tab.
pub open spec fn image_drop_target_spec(active: ActiveTab, active_tab_has_image: bool) -> ImageDropTarget {
    match active {
        ActiveTab::Image(i) => if active_tab_has_image {
            ImageDropTarget::NewTab
        } else {
            ImageDropTarget::CurrentTab(i)
        },
        ActiveTab::Merge => ImageDropTarget::NewTab,
    }
}

/// Decides where a dropped image goes; `active_tab_has_image` tells
/// whether the shown image tab, if one is shown, already holds an image.
pub fn image_drop_target(active: ActiveTab, active_tab_has_image: bool) -> (t: ImageDropTarget)
    ensures
        t == image_drop_target_spec(active, active_tab_has_image),
{
    match active {
        ActiveTab::Image(i) => if active_tab_has_image {
            ImageDropTarget::NewTab
        } else {
            ImageDropTarget::CurrentTab(i)
        },
        ActiveTab::Merge => ImageDropTarget::NewTab,
    }
}

/// A dropped image goes into the shown image tab exactly when that tab
/// holds no image yet; otherwise, and over the merged map, it opens a new
/// tab.
pub proof fn lemma_drop_fills_empty_shown_tab(active: ActiveTab, active_tab_has_image: bool, i: usize)
    ensures
        image_drop_target_spec(active, active_tab_has_image) == ImageDropTarget::CurrentTab(i)
            <==> (active == ActiveTab::Image(i) && !active_tab_has_image),
        image_drop_target_spec(active, active_tab_has_image) == ImageDropTarget::NewTab
            <==> (active_tab_has_image || active == ActiveTab::Merge),
{
}

/// The abstract state of a session.
pub struct SessionView<T> {
    pub tabs: Seq<T>,
    pub next_tab_id: nat,
    pub active: ActiveTab,
    pub selected_layer: nat,
    pub merged_dirty: bool,
}

/// The open image tabs and the choices made among them.
pub struct TabSession<T> {
    tabs: Vec<T>,
    next_tab_id: usize,
    active_tab: ActiveTab,
    selected_layer_idx: usize,
    merged_dirty: bool,
}

impl<T> View for TabSession<T> {
    type V = SessionView<T>;

    closed spec fn view(&self) -> SessionView<T> {
        SessionView {
            tabs: self.tabs@,
            next_tab_id: self.next_tab_id as nat,
            active: self.active_tab,
            selected_layer: self.selected_layer_idx as nat,
            merged_dirty: self.merged_dirty,
        }
    }
}

/// The active tab, if it is an image tab, is one of the `n` tabs.
pub open spec fn active_in_range(active: ActiveTab, n: nat) -> bool {
    match active {
        ActiveTab::Image(i) => i < n,
        ActiveTab::Merge => true,
    }
}

/// A session holds at least one tab and its selected layer is one of them.
pub open spec fn session_wf<T>(s: SessionView<T>) -> bool {
    &&& s.tabs.len() >= 1
    &&& s.selected_layer < s.tabs.len()
}

/// The active tab after removing the tab at `idx` from `n` tabs: the same
/// tab where it survives, else the one before it (or the first).
pub open spec fn active_after_close(active: ActiveTab, idx: nat) -> ActiveTab {
    match active {
        ActiveTab::Image(current) => {
            if current == idx {
                ActiveTab::Image(if idx == 0 { 0 } else { (idx - 1) as usize })
            } else if current > idx {
                ActiveTab::Image((current - 1) as usize)
            } else {
                active
            }
        },
        ActiveTab::Merge => active,
    }
}

/// The session after closing the tab at `idx`; a lone tab is never closed.
pub open spec fn closed_tab<T>(s: SessionView<T>, idx: nat) -> SessionView<T> {
    if s.tabs.len() <= 1 {
        s
    } else {
        let tabs = s.tabs.remove(idx as int);
        SessionView {
            tabs,
            next_tab_id: s.next_tab_id,
            active: active_after_close(s.active, idx),
            selected_layer: if s.selected_layer >= tabs.len() {
                (tabs.len() - 1) as nat
            } else {
                s.selected_layer
            },
            merged_dirty: true,
        }
    }
}

/// The session after appending `tab`, which becomes active and selected.
pub open spec fn pushed_tab<T>(s: SessionView<T>, tab: T) -> SessionView<T> {
    SessionView {
        tabs: s.tabs.push(tab),
        next_tab_id: s.next_tab_id,
        active: ActiveTab::Image(s.tabs.len() as usize),
        selected_layer: s.tabs.len(),
        merged_dirty: true,
    }
}

impl<T> TabSession<T> {
    /// A session of the single tab `first`, shown and selected; the next
    /// tab made will be named by id 2.
    pub fn new(first: T) -> (s: Self)
        ensures
            s@.tabs == seq![first],
            s@.next_tab_id == 2,
            s@.active == ActiveTab::Image(0),
            s@.selected_layer == 0,
            !s@.merged_dirty,
            session_wf(s@),
    {
        let mut tabs = Vec::new();
        tabs.push(first);
        TabSession {
            tabs,
            next_tab_id: 2,
            active_tab: ActiveTab::Image(0),
            selected_layer_idx: 0,
            merged_dirty: false,
        }
    }

    /// Number of tabs.
    pub fn len(&self) -> (n: usize)
        ensures
            n == self@.tabs.len(),
    {
        self.tabs.len()
    }

    /// All tabs, in order.
    pub fn tabs(&self) -> (t: &Vec<T>)
        ensures
            t@ == self@.tabs,
    {
        &self.tabs
    }

    /// The tab at position `i`.
    pub fn tab(&self, i: usize) -> (t: &T)
        requires
            i < self@.tabs.len(),
        ensures
            *t == self@.tabs[i as int],
    {
        &self.tabs[i]
    }

    /// The tab at position `i`, to change in place; nothing else changes.
    pub fn tab_mut(&mut self, i: usize) -> (t: &mut T)
        requires
            i < old(self)@.tabs.len(),
        ensures
            *t == old(self)@.tabs[i as int],
            final(self)@ == (SessionView {
                tabs: old(self)@.tabs.update(i as int, *final(t)),
                ..old(self)@
            }),
    {
        &mut self.tabs[i]
    }

    /// What the main area shows.
    pub fn active_tab(&self) -> (a: ActiveTab)
        ensures
            a == self@.active,
    {
        self.active_tab
    }

    /// Whether the main area shows the image tab at position `i`; a status
    /// message that tab produces is shown only then.
    pub fn shows_image(&self, i: usize) -> (b: bool)
        ensures
            b == (self@.active == ActiveTab::Image(i)),
    {
        match self.active_tab {
            ActiveTab::Image(j) => j == i,
            ActiveTab::Merge => false,
        }
    }

    /// The layer whose merge adjustments are being edited.
    pub fn selected_layer(&self) -> (i: usize)
        ensures
            i == self@.selected_layer,
    {
        self.selected_layer_idx
    }

    /// Whether the merged map must be rebuilt.
    pub fn merged_dirty(&self) -> (d: bool)
        ensures
            d == self@.merged_dirty,
    {
        self.merged_dirty
    }

    /// The id the next new tab will get.
    pub fn next_tab_id(&self) -> (id: usize)
        ensures
            id == self@.next_tab_id,
    {
        self.next_tab_id
    }

    /// Hands out the id for a new tab and advances the counter.
    pub fn allocate_tab_id(&mut self) -> (id: usize)
        requires
            old(self)@.next_tab_id < usize::MAX,
        ensures
            id == old(self)@.next_tab_id,
            final(self)@ == (SessionView { next_tab_id: old(self)@.next_tab_id + 1, ..old(self)@ }),
    {
        let id = self.next_tab_id;
        self.next_tab_id = self.next_tab_id + 1;
        id
    }

    /// Appends `tab`, makes it the active tab and the selected layer, and
    /// marks the merged map for rebuilding.
    pub fn push_tab(&mut self, tab: T)
        ensures
            final(self)@ == pushed_tab(old(self)@, tab),
    {
        self.tabs.push(tab);
        let new_idx = self.tabs.len() - 1;
        self.active_tab = ActiveTab::Image(new_idx);
        self.selected_layer_idx = new_idx;
        self.merged_dirty = true;
    }

    /// Closes the tab at `idx` unless it is the last one left. The tab
    /// before it becomes active if it was; a tab after it keeps being shown.
    pub fn close_tab(&mut self, idx: usize)
        requires
            old(self)@.tabs.len() <= 1 || idx < old(self)@.tabs.len(),
        ensures
            final(self)@ == closed_tab(old(self)@, idx as nat),
    {
        if self.tabs.len() <= 1 {
            return;
        }
        self.tabs.remove(idx);
        match self.active_tab {
            ActiveTab::Image(current) => {
                if current == idx {
                    self.active_tab = ActiveTab::Image(if idx == 0 { 0 } else { idx - 1 });
                } else if current > idx {
                    self.active_tab = ActiveTab::Image(current - 1);
                }
            },
            ActiveTab::Merge => {},
        }
        if self.selected_layer_idx >= self.tabs.len() {
            self.selected_layer_idx = self.tabs.len() - 1;
        }
        self.merged_dirty = true;
    }

    /// Shows image tab `i` and selects it as the layer to adjust.
    pub fn select_tab(&mut self, i: usize)
        requires
            i < old(self)@.tabs.len(),
        ensures
            final(self)@ == (SessionView {
                active: ActiveTab::Image(i),
                selected_layer: i as nat,
                ..old(self)@
            }),
    {
        self.active_tab = ActiveTab::Image(i);
        self.selected_layer_idx = i;
    }

    /// Shows the merged map, which is then rebuilt.
    pub fn select_merge(&mut self)
        ensures
            final(self)@ == (SessionView { active: ActiveTab::Merge, merged_dirty: true, ..old(self)@ }),
    {
        self.active_tab = ActiveTab::Merge;
        self.merged_dirty = true;
    }

    /// Selects layer `i` for merge adjustments.
    pub fn select_layer(&mut self, i: usize)
        requires
            i < old(self)@.tabs.len(),
        ensures
            final(self)@ == (SessionView { selected_layer: i as nat, ..old(self)@ }),
    {
        self.selected_layer_idx = i;
    }

    /// Marks the merged map for rebuilding.
    pub fn mark_merged_dirty(&mut self)
        ensures
            final(self)@ == (SessionView { merged_dirty: true, ..old(self)@ }),
    {
        self.merged_dirty = true;
    }

    /// Records that the merged map has been rebuilt.
    pub fn clear_merged_dirty(&mut self)
        ensures
            final(self)@ == (SessionView { merged_dirty: false, ..old(self)@ }),
    {
        self.merged_dirty = false;
    }

    /// Falls back to the first tab when the active image tab is gone.
    pub fn ensure_active_valid(&mut self)
        ensures
            final(self)@ == (SessionView {
                active: if active_in_range(old(self)@.active, old(self)@.tabs.len()) {
                    old(self)@.active
                } else {
                    ActiveTab::Image(0)
                },
                ..old(self)@
            }),
    {
        match self.active_tab {
            ActiveTab::Image(idx) => {
                if idx >= self.tabs.len() {
                    self.active_tab = ActiveTab::Image(0);
                }
            },
            ActiveTab::Merge => {},
        }
    }

    /// Replaces every tab by those of a loaded project, or by `fallback`
    /// alone when it has none; shows and selects the first, sets the id
    /// counter past the tabs, and marks the merged map for rebuilding.
    pub fn reload(&mut self, loaded: Vec<T>, fallback: T)
        requires
            loaded@.len() < usize::MAX,
        ensures
            final(self)@.tabs == if loaded@.len() == 0 { seq![fallback] } else { loaded@ },
            final(self)@.next_tab_id == final(self)@.tabs.len() + 1,
            final(self)@.active == ActiveTab::Image(0),
            final(self)@.selected_layer == 0,
            final(self)@.merged_dirty,
    {
        self.tabs = loaded;
        if self.tabs.len() == 0 {
            self.tabs.push(fallback);
        }
        self.next_tab_id = self.tabs.len() + 1;
        self.active_tab = ActiveTab::Image(0);
        self.selected_layer_idx = 0;
        self.merged_dirty = true;
    }
}


/// Closing a tab keeps a session well formed, with its active tab among
/// its tabs.
pub proof fn lemma_close_keeps_session_valid<T>(s: SessionView<T>, idx: nat)
    requires
        session_wf(s),
        active_in_range(s.active, s.tabs.len()),
        idx < s.tabs.len(),
    ensures
        session_wf(closed_tab(s, idx)),
        active_in_range(closed_tab(s, idx).active, closed_tab(s, idx).tabs.len()),
{
}

/// Adding a tab keeps a session well formed, with its active tab among its
/// tabs.
pub proof fn lemma_push_keeps_session_valid<T>(s: SessionView<T>, tab: T)
    requires
        session_wf(s),
    ensures
        session_wf(pushed_tab(s, tab)),
        active_in_range(pushed_tab(s, tab).active, pushed_tab(s, tab).tabs.len()),
{
}

/// Closing the shown tab shows the tab that stood just before it, or the
/// new first tab when the first one was closed.
pub proof fn lemma_close_shown_tab_shows_previous<T>(s: SessionView<T>, idx: nat)
    requires
        1 < s.tabs.len() <= usize::MAX,
        idx < s.tabs.len(),
        s.active == ActiveTab::Image(idx as usize),
    ensures
        closed_tab(s, idx).active matches ActiveTab::Image(c) && c < closed_tab(s, idx).tabs.len() && (
        if idx > 0 {
            c == idx - 1 && closed_tab(s, idx).tabs[c as int] == s.tabs[idx - 1]
        } else {
            c == 0 && closed_tab(s, idx).tabs[0] == s.tabs[1]
        }),
{
}

/// Closing the tab at `idx` of more than one removes just that tab: those
/// before it keep their places, those after it move up by one.
pub proof fn lemma_close_removes_only_that_tab<T>(s: SessionView<T>, idx: nat)
    requires
        s.tabs.len() > 1,
        idx < s.tabs.len(),
    ensures
        closed_tab(s, idx).tabs.len() == s.tabs.len() - 1,
        forall|j: int| 0 <= j < idx ==> closed_tab(s, idx).tabs[j] == s.tabs[j],
        forall|j: int| idx <= j < s.tabs.len() - 1 ==> closed_tab(s, idx).tabs[j] == s.tabs[j + 1],
        closed_tab(s, idx).next_tab_id == s.next_tab_id,
        closed_tab(s, idx).merged_dirty,
{
}

/// Closing a tab keeps the selected layer where it still names a tab, and
/// otherwise selects the last tab left.
pub proof fn lemma_close_selected_layer<T>(s: SessionView<T>, idx: nat)
    requires
        s.tabs.len() > 1,
        idx < s.tabs.len(),
    ensures
        s.selected_layer < s.tabs.len() - 1 ==> closed_tab(s, idx).selected_layer == s.selected_layer,
        s.selected_layer >= s.tabs.len() - 1 ==> closed_tab(s, idx).selected_layer == s.tabs.len() - 2,
{
}

/// Closing a tab other than the shown one keeps the same tab shown.
pub proof fn lemma_close_keeps_shown_tab<T>(s: SessionView<T>, idx: nat, current: usize)
    requires
        s.tabs.len() > 1,
        idx < s.tabs.len(),
        s.active == ActiveTab::Image(current),
        current < s.tabs.len(),
        current != idx,
    ensures
        closed_tab(s, idx).active matches ActiveTab::Image(c)
            && c < closed_tab(s, idx).tabs.len()
            && closed_tab(s, idx).tabs[c as int] == s.tabs[current as int],
{
}

/// Closing the tab just added gives back the tabs there were before.
pub proof fn lemma_close_undoes_push<T>(s: SessionView<T>, tab: T)
    requires
        s.tabs.len() >= 1,
    ensures
        closed_tab(pushed_tab(s, tab), s.tabs.len()).tabs == s.tabs,
{
    assert(s.tabs.push(tab).remove(s.tabs.len() as int) =~= s.tabs);
}

/// The last tab of a session is never closed.
pub proof fn lemma_lone_tab_stays<T>(s: SessionView<T>, idx: nat)
    requires
        s.tabs.len() <= 1,
    ensures
        closed_tab(s, idx) == s,
{
}

} // verus!
