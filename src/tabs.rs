//! The ordered list of open tabs, which one is active, and the commands that
//! change them. Each command returns what the host window has to do
//! (which surface to hide, which to show), so that the host work stays
//! outside this module.

use vstd::prelude::*;

verus! {

/// One open tab.
#[derive(Debug)]
pub struct TabInfo {
    pub id: String,
    /// `"home"` or `"paper"`.
    pub tab_type: String,
    pub paper_path: Option<String>,
    pub title: String,
}

/// The full session: tabs in insertion order and the id of the active one.
#[derive(Debug)]
pub struct TabState {
    pub tabs: Vec<TabInfo>,
    pub active_tab_id: String,
}

/// Mathematical model of a session.
pub struct SessionView {
    pub tabs: Seq<TabInfo>,
    pub active: Seq<char>,
}

/// `i` is the first index whose tab carries `id`.
pub open spec fn is_first_index(tabs: Seq<TabInfo>, id: Seq<char>, i: int) -> bool {
    &&& 0 <= i < tabs.len()
    &&& tabs[i].id@ == id
    &&& forall|j: int| 0 <= j < i ==> tabs[j].id@ != id
}

/// Index of the first tab carrying `id`, if any.
pub open spec fn position(tabs: Seq<TabInfo>, id: Seq<char>) -> Option<int> {
    if exists|i: int| is_first_index(tabs, id, i) {
        Some(choose|i: int| is_first_index(tabs, id, i))
    } else {
        None
    }
}

/// No two tabs share an id.
pub open spec fn unique_ids(tabs: Seq<TabInfo>) -> bool {
    forall|i: int, j: int|
        0 <= i < tabs.len() && 0 <= j < tabs.len() && i != j ==> tabs[i].id@ != tabs[j].id@
}

/// Maps an optional index to its model.
pub open spec fn opt_index(r: Option<usize>) -> Option<int> {
    match r {
        Some(i) => Some(i as int),
        None => None,
    }
}

/// The first index of an id is the one `position` gives.
pub proof fn lemma_first_index_unique(tabs: Seq<TabInfo>, id: Seq<char>, i: int)
    requires
        is_first_index(tabs, id, i),
    ensures
        position(tabs, id) == Some(i),
{
    let k = choose|k: int| is_first_index(tabs, id, k);
    assert(k == i) by {
        if k < i {
            assert(tabs[k].id@ != id);
        } else if i < k {
            assert(tabs[i].id@ != id);
        }
    }
}

/// With unique ids, each tab's id is found at its own index.
pub proof fn lemma_position_of_unique(tabs: Seq<TabInfo>, k: int)
    requires
        unique_ids(tabs),
        0 <= k < tabs.len(),
    ensures
        position(tabs, tabs[k].id@) == Some(k),
{
    assert(is_first_index(tabs, tabs[k].id@, k));
    lemma_first_index_unique(tabs, tabs[k].id@, k);
}

/// An id that some tab carries has a first index.
pub proof fn lemma_position_some(tabs: Seq<TabInfo>, id: Seq<char>, k: int)
    requires
        0 <= k < tabs.len(),
        tabs[k].id@ == id,
    ensures
        position(tabs, id) is Some,
    decreases k,
{
    if exists|j: int| 0 <= j < k && tabs[j].id@ == id {
        let j = choose|j: int| 0 <= j < k && tabs[j].id@ == id;
        lemma_position_some(tabs, id, j);
    } else {
        assert(is_first_index(tabs, id, k));
    }
}

/// An id without a first index is carried by no tab.
pub proof fn lemma_position_none(tabs: Seq<TabInfo>, id: Seq<char>)
    requires
        position(tabs, id) is None,
    ensures
        forall|k: int| 0 <= k < tabs.len() ==> tabs[k].id@ != id,
{
    assert forall|k: int| 0 <= k < tabs.len() implies tabs[k].id@ != id by {
        if tabs[k].id@ == id {
            lemma_position_some(tabs, id, k);
        }
    }
}

/// What `position` gives is a first index.
pub proof fn lemma_position_bounds(tabs: Seq<TabInfo>, id: Seq<char>)
    requires
        position(tabs, id) is Some,
    ensures
        is_first_index(tabs, id, position(tabs, id)->0),
{
}

/// Changing anything but the ids keeps the session well formed.
pub proof fn lemma_same_ids_wf(a: SessionView, b: SessionView)
    requires
        a.wf(),
        a.tabs.len() == b.tabs.len(),
        a.active == b.active,
        forall|k: int| 0 <= k < a.tabs.len() ==> a.tabs[k].id@ == b.tabs[k].id@,
    ensures
        b.wf(),
{
    if b.tabs.len() > 0 {
        let p = position(a.tabs, a.active)->0;
        lemma_position_bounds(a.tabs, a.active);
        lemma_position_some(b.tabs, b.active, p);
    }
}

/// Closing a tab keeps the session well formed.
pub proof fn lemma_closed_wf(s: SessionView, id: Seq<char>)
    requires
        s.wf(),
    ensures
        s.closed(id).wf(),
{
    if s.tabs.len() > 1 {
        if let Some(i) = position(s.tabs, id) {
            lemma_position_bounds(s.tabs, id);
            let rest = s.tabs.remove(i);
            assert forall|a: int, b: int|
                0 <= a < rest.len() && 0 <= b < rest.len() && a != b implies rest[a].id@
                != rest[b].id@ by {
                let a0 = if a < i { a } else { a + 1 };
                let b0 = if b < i { b } else { b + 1 };
                assert(rest[a] == s.tabs[a0]);
                assert(rest[b] == s.tabs[b0]);
            }
            let t = s.closed(id);
            if s.active == id {
                let k = SessionView::successor_index(i, rest.len() as int);
                lemma_position_some(rest, rest[k].id@, k);
            } else {
                let p = position(s.tabs, s.active)->0;
                lemma_position_bounds(s.tabs, s.active);
                assert(p != i);
                let q = if p < i { p } else { p - 1 };
                assert(rest[q] == s.tabs[p]);
                lemma_position_some(rest, s.active, q);
            }
        }
    }
}

/// Making a listed tab active keeps the session well formed.
pub proof fn lemma_switched_wf(s: SessionView, k: int)
    requires
        s.wf(),
        0 <= k < s.tabs.len(),
    ensures
        s.switched(s.tabs[k].id@).wf(),
{
    lemma_position_some(s.tabs, s.tabs[k].id@, k);
}

/// Opening a tab with a fresh id keeps the session well formed.
pub proof fn lemma_opened_wf(s: SessionView, info: TabInfo)
    requires
        s.wf(),
        position(s.tabs, info.id@) is None,
    ensures
        s.opened(info).wf(),
{
    lemma_position_none(s.tabs, info.id@);
    let t = s.opened(info);
    assert forall|a: int, b: int|
        0 <= a < t.tabs.len() && 0 <= b < t.tabs.len() && a != b implies t.tabs[a].id@
        != t.tabs[b].id@ by {
        if a < s.tabs.len() && b < s.tabs.len() {
            assert(t.tabs[a] == s.tabs[a]);
            assert(t.tabs[b] == s.tabs[b]);
        }
    }
    lemma_position_some(t.tabs, info.id@, s.tabs.len() as int);
}

/// Index of the first tab in `tabs` whose id is `id`.
pub fn find_index(tabs: &Vec<TabInfo>, id: &str) -> (r: Option<usize>)
    ensures
        opt_index(r) == position(tabs@, id@),
{
    let key = id.to_owned();
    let mut i: usize = 0;
    while i < tabs.len()
        invariant
            key@ == id@,
            i <= tabs@.len(),
            forall|j: int| 0 <= j < i ==> tabs@[j].id@ != id@,
        decreases tabs@.len() - i,
    {
        if tabs[i].id == key {
            proof {
                lemma_first_index_unique(tabs@, id@, i as int);
            }
            return Some(i);
        }
        i = i + 1;
    }
    None
}

impl SessionView {
    /// Ids are unique, and a session with tabs has its active id among them.
    pub open spec fn wf(self) -> bool {
        &&& unique_ids(self.tabs)
        &&& self.tabs.len() > 0 ==> position(self.tabs, self.active) is Some
    }

    /// A new tab appended and made active.
    pub open spec fn opened(self, info: TabInfo) -> SessionView {
        SessionView { tabs: self.tabs.push(info), active: info.id@ }
    }

    /// Whether closing `id` moves the active mark.
    pub open spec fn close_moves_active(self, id: Seq<char>) -> bool {
        &&& self.tabs.len() > 1
        &&& self.active == id
        &&& position(self.tabs, id) is Some
    }

    /// Index that becomes active after the active tab at `i` is removed from
    /// a list that then holds `len` tabs.
    pub open spec fn successor_index(i: int, len: int) -> int {
        if i < len {
            i
        } else {
            len - 1
        }
    }

    /// The session after closing `id`: nothing happens to a sole tab or to an
    /// unknown id; closing the active tab activates its right neighbour, or
    /// the new last tab.
    pub open spec fn closed(self, id: Seq<char>) -> SessionView {
        if self.tabs.len() <= 1 {
            self
        } else {
            match position(self.tabs, id) {
                None => self,
                Some(i) => {
                    let rest = self.tabs.remove(i);
                    if self.active == id {
                        SessionView {
                            tabs: rest,
                            active: rest[Self::successor_index(i, rest.len() as int)].id@,
                        }
                    } else {
                        SessionView { tabs: rest, active: self.active }
                    }
                },
            }
        }
    }

    /// The same tabs with `id` active.
    pub open spec fn switched(self, id: Seq<char>) -> SessionView {
        SessionView { tabs: self.tabs, active: id }
    }

    /// Index of the active tab, 0 when the active id is not in the list.
    pub open spec fn current_index(self) -> int {
        match position(self.tabs, self.active) {
            Some(i) => i,
            None => 0,
        }
    }

    /// Index of the tab after the active one, wrapping to the first.
    pub open spec fn next_index(self) -> int {
        (self.current_index() + 1) % (self.tabs.len() as int)
    }

    /// Index of the tab before the active one, wrapping to the last.
    pub open spec fn prev_index(self) -> int {
        if self.current_index() == 0 {
            self.tabs.len() - 1
        } else {
            self.current_index() - 1
        }
    }

    /// Cyclic move to the following tab; nothing happens with one tab or none.
    pub open spec fn to_next(self) -> SessionView {
        if self.tabs.len() <= 1 {
            self
        } else {
            self.switched(self.tabs[self.next_index()].id@)
        }
    }

    /// Cyclic move to the preceding tab; nothing happens with one tab or none.
    pub open spec fn to_prev(self) -> SessionView {
        if self.tabs.len() <= 1 {
            self
        } else {
            self.switched(self.tabs[self.prev_index()].id@)
        }
    }

    /// The surface to hide when `id` becomes active: the active one, if any
    /// and if it differs.
    pub open spec fn hidden_on_switch(self, id: Seq<char>) -> Option<Seq<char>> {
        if self.active.len() > 0 && self.active != id {
            Some(self.active)
        } else {
            None
        }
    }

    /// The tab titled `title` where the first tab carrying `id` stood.
    pub open spec fn retitled(self, id: Seq<char>, title: String) -> SessionView {
        match position(self.tabs, id) {
            Some(i) => SessionView {
                tabs: self.tabs.update(
                    i,
                    TabInfo {
                        id: self.tabs[i].id,
                        tab_type: self.tabs[i].tab_type,
                        paper_path: self.tabs[i].paper_path,
                        title,
                    },
                ),
                active: self.active,
            },
            None => self,
        }
    }
}

/// What the host window does after a tab switch: hide one surface (if any)
/// and show and focus another.
#[derive(Debug)]
pub struct Switch {
    pub hide: Option<String>,
    pub show: String,
}

impl Switch {
    /// `self` is the host work for making `id` active in `s`.
    pub open spec fn is_for(self, s: SessionView, id: Seq<char>) -> bool {
        &&& self.show@ == id
        &&& match self.hide {
            Some(h) => s.hidden_on_switch(id) == Some(h@),
            None => s.hidden_on_switch(id) is None,
        }
    }
}

/// What the host window does after a close: when `proceed`, hide and drop
/// the closed surface; then show and focus `activate`, if any.
#[derive(Debug)]
pub struct ClosePlan {
    pub proceed: bool,
    pub activate: Option<String>,
}

/// What the close shortcut does.
#[derive(Debug)]
pub enum CloseRequest {
    /// One tab or none: the whole window closes.
    Window,
    /// The active tab was closed.
    Tab(ClosePlan),
    /// No tab is active: nothing happens.
    Nothing,
}

/// Errors of the tab commands.
#[derive(Debug, Clone, Copy, PartialEq, Eq, Structural)]
pub enum TabError {
    /// The host window cannot be resolved.
    HostUnavailable,
    /// No tab carries the given id.
    NotFound,
    /// No tab stands at the given index.
    IndexOutOfBounds,
}

impl TabError {
    /// The message shown to the user.
    pub fn message(&self) -> (r: String)
        ensures
            r@ == match self {
                TabError::HostUnavailable => "Main window not found"@,
                TabError::NotFound => "Tab not found"@,
                TabError::IndexOutOfBounds => "Tab index out of bounds"@,
            },
    {
        match self {
            TabError::HostUnavailable => String::from_str("Main window not found"),
            TabError::NotFound => String::from_str("Tab not found"),
            TabError::IndexOutOfBounds => String::from_str("Tab index out of bounds"),
        }
    }
}

impl TabInfo {
    /// The library tab that a session starts with and that a new-tab
    /// command opens.
    pub fn home(id: String) -> (r: TabInfo)
        ensures
            r.id == id,
            r.tab_type@ == "home"@,
            r.paper_path is None,
            r.title@ == "Library"@,
    {
        TabInfo {
            id,
            tab_type: String::from_str("home"),
            paper_path: None,
            title: String::from_str("Library"),
        }
    }

    /// A field-by-field copy.
    pub fn duplicate(&self) -> (r: TabInfo)
        ensures
            r == *self,
    {
        let paper_path = match &self.paper_path {
            Some(p) => Some(p.clone()),
            None => None,
        };
        TabInfo {
            id: self.id.clone(),
            tab_type: self.tab_type.clone(),
            paper_path,
            title: self.title.clone(),
        }
    }
}

impl TabState {
    /// A copy of the whole state.
    pub fn duplicate(&self) -> (r: TabState)
        ensures
            r.tabs@ == self.tabs@,
            r.active_tab_id@ == self.active_tab_id@,
    {
        let mut tabs: Vec<TabInfo> = Vec::new();
        let mut i: usize = 0;
        while i < self.tabs.len()
            invariant
                i <= self.tabs@.len(),
                tabs@ == self.tabs@.subrange(0, i as int),
            decreases self.tabs@.len() - i,
        {
            tabs.push(self.tabs[i].duplicate());
            i = i + 1;
        }
        assert(tabs@ == self.tabs@);
        TabState { tabs, active_tab_id: self.active_tab_id.clone() }
    }
}

/// Owner of the session state.
pub struct TabManager {
    state: TabState,
}

impl View for TabManager {
    type V = SessionView;

    closed spec fn view(&self) -> SessionView {
        SessionView { tabs: self.state.tabs@, active: self.state.active_tab_id@ }
    }
}

impl TabManager {
    /// An empty session with no active tab.
    pub fn new() -> (r: Self)
        ensures
            r@.tabs.len() == 0,
            r@.active.len() == 0,
            r@.wf(),
    {
        TabManager { state: TabState { tabs: Vec::new(), active_tab_id: String::new() } }
    }

    /// A copy of the whole session.
    pub fn get_state(&self) -> (r: TabState)
        ensures
            r.tabs@ == self@.tabs,
            r.active_tab_id@ == self@.active,
    {
        self.state.duplicate()
    }

    /// Appends `tab`; the active id stays.
    pub fn add_tab(&mut self, tab: TabInfo)
        ensures
            final(self)@.tabs == old(self)@.tabs.push(tab),
            final(self)@.active == old(self)@.active,
    {
        self.state.tabs.push(tab);
    }

    /// Marks `id` active.
    pub fn set_active(&mut self, id: &str)
        ensures
            final(self)@.tabs == old(self)@.tabs,
            final(self)@.active == id@,
    {
        self.state.active_tab_id = id.to_owned();
    }

    /// Removes the first tab carrying `id` and returns where it stood.
    pub fn remove_tab(&mut self, id: &str) -> (r: Option<usize>)
        ensures
            opt_index(r) == position(old(self)@.tabs, id@),
            final(self)@.active == old(self)@.active,
            match r {
                Some(i) => final(self)@.tabs == old(self)@.tabs.remove(i as int),
                None => final(self)@.tabs == old(self)@.tabs,
            },
    {
        match find_index(&self.state.tabs, id) {
            Some(pos) => {
                self.state.tabs.remove(pos);
                Some(pos)
            },
            None => None,
        }
    }

    /// A copy of the first tab carrying `id`.
    pub fn get_tab(&self, id: &str) -> (r: Option<TabInfo>)
        ensures
            match position(self@.tabs, id@) {
                Some(i) => r == Some(self@.tabs[i]),
                None => r is None,
            },
    {
        match find_index(&self.state.tabs, id) {
            Some(pos) => Some(self.state.tabs[pos].duplicate()),
            None => None,
        }
    }

    /// The number of open tabs.
    pub fn tab_count(&self) -> (r: usize)
        ensures
            r == self@.tabs.len(),
    {
        self.state.tabs.len()
    }

    /// A copy of the tab at `index`, if there is one.
    pub fn get_tab_at_index(&self, index: usize) -> (r: Option<TabInfo>)
        ensures
            index < self@.tabs.len() ==> r == Some(self@.tabs[index as int]),
            index >= self@.tabs.len() ==> r is None,
    {
        if index < self.state.tabs.len() {
            Some(self.state.tabs[index].duplicate())
        } else {
            None
        }
    }

    /// Index of the active tab, if it is in the list.
    pub fn get_active_index(&self) -> (r: Option<usize>)
        ensures
            opt_index(r) == position(self@.tabs, self@.active),
    {
        find_index(&self.state.tabs, self.state.active_tab_id.as_str())
    }

    /// The surface to hide before a new tab is shown: the active one, if any.
    pub fn active_to_hide(&self) -> (r: Option<String>)
        ensures
            self@.active.len() > 0 ==> r is Some && r->0@ == self@.active,
            self@.active.len() == 0 ==> r is None,
    {
        if self.state.active_tab_id.as_str().is_empty() {
            None
        } else {
            Some(self.state.active_tab_id.clone())
        }
    }

    /// Records a newly created surface as the last tab and makes it active.
    pub fn open_tab(&mut self, info: TabInfo)
        ensures
            final(self)@ == old(self)@.opened(info),
            old(self)@.wf() && position(old(self)@.tabs, info.id@) is None ==> final(self)@.wf(),
    {
        proof {
            if old(self)@.wf() && position(old(self)@.tabs, info.id@) is None {
                lemma_opened_wf(old(self)@, info);
            }
        }
        let id = info.id.clone();
        self.add_tab(info);
        self.set_active(id.as_str());
    }

    /// Closes the tab `id`. The sole tab is never closed, and an unknown id
    /// changes nothing. When the active tab closes, the tab that took its
    /// place becomes active, or the new last tab.
    pub fn close_tab(&mut self, id: &str) -> (r: ClosePlan)
        ensures
            final(self)@ == old(self)@.closed(id@),
            r.proceed == (old(self)@.tabs.len() > 1),
            r.activate is Some == old(self)@.close_moves_active(id@),
            r.activate is Some ==> r.activate->0@ == final(self)@.active,
            old(self)@.wf() ==> final(self)@.wf(),
    {
        proof {
            if old(self)@.wf() {
                lemma_closed_wf(old(self)@, id@);
            }
        }
        if self.state.tabs.len() <= 1 {
            return ClosePlan { proceed: false, activate: None };
        }
        let key = id.to_owned();
        let was_active = self.state.active_tab_id == key;
        let closed_index = self.remove_tab(id);
        let mut activate: Option<String> = None;
        if was_active {
            if let Some(idx) = closed_index {
                let len = self.state.tabs.len();
                let new_index = if idx >= len {
                    len - 1
                } else {
                    idx
                };
                let new_id = self.state.tabs[new_index].id.clone();
                self.set_active(new_id.as_str());
                activate = Some(new_id);
            }
        }
        ClosePlan { proceed: true, activate }
    }

    /// Makes `id` active.
    pub fn switch_tab(&mut self, id: &str) -> (r: Result<Switch, TabError>)
        ensures
            position(old(self)@.tabs, id@) is None ==> r == Err::<Switch, TabError>(
                TabError::NotFound,
            ) && final(self)@ == old(self)@,
            position(old(self)@.tabs, id@) is Some ==> r is Ok && r->Ok_0.is_for(old(self)@, id@)
                && final(self)@ == old(self)@.switched(id@),
            old(self)@.wf() ==> final(self)@.wf(),
    {
        if find_index(&self.state.tabs, id).is_none() {
            return Err(TabError::NotFound);
        }
        proof {
            if old(self)@.wf() {
                lemma_position_bounds(old(self)@.tabs, id@);
                lemma_switched_wf(old(self)@, position(old(self)@.tabs, id@)->0);
            }
        }
        let key = id.to_owned();
        let hide = if !self.state.active_tab_id.as_str().is_empty() && !(self.state.active_tab_id
            == key) {
            Some(self.state.active_tab_id.clone())
        } else {
            None
        };
        self.set_active(id);
        Ok(Switch { hide, show: key })
    }

    /// Makes the tab at `index` active.
    pub fn switch_tab_by_index(&mut self, index: usize) -> (r: Result<Switch, TabError>)
        ensures
            index >= old(self)@.tabs.len() ==> r == Err::<Switch, TabError>(
                TabError::IndexOutOfBounds,
            ) && final(self)@ == old(self)@,
            index < old(self)@.tabs.len() ==> r is Ok && r->Ok_0.is_for(
                old(self)@,
                old(self)@.tabs[index as int].id@,
            ) && final(self)@ == old(self)@.switched(old(self)@.tabs[index as int].id@),
            old(self)@.wf() ==> final(self)@.wf(),
    {
        if index >= self.state.tabs.len() {
            return Err(TabError::IndexOutOfBounds);
        }
        let tab_id = self.state.tabs[index].id.clone();
        proof {
            lemma_position_some(self@.tabs, tab_id@, index as int);
        }
        self.switch_tab(tab_id.as_str())
    }

    /// Cyclic move to the following tab; with one tab or none nothing happens.
    pub fn next_tab(&mut self) -> (r: Option<Switch>)
        ensures
            final(self)@ == old(self)@.to_next(),
            r is None <==> old(self)@.tabs.len() <= 1,
            r is Some ==> r->0.is_for(old(self)@, final(self)@.active),
            old(self)@.wf() ==> final(self)@.wf(),
    {
        let len = self.state.tabs.len();
        if len <= 1 {
            return None;
        }
        let current_index = match self.get_active_index() {
            Some(i) => i,
            None => 0,
        };
        proof {
            if position(self@.tabs, self@.active) is Some {
                lemma_position_bounds(self@.tabs, self@.active);
            }
        }
        let next_index = (current_index + 1) % len;
        self.switch_tab_by_index(next_index).ok()
    }

    /// Cyclic move to the preceding tab; with one tab or none nothing happens.
    pub fn prev_tab(&mut self) -> (r: Option<Switch>)
        ensures
            final(self)@ == old(self)@.to_prev(),
            r is None <==> old(self)@.tabs.len() <= 1,
            r is Some ==> r->0.is_for(old(self)@, final(self)@.active),
            old(self)@.wf() ==> final(self)@.wf(),
    {
        let len = self.state.tabs.len();
        if len <= 1 {
            return None;
        }
        let current_index = match self.get_active_index() {
            Some(i) => i,
            None => 0,
        };
        proof {
            if position(self@.tabs, self@.active) is Some {
                lemma_position_bounds(self@.tabs, self@.active);
            }
        }
        let prev_index = if current_index == 0 {
            len - 1
        } else {
            current_index - 1
        };
        self.switch_tab_by_index(prev_index).ok()
    }

    /// Gives the first tab carrying `tab_id` a new title; an unknown id
    /// changes nothing.
    pub fn update_current_tab_title(&mut self, tab_id: &str, title: String)
        ensures
            final(self)@ == old(self)@.retitled(tab_id@, title),
            old(self)@.wf() ==> final(self)@.wf(),
    {
        if let Some(i) = find_index(&self.state.tabs, tab_id) {
            let old_tab = self.state.tabs[i].duplicate();
            let renamed = TabInfo {
                id: old_tab.id,
                tab_type: old_tab.tab_type,
                paper_path: old_tab.paper_path,
                title,
            };
            self.state.tabs.set(i, renamed);
            proof {
                if old(self)@.wf() {
                    lemma_same_ids_wf(old(self)@, self@);
                }
            }
        }
    }

    /// Closes the active tab, if there is one.
    pub fn close_active_tab(&mut self) -> (r: Option<ClosePlan>)
        ensures
            old(self)@.active.len() == 0 ==> r is None && final(self)@ == old(self)@,
            old(self)@.active.len() > 0 ==> r is Some && final(self)@ == old(self)@.closed(
                old(self)@.active,
            ) && r->0.proceed == (old(self)@.tabs.len() > 1) && (r->0.activate is Some
                == old(self)@.close_moves_active(old(self)@.active)) && (r->0.activate is Some
                ==> r->0.activate->0@ == final(self)@.active),
            old(self)@.wf() ==> final(self)@.wf(),
    {
        if self.state.active_tab_id.as_str().is_empty() {
            return None;
        }
        let active = self.state.active_tab_id.clone();
        Some(self.close_tab(active.as_str()))
    }

    /// The close shortcut: with one tab or none the window closes; otherwise
    /// the active tab closes.
    pub fn close_tab_or_window(&mut self) -> (r: CloseRequest)
        ensures
            old(self)@.tabs.len() <= 1 ==> r is Window && final(self)@ == old(self)@,
            old(self)@.tabs.len() > 1 && old(self)@.active.len() == 0 ==> r is Nothing
                && final(self)@ == old(self)@,
            old(self)@.tabs.len() > 1 && old(self)@.active.len() > 0 ==> r is Tab
                && final(self)@ == old(self)@.closed(old(self)@.active) && r->Tab_0.proceed
                && (r->Tab_0.activate is Some == old(self)@.close_moves_active(old(self)@.active))
                && (r->Tab_0.activate is Some ==> r->Tab_0.activate->0@ == final(self)@.active),
            old(self)@.wf() ==> final(self)@.wf(),
    {
        if self.state.tabs.len() <= 1 {
            return CloseRequest::Window;
        }
        match self.close_active_tab() {
            Some(plan) => CloseRequest::Tab(plan),
            None => CloseRequest::Nothing,
        }
    }
}

} // verus!
