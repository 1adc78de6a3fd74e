//! The registry of the open project: its directory snapshot, the open map
//! documents in tab order, the active one, and the set of unsaved ones.

use crate::map_data::text_view;
use crate::path_set::{moved_set, unaffected_set, PathSet};
use crate::paths::{
    affected, display_name, display_name_for, is_affected, is_plain, lemma_rebased_within,
    lemma_within_transitive, moved, relocate, within,
};
use crate::tree::{Node, NodeModel};
use vstd::prelude::*;
use vstd::string::StringExecFns;

verus! {

/// One open map document: its path and the name on its tab.
#[derive(Debug, Clone, PartialEq, Eq)]
pub struct OpenMapEntry {
    pub path: String,
    pub name: String,
}

/// What an `OpenMapEntry` holds.
pub struct TabModel {
    pub path: Seq<char>,
    pub name: Seq<char>,
}

impl View for OpenMapEntry {
    type V = TabModel;

    open spec fn view(&self) -> TabModel {
        TabModel { path: self.path@, name: self.name@ }
    }
}

/// What a list of tabs holds, tab by tab.
pub open spec fn tab_views(tabs: Seq<OpenMapEntry>) -> Seq<TabModel> {
    Seq::new(tabs.len(), |i: int| tabs[i]@)
}

/// The open project and its open documents.
#[derive(Debug)]
pub struct ProjectState {
    /// Snapshot of the project directory; replaced as a whole on refresh.
    pub root: Option<Node>,
    /// Canonical path of the project directory.
    pub root_path: Option<String>,
    /// The open documents; the order of insertion is the order of the tabs.
    pub open_maps: Vec<OpenMapEntry>,
    pub active_map: Option<String>,
    /// Paths of the documents whose contents differ from what is on disk.
    pub dirty_maps: PathSet,
}

/// What a `ProjectState` holds.
pub struct ProjectModel {
    pub root: Option<NodeModel>,
    pub root_path: Option<Seq<char>>,
    pub tabs: Seq<TabModel>,
    pub active: Option<Seq<char>>,
    pub dirty: Set<Seq<char>>,
}

/// What an optional snapshot holds.
pub open spec fn root_view(root: Option<Node>) -> Option<NodeModel> {
    match root {
        Some(node) => Some(node@),
        None => None,
    }
}

impl View for ProjectState {
    type V = ProjectModel;

    open spec fn view(&self) -> ProjectModel {
        ProjectModel {
            root: root_view(self.root),
            root_path: text_view(self.root_path),
            tabs: tab_views(self.open_maps@),
            active: text_view(self.active_map),
            dirty: self.dirty_maps@,
        }
    }
}

/// The tab of the document at `path` in a project rooted at `root`.
pub open spec fn named_tab(root: Option<Seq<char>>, path: Seq<char>) -> TabModel {
    TabModel { path, name: display_name(root, path) }
}

/// The tab `t` after `old` was renamed to `new`: a tab that the rename
/// touches gets its new path and the name that goes with it.
pub open spec fn moved_tab(
    t: TabModel,
    root: Option<Seq<char>>,
    old: Seq<char>,
    new: Seq<char>,
    was_dir: bool,
) -> TabModel {
    if affected(t.path, old, was_dir) {
        named_tab(root, moved(t.path, old, new, was_dir))
    } else {
        t
    }
}

/// The tabs that deleting `target` leaves open.
pub open spec fn survives(target: Seq<char>, was_dir: bool) -> spec_fn(TabModel) -> bool {
    |t: TabModel| !affected(t.path, target, was_dir)
}

/// The path of the first tab, if there is a tab.
pub open spec fn first_path(tabs: Seq<TabModel>) -> Option<Seq<char>> {
    if tabs.len() > 0 {
        Some(tabs[0].path)
    } else {
        None
    }
}

/// Where an optional path stands after `old` was renamed to `new`.
pub open spec fn moved_option(
    path: Option<Seq<char>>,
    old: Seq<char>,
    new: Seq<char>,
    was_dir: bool,
) -> Option<Seq<char>> {
    match path {
        Some(p) => Some(moved(p, old, new, was_dir)),
        None => None,
    }
}

impl ProjectModel {
    /// A document at `path` is open.
    pub open spec fn has_tab(self, path: Seq<char>) -> bool {
        exists|i: int| 0 <= i < self.tabs.len() && (#[trigger] self.tabs[i]).path == path
    }

    /// The active document and every unsaved document is open.
    pub open spec fn is_consistent(self) -> bool {
        &&& self.active matches Some(a) ==> self.has_tab(a)
        &&& forall|p: Seq<char>| self.dirty.contains(p) ==> self.has_tab(p)
    }

    /// Every open document lies within the project directory.
    pub open spec fn is_contained(self) -> bool {
        self.root_path matches Some(root) ==> forall|i: int|
            0 <= i < self.tabs.len() ==> within((#[trigger] self.tabs[i]).path, root)
    }

    /// No project and no document.
    pub open spec fn none() -> ProjectModel {
        ProjectModel {
            root: None,
            root_path: None,
            tabs: Seq::empty(),
            active: None,
            dirty: Set::empty(),
        }
    }

    /// The same project with no document open.
    pub open spec fn cleared(self) -> ProjectModel {
        ProjectModel { tabs: Seq::empty(), active: None, dirty: Set::empty(), ..self }
    }

    /// The document at `path` opened, or opened again, and made active: its
    /// tab is added behind the others if it has none, and it counts as saved.
    pub open spec fn opened(self, path: Seq<char>) -> ProjectModel {
        let tab = named_tab(self.root_path, path);
        ProjectModel {
            tabs: if self.has_tab(path) {
                Seq::new(
                    self.tabs.len(),
                    |i: int|
                        if self.tabs[i].path == path {
                            tab
                        } else {
                            self.tabs[i]
                        },
                )
            } else {
                self.tabs.push(tab)
            },
            active: Some(path),
            dirty: self.dirty.remove(path),
            ..self
        }
    }

    /// The registry after `old` was renamed to `new`: tabs, active document
    /// and unsaved set are all moved by the same rule.
    pub open spec fn renamed(self, old: Seq<char>, new: Seq<char>, was_dir: bool) -> ProjectModel {
        ProjectModel {
            tabs: Seq::new(
                self.tabs.len(),
                |i: int| moved_tab(self.tabs[i], self.root_path, old, new, was_dir),
            ),
            active: moved_option(self.active, old, new, was_dir),
            dirty: moved_set(self.dirty, old, new, was_dir),
            ..self
        }
    }

    /// Deleting or closing `target` takes the active document away.
    pub open spec fn loses_active(self, target: Seq<char>, was_dir: bool) -> bool {
        self.active matches Some(a) && affected(a, target, was_dir)
    }

    /// The document that becomes active in place of one that went away: the
    /// first tab that is left. None where the active document stays or no
    /// tab is left.
    pub open spec fn promoted(self, target: Seq<char>, was_dir: bool) -> Option<Seq<char>> {
        if self.loses_active(target, was_dir) {
            first_path(self.tabs.filter(survives(target, was_dir)))
        } else {
            None
        }
    }

    /// The registry after `target` was deleted, or after the document at
    /// `target` was closed (`was_dir` false): every tab and unsaved path
    /// that this touches is gone, and if the active document is among them
    /// the first tab that is left becomes active.
    pub open spec fn without(self, target: Seq<char>, was_dir: bool) -> ProjectModel {
        ProjectModel {
            tabs: self.tabs.filter(survives(target, was_dir)),
            active: if self.loses_active(target, was_dir) {
                self.promoted(target, was_dir)
            } else {
                self.active
            },
            dirty: unaffected_set(self.dirty, target, was_dir),
            ..self
        }
    }
}

/// Opening a document keeps the registry consistent.
pub proof fn lemma_opened_is_consistent(m: ProjectModel, path: Seq<char>)
    requires
        m.is_consistent(),
    ensures
        m.opened(path).is_consistent(),
        m.opened(path).has_tab(path),
{
    let n = m.opened(path);
    if m.has_tab(path) {
        let i = choose|i: int| 0 <= i < m.tabs.len() && (#[trigger] m.tabs[i]).path == path;
        assert(n.tabs[i].path == path);
    } else {
        assert(n.tabs[m.tabs.len() as int].path == path);
    }
    assert forall|p: Seq<char>| n.dirty.contains(p) implies n.has_tab(p) by {
        assert(m.has_tab(p));
        let i = choose|i: int| 0 <= i < m.tabs.len() && (#[trigger] m.tabs[i]).path == p;
        assert(n.tabs[i].path == p);
    }
}

/// A rename keeps the registry consistent.
pub proof fn lemma_renamed_is_consistent(
    m: ProjectModel,
    old: Seq<char>,
    new: Seq<char>,
    was_dir: bool,
)
    requires
        m.is_consistent(),
    ensures
        m.renamed(old, new, was_dir).is_consistent(),
{
    let n = m.renamed(old, new, was_dir);
    assert forall|p: Seq<char>| m.has_tab(p) implies n.has_tab(moved(p, old, new, was_dir)) by {
        let i = choose|i: int| 0 <= i < m.tabs.len() && (#[trigger] m.tabs[i]).path == p;
        assert(n.tabs[i].path == moved(p, old, new, was_dir));
    }
    assert forall|q: Seq<char>| n.dirty.contains(q) implies n.has_tab(q) by {
        let p = choose|p: Seq<char>|
            m.dirty.contains(p) && #[trigger] moved(p, old, new, was_dir) == q;
        assert(m.has_tab(p));
    }
}

/// Opening a document of the project keeps every open document within
/// the project directory.
pub proof fn lemma_opened_is_contained(m: ProjectModel, path: Seq<char>)
    requires
        m.is_contained(),
        m.root_path matches Some(root) ==> within(path, root),
    ensures
        m.opened(path).is_contained(),
{
}

/// A rename to a place within the project directory keeps every open
/// document within it.
pub proof fn lemma_renamed_is_contained(
    m: ProjectModel,
    old: Seq<char>,
    new: Seq<char>,
    was_dir: bool,
)
    requires
        m.is_contained(),
        m.root_path matches Some(root) ==> within(new, root),
        was_dir ==> is_plain(old),
    ensures
        m.renamed(old, new, was_dir).is_contained(),
{
    let n = m.renamed(old, new, was_dir);
    if m.root_path is Some {
        let root = m.root_path->0;
        assert forall|i: int| 0 <= i < n.tabs.len() implies within(
            (#[trigger] n.tabs[i]).path,
            root,
        ) by {
            let p = m.tabs[i].path;
            assert(within(p, root));
            if affected(p, old, was_dir) {
                if was_dir {
                    lemma_rebased_within(p, old, new);
                    lemma_within_transitive(n.tabs[i].path, new, root);
                }
            }
        }
    }
}

/// A deletion, and so the closing of a tab, keeps every open document
/// within the project directory.
pub proof fn lemma_without_is_contained(m: ProjectModel, target: Seq<char>, was_dir: bool)
    requires
        m.is_contained(),
    ensures
        m.without(target, was_dir).is_contained(),
{
    let n = m.without(target, was_dir);
    lemma_surviving_tabs(m.tabs, target, was_dir);
    if m.root_path is Some {
        let root = m.root_path->0;
        assert forall|i: int| 0 <= i < n.tabs.len() implies within(
            (#[trigger] n.tabs[i]).path,
            root,
        ) by {
            assert(n.tabs.contains(n.tabs[i]));
            assert(m.tabs.contains(n.tabs[i]));
            let k = choose|k: int| 0 <= k < m.tabs.len() && m.tabs[k] == n.tabs[i];
            assert(within(m.tabs[k].path, root));
        }
    }
}

/// The tabs that a deletion leaves are the tabs that it does not touch.
pub proof fn lemma_surviving_tabs(tabs: Seq<TabModel>, target: Seq<char>, was_dir: bool)
    ensures
        forall|t: TabModel|
            tabs.filter(survives(target, was_dir)).contains(t) <==> (tabs.contains(t) && !affected(
                t.path,
                target,
                was_dir,
            )),
{
    let pred = survives(target, was_dir);
    let kept = tabs.filter(pred);
    assert forall|t: TabModel| kept.contains(t) <==> (tabs.contains(t) && !affected(
        t.path,
        target,
        was_dir,
    )) by {
        if kept.contains(t) {
            tabs.lemma_filter_contains_rev(pred, t);
            let k = choose|k: int| 0 <= k < kept.len() && kept[k] == t;
            tabs.lemma_filter_pred(pred, k);
        }
        if tabs.contains(t) && !affected(t.path, target, was_dir) {
            let j = choose|j: int| 0 <= j < tabs.len() && tabs[j] == t;
            tabs.lemma_filter_contains(pred, j);
        }
    }
}

/// A deletion, and so the closing of a tab, keeps the registry consistent.
pub proof fn lemma_without_is_consistent(m: ProjectModel, target: Seq<char>, was_dir: bool)
    requires
        m.is_consistent(),
    ensures
        m.without(target, was_dir).is_consistent(),
{
    let n = m.without(target, was_dir);
    lemma_surviving_tabs(m.tabs, target, was_dir);
    assert forall|p: Seq<char>|
        m.has_tab(p) && !affected(p, target, was_dir) implies n.has_tab(p) by {
        let i = choose|i: int| 0 <= i < m.tabs.len() && (#[trigger] m.tabs[i]).path == p;
        assert(m.tabs.contains(m.tabs[i]));
        assert(n.tabs.contains(m.tabs[i]));
        let k = choose|k: int| 0 <= k < n.tabs.len() && n.tabs[k] == m.tabs[i];
        assert(n.tabs[k].path == p);
    }
    if m.loses_active(target, was_dir) {
        if n.tabs.len() > 0 {
            assert(n.tabs[0].path == n.active->0);
        }
    }
}

/// Closing or deleting the active document makes the first tab that is
/// left the active one, and that is the document asked to be opened next;
/// where no tab is left there is no active document and nothing is asked.
pub proof fn lemma_active_is_replaced(m: ProjectModel, target: Seq<char>, was_dir: bool)
    requires
        m.loses_active(target, was_dir),
    ensures
        m.without(target, was_dir).active == m.promoted(target, was_dir),
        m.promoted(target, was_dir) == first_path(m.without(target, was_dir).tabs),
        m.without(target, was_dir).tabs.len() == 0 ==> m.promoted(target, was_dir) is None
            && m.without(target, was_dir).active is None,
{
}

/// Closing the active one of two open documents: the other one is active
/// afterwards and asked to be opened.
pub proof fn lemma_other_tab_takes_over(m: ProjectModel, path: Seq<char>, other: TabModel)
    requires
        m.active == Some(path),
        m.tabs.len() == 2,
        m.tabs.contains(other),
        other.path != path,
        m.has_tab(path),
    ensures
        m.without(path, false).active == Some(other.path),
        m.promoted(path, false) == Some(other.path),
        m.without(path, false).tabs == seq![other],
{
    let pred = survives(path, false);
    reveal(Seq::filter);
    lemma_surviving_tabs(m.tabs, path, false);
    let kept = m.tabs.filter(pred);
    let i = choose|i: int| 0 <= i < m.tabs.len() && (#[trigger] m.tabs[i]).path == path;
    let j = choose|j: int| 0 <= j < m.tabs.len() && m.tabs[j] == other;
    assert(i != j);
    let one = m.tabs.drop_last();
    assert(one.drop_last() =~= Seq::<TabModel>::empty());
    assert(one.drop_last().filter(pred) =~= Seq::<TabModel>::empty());
    assert(one.last() == m.tabs[0]);
    assert(m.tabs.last() == m.tabs[1]);
    if i == 0 {
        assert(one.filter(pred) =~= Seq::<TabModel>::empty());
        assert(kept =~= seq![other]);
    } else {
        assert(one.filter(pred) =~= seq![other]);
        assert(kept =~= seq![other]);
    }
}

/// A rename moves every tab below the renamed directory to the same place
/// below the new one, and leaves alone an active document that is not below it.
pub proof fn lemma_rename_moves_tabs(m: ProjectModel, old: Seq<char>, new: Seq<char>, i: int)
    requires
        0 <= i < m.tabs.len(),
        affected(m.tabs[i].path, old, true),
        m.active matches Some(a) ==> !affected(a, old, true),
    ensures
        m.renamed(old, new, true).tabs.len() == m.tabs.len(),
        m.renamed(old, new, true).tabs[i].path == new + m.tabs[i].path.subrange(
            old.len() as int,
            m.tabs[i].path.len() as int,
        ),
        m.renamed(old, new, true).active == m.active,
{
}

fn copy_entry(e: &OpenMapEntry) -> (out: OpenMapEntry)
    ensures
        out@ == e@,
{
    OpenMapEntry { path: e.path.clone(), name: e.name.clone() }
}

fn root_text(root: &Option<String>) -> (out: Option<&str>)
    ensures
        match out {
            Some(r) => text_view(*root) == Some(r@),
            None => text_view(*root) is None,
        },
{
    match root {
        Some(r) => Some(r.as_str()),
        None => None,
    }
}

impl ProjectState {
    /// The registry without a project.
    pub fn new() -> (state: ProjectState)
        ensures
            state@ == ProjectModel::none(),
            state@.is_consistent(),
    {
        let state = ProjectState {
            root: None,
            root_path: None,
            open_maps: Vec::new(),
            active_map: None,
            dirty_maps: PathSet::new(),
        };
        assert(state@.tabs =~= Seq::<TabModel>::empty());
        state
    }

    /// Closes every document; the project stays.
    pub fn clear_workspace(&mut self)
        ensures
            final(self)@ == old(self)@.cleared(),
            final(self)@.is_consistent(),
    {
        self.open_maps.clear();
        self.active_map = None;
        self.dirty_maps.clear();
        assert(self@.tabs =~= Seq::<TabModel>::empty());
    }

    /// Closes the project and every document.
    pub fn reset_all(&mut self)
        ensures
            final(self)@ == ProjectModel::none(),
            final(self)@.is_consistent(),
    {
        self.root = None;
        self.root_path = None;
        self.clear_workspace();
    }

    /// Whether a document at `path` is open.
    pub fn is_open(&self, path: &str) -> (b: bool)
        ensures
            b == self@.has_tab(path@),
    {
        let key = String::from_str(path);
        let mut i: usize = 0;
        while i < self.open_maps.len()
            invariant
                i <= self.open_maps.len(),
                key@ == path@,
                forall|k: int| 0 <= k < i ==> (#[trigger] self@.tabs[k]).path != path@,
            decreases self.open_maps.len() - i,
        {
            if self.open_maps[i].path == key {
                assert(self@.tabs[i as int].path == path@);
                return true;
            }
            i += 1;
        }
        false
    }

    /// Registers the document at `path` as open and active.
    pub fn note_open_map(&mut self, path: &str)
        ensures
            final(self)@ == old(self)@.opened(path@),
            old(self)@.is_consistent() ==> final(self)@.is_consistent(),
    {
        let ghost m = self@;
        let root = root_text(&self.root_path);
        let name = display_name_for(root, path);
        let key = String::from_str(path);
        let mut tabs: Vec<OpenMapEntry> = Vec::new();
        let mut found: bool = false;
        let mut i: usize = 0;
        while i < self.open_maps.len()
            invariant
                i <= self.open_maps.len(),
                self@ == m,
                key@ == path@,
                name@ == display_name(m.root_path, path@),
                tabs.len() == i,
                found <==> exists|k: int| 0 <= k < i && (#[trigger] m.tabs[k]).path == path@,
                forall|k: int|
                    0 <= k < i ==> (#[trigger] tabs@[k])@ == (if m.tabs[k].path == path@ {
                        named_tab(m.root_path, path@)
                    } else {
                        m.tabs[k]
                    }),
            decreases self.open_maps.len() - i,
        {
            let e = &self.open_maps[i];
            assert(m.tabs[i as int] == e@);
            if e.path == key {
                tabs.push(OpenMapEntry { path: key.clone(), name: name.clone() });
                found = true;
            } else {
                tabs.push(copy_entry(e));
            }
            i += 1;
        }
        if !found {
            tabs.push(OpenMapEntry { path: key.clone(), name });
        }
        self.open_maps = tabs;
        self.active_map = Some(key);
        self.dirty_maps.remove(path);
        proof {
            assert(self@.tabs =~= m.opened(path@).tabs);
            if m.is_consistent() {
                lemma_opened_is_consistent(m, path@);
            }
        }
    }

    /// Carries the rename of `old_path` to `new_path` through the registry.
    pub fn handle_renamed_path(&mut self, old_path: &str, new_path: &str, was_dir: bool)
        ensures
            final(self)@ == old(self)@.renamed(old_path@, new_path@, was_dir),
            old(self)@.is_consistent() ==> final(self)@.is_consistent(),
    {
        let ghost m = self@;
        let mut tabs: Vec<OpenMapEntry> = Vec::new();
        let mut i: usize = 0;
        while i < self.open_maps.len()
            invariant
                i <= self.open_maps.len(),
                self@ == m,
                tabs.len() == i,
                forall|k: int|
                    0 <= k < i ==> (#[trigger] tabs@[k])@ == moved_tab(
                        m.tabs[k],
                        m.root_path,
                        old_path@,
                        new_path@,
                        was_dir,
                    ),
            decreases self.open_maps.len() - i,
        {
            let e = &self.open_maps[i];
            assert(m.tabs[i as int] == e@);
            if is_affected(e.path.as_str(), old_path, was_dir) {
                let path = relocate(e.path.as_str(), old_path, new_path, was_dir);
                let name = display_name_for(root_text(&self.root_path), path.as_str());
                tabs.push(OpenMapEntry { path, name });
            } else {
                tabs.push(copy_entry(e));
            }
            i += 1;
        }
        self.open_maps = tabs;
        self.active_map = match &self.active_map {
            Some(a) => Some(relocate(a.as_str(), old_path, new_path, was_dir)),
            None => None,
        };
        self.dirty_maps.rename(old_path, new_path, was_dir);
        proof {
            assert(self@.tabs =~= m.renamed(old_path@, new_path@, was_dir).tabs);
            if m.is_consistent() {
                lemma_renamed_is_consistent(m, old_path@, new_path@, was_dir);
            }
        }
    }

    /// Takes everything that deleting `target` touches out of the registry.
    /// Returns the document that became active in place of a deleted one
    /// and has to be opened next.
    pub fn handle_deleted_path(&mut self, target: &str, was_dir: bool) -> (next: Option<String>)
        ensures
            final(self)@ == old(self)@.without(target@, was_dir),
            text_view(next) == old(self)@.promoted(target@, was_dir),
            old(self)@.is_consistent() ==> final(self)@.is_consistent(),
    {
        let ghost m = self@;
        let ghost pred = survives(target@, was_dir);
        let mut tabs: Vec<OpenMapEntry> = Vec::new();
        let mut i: usize = 0;
        assert(m.tabs.subrange(0, 0).filter(pred) =~= tab_views(tabs@)) by {
            reveal(Seq::filter);
        }
        while i < self.open_maps.len()
            invariant
                i <= self.open_maps.len(),
                self@ == m,
                pred == survives(target@, was_dir),
                tab_views(tabs@) == m.tabs.subrange(0, i as int).filter(pred),
            decreases self.open_maps.len() - i,
        {
            let e = &self.open_maps[i];
            proof {
                reveal(Seq::filter);
                assert(m.tabs[i as int] == e@);
                assert(m.tabs.subrange(0, i + 1).drop_last() =~= m.tabs.subrange(0, i as int));
                assert(m.tabs.subrange(0, i + 1).last() == e@);
            }
            let ghost before = tab_views(tabs@);
            if !is_affected(e.path.as_str(), target, was_dir) {
                tabs.push(copy_entry(e));
                assert(tab_views(tabs@) =~= before.push(e@));
            }
            i += 1;
        }
        assert(m.tabs.subrange(0, i as int) =~= m.tabs);
        let lost: bool = match &self.active_map {
            Some(a) => is_affected(a.as_str(), target, was_dir),
            None => false,
        };
        self.open_maps = tabs;
        self.dirty_maps.delete(target, was_dir);
        let mut next: Option<String> = None;
        if lost {
            if self.open_maps.len() > 0 {
                assert(tab_views(self.open_maps@)[0] == self.open_maps@[0]@);
                self.active_map = Some(self.open_maps[0].path.clone());
                next = Some(self.open_maps[0].path.clone());
            } else {
                self.active_map = None;
            }
        }
        proof {
            if m.is_consistent() {
                lemma_without_is_consistent(m, target@, was_dir);
            }
        }
        next
    }

    /// Closes the tab of the document at `path`. Returns the document that
    /// became active in its place and has to be opened next.
    pub fn close_map(&mut self, path: &str) -> (next: Option<String>)
        ensures
            final(self)@ == old(self)@.without(path@, false),
            text_view(next) == old(self)@.promoted(path@, false),
            old(self)@.is_consistent() ==> final(self)@.is_consistent(),
    {
        self.handle_deleted_path(path, false)
    }

    /// Whether the document at `path` has unsaved changes.
    pub fn is_dirty(&self, path: &str) -> (b: bool)
        ensures
            b == self@.dirty.contains(path@),
    {
        self.dirty_maps.contains(path)
    }

    /// Marks the document at `path` as saved.
    pub fn clear_dirty(&mut self, path: &str)
        ensures
            final(self)@ == (ProjectModel { dirty: old(self)@.dirty.remove(path@), ..old(self)@ }),
            old(self)@.is_consistent() ==> final(self)@.is_consistent(),
    {
        self.dirty_maps.remove(path);
        proof {
            if old(self)@.is_consistent() {
                assert(self@.tabs == old(self)@.tabs);
                assert forall|p: Seq<char>| self@.dirty.contains(p) implies self@.has_tab(p) by {
                    assert(old(self)@.dirty.contains(p));
                    assert(old(self)@.has_tab(p));
                    let i = choose|i: int|
                        0 <= i < old(self)@.tabs.len() && (#[trigger] old(self)@.tabs[i]).path == p;
                    assert(self@.tabs[i].path == p);
                }
            }
        }
    }

    /// Marks the open document at `path` as unsaved; a path that is not
    /// open is not marked. Says whether the document is open.
    pub fn mark_dirty(&mut self, path: &str) -> (marked: bool)
        ensures
            marked == old(self)@.has_tab(path@),
            final(self)@ == (ProjectModel {
                dirty: if marked {
                    old(self)@.dirty.insert(path@)
                } else {
                    old(self)@.dirty
                },
                ..old(self)@
            }),
            old(self)@.is_consistent() ==> final(self)@.is_consistent(),
    {
        if self.is_open(path) {
            self.dirty_maps.insert(String::from_str(path));
            proof {
                if old(self)@.is_consistent() {
                    assert(self@.tabs == old(self)@.tabs);
                    assert forall|p: Seq<char>| self@.dirty.contains(p) implies self@.has_tab(
                        p,
                    ) by {
                        if p != path@ {
                            assert(old(self)@.dirty.contains(p));
                        }
                        assert(old(self)@.has_tab(p));
                        let i = choose|i: int|
                            0 <= i < old(self)@.tabs.len() && (#[trigger] old(self)@.tabs[i]).path
                                == p;
                        assert(self@.tabs[i].path == p);
                    }
                }
            }
            true
        } else {
            false
        }
    }
}

} // verus!
