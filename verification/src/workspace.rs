//! The GUI's workspace: the note tree, the selection, and the note tabs.
//! Listings and note contents come from the store; each operation that
//! needs one says so and is finished once the front end fetched it.
use vstd::prelude::*;
use crate::data::{copy_string, Directory, Note};
use crate::text::{append, decimal, decimal_spec, join_lines, join_spec, lines, lines_spec, repeat, repeat_spec};
use crate::tree::{
    dir_path, find_dir, find_note, height, lemma_children_view, rows, row_view, unloaded_view, updated,
    NodeUpdate, RowView, TreeNode, TreeRow, TreeRowKind, TreeSelection, TreeView,
};

verus! {

/// How the GUI opens a workspace.
#[derive(Clone, Debug, PartialEq, Eq)]
pub enum WorkspaceBackendConfig {
    Memory,
    File { path: String },
    Redb { path: String },
    Git { path: String, remote: String, branch: String },
    Mongo { conn_str: String, db_name: String },
    Proxy { url: String, auth_token: Option<String> },
}

/// Why a workspace operation failed.
#[derive(Clone, Debug, PartialEq, Eq)]
pub enum WorkspaceError {
    NotFound(String),
}

/// A note shown in a tab, with the content it had when opened.
#[derive(Clone, Debug, PartialEq, Eq)]
pub struct OpenedNote {
    pub note: Note,
    pub content: String,
}

/// What is left to do after `toggle_directory`.
#[derive(Debug, PartialEq, Eq)]
pub enum ToggleStep {
    /// The directory was shown or hidden.
    Done,
    /// The directory's contents must be listed first, then passed to
    /// `finish_toggle_directory`.
    FetchListing,
}

/// What is left to do after `open_note`.
#[derive(Debug, PartialEq, Eq)]
pub enum OpenNoteStep {
    /// The note's tab is active.
    Done,
    /// The note's content must be fetched first, then passed to
    /// `finish_open_note` with this note.
    FetchContent(Note),
}

/// The GUI's workspace without the store connection.
#[derive(Debug)]
pub struct WorkspaceModel {
    root: TreeNode,
    selected: TreeSelection,
    open_tabs: Vec<OpenedNote>,
    active_tab_index: Option<usize>,
}

/// The path to directory `id`, or nothing where it is not in the tree.
pub open spec fn dir_path_or_empty(t: TreeView, id: Seq<char>) -> Seq<Seq<char>> {
    match dir_path(t, id) {
        Some(p) => p,
        None => Seq::empty(),
    }
}

/// The note ids of the tabs, in order.
pub open spec fn tab_ids(tabs: Seq<OpenedNote>) -> Seq<Seq<char>> {
    tabs.map_values(|t: OpenedNote| t.note.id@)
}

/// The first position, from `i` on, of a tab showing note `id`.
pub open spec fn tab_position_from(tabs: Seq<OpenedNote>, id: Seq<char>, i: nat) -> Option<nat>
    decreases tabs.len() - i,
{
    if i >= tabs.len() {
        None
    } else if tabs[i as int].note.id@ == id {
        Some(i)
    } else {
        tab_position_from(tabs, id, i + 1)
    }
}

/// The first position of a tab showing note `id`.
pub open spec fn tab_position(tabs: Seq<OpenedNote>, id: Seq<char>) -> Option<nat> {
    tab_position_from(tabs, id, 0)
}

proof fn lemma_tab_position_from(tabs: Seq<OpenedNote>, id: Seq<char>, i: nat)
    requires
        i <= tabs.len(),
    ensures
        match tab_position_from(tabs, id, i) {
            Some(k) => i <= k < tabs.len() && tabs[k as int].note.id@ == id
                && forall|j: int| i <= j < k ==> tabs[j].note.id@ != id,
            None => forall|j: int| i <= j < tabs.len() ==> tabs[j].note.id@ != id,
        },
    decreases tabs.len() - i,
{
    if i < tabs.len() {
        lemma_tab_position_from(tabs, id, i + 1);
    }
}

/// What `tab_position` returns: the first tab with the note, if any.
pub proof fn lemma_tab_position(tabs: Seq<OpenedNote>, id: Seq<char>)
    ensures
        match tab_position(tabs, id) {
            Some(k) => k < tabs.len() && tabs[k as int].note.id@ == id
                && forall|j: int| 0 <= j < k ==> tabs[j].note.id@ != id,
            None => forall|j: int| 0 <= j < tabs.len() ==> tabs[j].note.id@ != id,
        },
{
    lemma_tab_position_from(tabs, id, 0);
}

/// The active tab after a reordering: the tab showing the note that was
/// active before, if there was one.
pub open spec fn restored_index(tabs: Seq<OpenedNote>, active_id: Option<Seq<char>>) -> Option<usize> {
    match active_id {
        None => None,
        Some(id) => match tab_position(tabs, id) {
            Some(k) => Some(k as usize),
            None => None,
        },
    }
}

/// The message of a missing directory.
pub open spec fn directory_not_found(id: Seq<char>) -> Seq<char> {
    "directory not found: "@ + id
}

/// The message of a missing note.
pub open spec fn note_not_found(id: Seq<char>) -> Seq<char> {
    "note not found: "@ + id
}

/// The message of a missing tab.
pub open spec fn tab_not_found(what: Seq<char>) -> Seq<char> {
    "tab not found: "@ + what
}

fn not_found(prefix: &str, what: &str) -> (e: WorkspaceError)
    ensures
        e == WorkspaceError::NotFound(e->NotFound_0) && e->NotFound_0@ == prefix@ + what@,
{
    let mut message = String::from_str(prefix);
    append(&mut message, what);
    WorkspaceError::NotFound(message)
}

impl WorkspaceModel {
    /// Tabs are valid: a tab is active exactly when some tab is open, the
    /// active index points at a tab, and no note has two tabs.
    pub closed spec fn wf(&self) -> bool {
        &&& self.active_tab_index matches Some(i) ==> i < self.open_tabs@.len()
        &&& (self.active_tab_index is Some) == (self.open_tabs@.len() > 0)
        &&& tab_ids(self.open_tabs@).no_duplicates()
    }

    /// In every workspace the operations make, a tab is active exactly when
    /// some tab is open, the active tab is one of the open tabs, and no note
    /// has two tabs.
    pub proof fn law_tab_invariant(&self)
        requires
            self.wf(),
        ensures
            self.active() is Some <==> self.tabs().len() > 0,
            self.active() matches Some(i) ==> i < self.tabs().len(),
            tab_ids(self.tabs()).no_duplicates(),
            (self.active_note_spec() is Some) == (self.tabs().len() > 0),
    {
    }

    /// The note tree.
    pub closed spec fn root_view(&self) -> TreeView {
        self.root@
    }

    /// What is selected.
    pub closed spec fn selection(&self) -> TreeSelection {
        self.selected
    }

    /// The note tree.
    pub fn root(&self) -> (r: &TreeNode)
        ensures
            r@ == self.root_view(),
    {
        &self.root
    }

    /// What is selected.
    pub fn selected(&self) -> (r: &TreeSelection)
        ensures
            *r == self.selection(),
    {
        &self.selected
    }

    /// The open tabs, in order.
    pub closed spec fn tabs(&self) -> Seq<OpenedNote> {
        self.open_tabs@
    }

    /// The index of the active tab.
    pub closed spec fn active(&self) -> Option<usize> {
        self.active_tab_index
    }

    /// The note shown in the active tab.
    pub open spec fn active_note_spec(&self) -> Option<OpenedNote> {
        match self.active() {
            Some(i) => if i < self.tabs().len() { Some(self.tabs()[i as int]) } else { None },
            None => None,
        }
    }

    /// A workspace over a store whose root directory holds `notes` and the
    /// child directories `directories`: the root is shown and selected, no
    /// tab is open.
    pub fn from_listing(root_directory: Directory, notes: Vec<Note>, directories: Vec<Directory>) -> (w: WorkspaceModel)
        ensures
            w.wf(),
            w.root_view() == (TreeView {
                directory: root_directory,
                directories: directories@.map_values(|d: Directory| unloaded_view(d)),
                notes: notes@,
                expanded: true,
                loaded: true,
            }),
            w.selection() == TreeSelection::Directory(root_directory.id),
            w.tabs() == Seq::<OpenedNote>::empty(),
            w.active() is None,
    {
        let mut children: Vec<TreeNode> = Vec::new();
        let k = directories.len();
        for i in 0..k
            invariant
                k == directories@.len(),
                children@.len() == i,
                forall|j: int| 0 <= j < i ==> #[trigger] children@[j]@ == unloaded_view(directories@[j]),
        {
            children.push(TreeNode::unloaded(directories[i].copy()));
        }
        let selected = TreeSelection::Directory(root_directory.id.clone());
        let root = TreeNode { directory: root_directory, directories: children, notes, expanded: true, loaded: true };
        proof {
            lemma_children_view(root);
            assert(root@.directories =~= directories@.map_values(|d: Directory| unloaded_view(d)));
        }
        let w = WorkspaceModel { root, selected, open_tabs: Vec::new(), active_tab_index: None };
        assert(tab_ids(w.open_tabs@) =~= Seq::<Seq<char>>::empty());
        w
    }

    /// Shows or hides a directory and selects it. A directory whose contents
    /// were never loaded asks for its listing instead, to be passed to
    /// `finish_toggle_directory`.
    pub fn toggle_directory(&mut self, directory_id: String) -> (r: Result<ToggleStep, WorkspaceError>)
        requires
            old(self).wf(),
        ensures
            final(self).wf(),
            final(self).tabs() == old(self).tabs(),
            final(self).active() == old(self).active(),
            match find_dir(old(self).root_view(), directory_id@) {
                None => r matches Err(WorkspaceError::NotFound(m)) && m@ == directory_not_found(directory_id@)
                    && final(self).root_view() == old(self).root_view() && final(self).selection() == old(self).selection(),
                Some(n) => if n.loaded {
                    r == Ok::<ToggleStep, WorkspaceError>(ToggleStep::Done)
                        && final(self).root_view() == updated(old(self).root_view(), directory_id@, NodeUpdate::Toggle)
                        && final(self).selection() == TreeSelection::Directory(directory_id)
                } else {
                    r == Ok::<ToggleStep, WorkspaceError>(ToggleStep::FetchListing)
                        && final(self).root_view() == old(self).root_view() && final(self).selection() == old(self).selection()
                },
            },
    {
        let loaded = match self.root.find_directory(&directory_id) {
            Some(node) => node.loaded,
            None => return Err(not_found("directory not found: ", directory_id.as_str())),
        };
        if loaded {
            self.root.update_directory(&directory_id, NodeUpdate::Toggle);
            self.selected = TreeSelection::Directory(directory_id);
            Ok(ToggleStep::Done)
        } else {
            Ok(ToggleStep::FetchListing)
        }
    }

    /// Fills in a directory with its listing from the store, shows it and
    /// selects it.
    pub fn finish_toggle_directory(&mut self, directory_id: String, notes: Vec<Note>, directories: Vec<Directory>)
        -> (r: Result<(), WorkspaceError>)
        requires
            old(self).wf(),
        ensures
            final(self).wf(),
            final(self).tabs() == old(self).tabs(),
            final(self).active() == old(self).active(),
            match find_dir(old(self).root_view(), directory_id@) {
                None => r matches Err(WorkspaceError::NotFound(m)) && m@ == directory_not_found(directory_id@)
                    && final(self).root_view() == old(self).root_view() && final(self).selection() == old(self).selection(),
                Some(_) => r is Ok
                    && final(self).root_view() == updated(old(self).root_view(), directory_id@, NodeUpdate::Load { notes, directories })
                    && final(self).selection() == TreeSelection::Directory(directory_id),
            },
    {
        if self.root.find_directory(&directory_id).is_none() {
            return Err(not_found("directory not found: ", directory_id.as_str()));
        }
        self.root.update_directory(&directory_id, NodeUpdate::Load { notes, directories });
        self.selected = TreeSelection::Directory(directory_id);
        Ok(())
    }

    fn tab_index_of(&self, note_id: &String) -> (r: Option<usize>)
        ensures
            match tab_position(self.open_tabs@, note_id@) {
                Some(k) => r is Some && r->0 == k && r == Some(k as usize),
                None => r is None,
            },
    {
        let n = self.open_tabs.len();
        for i in 0..n
            invariant
                n == self.open_tabs@.len(),
                tab_position(self.open_tabs@, note_id@) == tab_position_from(self.open_tabs@, note_id@, i as nat),
        {
            if self.open_tabs[i].note.id.eq(note_id) {
                return Some(i);
            }
        }
        None
    }

    /// Opens a note in a tab and selects it. A note that already has a tab
    /// just activates it; otherwise its content must be fetched and passed
    /// to `finish_open_note`.
    pub fn open_note(&mut self, note_id: String) -> (r: Result<OpenNoteStep, WorkspaceError>)
        requires
            old(self).wf(),
        ensures
            final(self).wf(),
            final(self).root_view() == old(self).root_view(),
            final(self).tabs() == old(self).tabs(),
            match tab_position(old(self).tabs(), note_id@) {
                Some(k) => r == Ok::<OpenNoteStep, WorkspaceError>(OpenNoteStep::Done)
                    && final(self).active() == Some(k as usize)
                    && final(self).selection() == TreeSelection::Note(note_id),
                None => final(self).active() == old(self).active() && final(self).selection() == old(self).selection()
                    && match find_note(old(self).root_view(), note_id@) {
                        None => r matches Err(WorkspaceError::NotFound(m)) && m@ == note_not_found(note_id@),
                        Some(n) => r == Ok::<OpenNoteStep, WorkspaceError>(OpenNoteStep::FetchContent(n)),
                    },
            },
    {
        proof {
            lemma_tab_position(self.open_tabs@, note_id@);
        }
        if let Some(index) = self.tab_index_of(&note_id) {
            self.active_tab_index = Some(index);
            self.selected = TreeSelection::Note(note_id);
            return Ok(OpenNoteStep::Done);
        }
        match self.root.find_note(&note_id) {
            Some(note) => Ok(OpenNoteStep::FetchContent(note.copy())),
            None => Err(not_found("note not found: ", note_id.as_str())),
        }
    }

    /// Shows a note, with its fetched content, in a new active tab and
    /// selects it; a note that has a tab by now just activates it.
    pub fn finish_open_note(&mut self, note: Note, content: String)
        requires
            old(self).wf(),
        ensures
            final(self).wf(),
            final(self).root_view() == old(self).root_view(),
            final(self).selection() == TreeSelection::Note(note.id),
            match tab_position(old(self).tabs(), note.id@) {
                Some(k) => final(self).tabs() == old(self).tabs() && final(self).active() == Some(k as usize),
                None => final(self).tabs() == old(self).tabs().push(OpenedNote { note, content })
                    && final(self).active() == Some(old(self).tabs().len() as usize),
            },
    {
        proof {
            lemma_tab_position(self.open_tabs@, note.id@);
        }
        let ghost note_v = note;
        if let Some(index) = self.tab_index_of(&note.id) {
            self.active_tab_index = Some(index);
            self.selected = TreeSelection::Note(note.id);
            return;
        }
        self.selected = TreeSelection::Note(note.id.clone());
        let ghost before = self.open_tabs@;
        self.open_tabs.push(OpenedNote { note, content });
        self.active_tab_index = Some(self.open_tabs.len() - 1);
        proof {
            assert(tab_ids(self.open_tabs@) =~= tab_ids(before).push(note_v.id@));
            assert forall|i: int, j: int| 0 <= i < j < tab_ids(self.open_tabs@).len()
                implies tab_ids(self.open_tabs@)[i] != tab_ids(self.open_tabs@)[j] by {
                if j == before.len() {
                    assert(before[i].note.id@ != note_v.id@);
                } else {
                    assert(tab_ids(before)[i] != tab_ids(before)[j]);
                }
            }
        }
    }

    /// Activates tab `index` and selects its note.
    pub fn select_tab(&mut self, index: usize) -> (r: Result<(), WorkspaceError>)
        requires
            old(self).wf(),
        ensures
            final(self).wf(),
            final(self).root_view() == old(self).root_view(),
            final(self).tabs() == old(self).tabs(),
            index < old(self).tabs().len() ==> r is Ok && final(self).active() == Some(index)
                && final(self).selection() == TreeSelection::Note(old(self).tabs()[index as int].note.id),
            index >= old(self).tabs().len() ==> (r matches Err(WorkspaceError::NotFound(m))
                && m@ == tab_not_found(decimal_spec(index as nat))
                && final(self).active() == old(self).active() && final(self).selection() == old(self).selection()),
    {
        if index >= self.open_tabs.len() {
            let number = decimal(index);
            return Err(not_found("tab not found: ", number.as_str()));
        }
        self.active_tab_index = Some(index);
        self.selected = TreeSelection::Note(self.open_tabs[index].note.id.clone());
        Ok(())
    }

    /// Closes the tab of note `note_id`. Closing the active tab activates
    /// the tab that takes its place, or the new last one; closing a tab
    /// before the active one keeps the same note active.
    pub fn close_note_tab(&mut self, note_id: String) -> (r: Result<(), WorkspaceError>)
        requires
            old(self).wf(),
        ensures
            final(self).wf(),
            final(self).root_view() == old(self).root_view(),
            match tab_position(old(self).tabs(), note_id@) {
                None => r matches Err(WorkspaceError::NotFound(m)) && m@ == tab_not_found(note_id@)
                    && final(self).tabs() == old(self).tabs() && final(self).active() == old(self).active()
                    && final(self).selection() == old(self).selection(),
                Some(k) => r is Ok && final(self).tabs() == old(self).tabs().remove(k as int) && match old(self).active() {
                    None => final(self).active() is None && final(self).selection() == old(self).selection(),
                    Some(a) => if final(self).tabs().len() == 0 {
                        final(self).active() is None && final(self).selection() == old(self).selection()
                    } else if a == k {
                        let next = if k < final(self).tabs().len() { k } else { (final(self).tabs().len() - 1) as nat };
                        final(self).active() == Some(next as usize)
                            && final(self).selection() == TreeSelection::Note(final(self).tabs()[next as int].note.id)
                    } else if k < a {
                        final(self).active() == Some((a - 1) as usize)
                            && final(self).selection() == TreeSelection::Note(final(self).tabs()[a - 1].note.id)
                    } else {
                        final(self).active() == Some(a) && final(self).selection() == old(self).selection()
                    },
                },
            },
    {
        proof {
            lemma_tab_position(self.open_tabs@, note_id@);
        }
        let index = match self.tab_index_of(&note_id) {
            Some(index) => index,
            None => return Err(not_found("tab not found: ", note_id.as_str())),
        };
        let active_index = self.active_tab_index;
        let ghost before = self.open_tabs@;
        self.open_tabs.remove(index);
        assert(self.open_tabs@ == before.remove(index as int));
        proof {
            assert(tab_ids(self.open_tabs@) =~= tab_ids(before).remove(index as int));
            assert forall|i: int, j: int| 0 <= i < j < tab_ids(self.open_tabs@).len()
                implies tab_ids(self.open_tabs@)[i] != tab_ids(self.open_tabs@)[j] by {
                let i0 = if i < index { i } else { i + 1 };
                let j0 = if j < index { j } else { j + 1 };
                assert(tab_ids(before)[i0] != tab_ids(before)[j0]);
            }
        }
        match active_index {
            None => {},
            Some(active) => {
                if self.open_tabs.len() == 0 {
                    self.active_tab_index = None;
                } else if active == index {
                    let last = self.open_tabs.len() - 1;
                    let next_index = if index < last { index } else { last };
                    self.active_tab_index = Some(next_index);
                    self.selected = TreeSelection::Note(self.open_tabs[next_index].note.id.clone());
                } else if index < active {
                    let next_index = active - 1;
                    self.active_tab_index = Some(next_index);
                    self.selected = TreeSelection::Note(self.open_tabs[next_index].note.id.clone());
                } else {
                    self.active_tab_index = Some(active);
                }
            },
        }
        Ok(())
    }

    fn restore_active_tab(&mut self, active_note_id: Option<String>)
        requires
            tab_ids(old(self).open_tabs@).no_duplicates(),
            (active_note_id is Some) == (old(self).open_tabs@.len() > 0),
            active_note_id matches Some(id) ==> tab_position(old(self).open_tabs@, id@) is Some,
        ensures
            final(self).wf(),
            final(self).root_view() == old(self).root_view(),
            final(self).selection() == old(self).selection(),
            final(self).open_tabs@ == old(self).open_tabs@,
            final(self).active_tab_index == restored_index(
                old(self).open_tabs@,
                match active_note_id { Some(s) => Some(s@), None => None },
            ),
    {
        match active_note_id {
            None => {
                self.active_tab_index = None;
            },
            Some(id) => {
                proof {
                    lemma_tab_position(self.open_tabs@, id@);
                }
                self.active_tab_index = self.tab_index_of(&id);
            },
        }
    }

    /// Moves the tab of note `note_id` before tab `target_index`; the same
    /// note stays active.
    pub fn move_note_tab_before(&mut self, note_id: String, target_index: usize) -> (r: Result<(), WorkspaceError>)
        requires
            old(self).wf(),
        ensures
            final(self).wf(),
            final(self).root_view() == old(self).root_view(),
            final(self).selection() == old(self).selection(),
            target_index >= old(self).tabs().len() ==> (r matches Err(WorkspaceError::NotFound(m))
                && m@ == tab_not_found(decimal_spec(target_index as nat))
                && final(self).tabs() == old(self).tabs() && final(self).active() == old(self).active()),
            target_index < old(self).tabs().len() ==> match tab_position(old(self).tabs(), note_id@) {
                None => r matches Err(WorkspaceError::NotFound(m)) && m@ == tab_not_found(note_id@)
                    && final(self).tabs() == old(self).tabs() && final(self).active() == old(self).active(),
                Some(k) => r is Ok && if k == target_index {
                    final(self).tabs() == old(self).tabs() && final(self).active() == old(self).active()
                } else {
                    let dest = if k < target_index { target_index - 1 } else { target_index as int };
                    &&& final(self).tabs() == old(self).tabs().remove(k as int).insert(dest, old(self).tabs()[k as int])
                    &&& final(self).active() == restored_index(
                        final(self).tabs(),
                        match old(self).active_note_spec() { Some(t) => Some(t.note.id@), None => None },
                    )
                },
            },
    {
        if target_index >= self.open_tabs.len() {
            let number = decimal(target_index);
            return Err(not_found("tab not found: ", number.as_str()));
        }
        proof {
            lemma_tab_position(self.open_tabs@, note_id@);
        }
        let index = match self.tab_index_of(&note_id) {
            Some(index) => index,
            None => return Err(not_found("tab not found: ", note_id.as_str())),
        };
        if index == target_index {
            return Ok(());
        }
        let active_note_id = match self.active_note() {
            Some(opened) => Some(copy_string(&opened.note.id)),
            None => None,
        };
        let ghost before = self.open_tabs@;
        let tab = self.open_tabs.remove(index);
        let dest = if index < target_index { target_index - 1 } else { target_index };
        self.open_tabs.insert(dest, tab);
        proof {
            let after = self.open_tabs@;
            assert(after =~= before.remove(index as int).insert(dest as int, before[index as int]));
            lemma_permuted_tabs_distinct(before, index as int, dest as int);
            law_move_keeps_active_note(before, self.active_tab_index, index as int, dest as int);
        }
        self.restore_active_tab(active_note_id);
        Ok(())
    }

    /// Moves the tab of note `note_id` to the end; the same note stays
    /// active.
    pub fn move_note_tab_to_end(&mut self, note_id: String) -> (r: Result<(), WorkspaceError>)
        requires
            old(self).wf(),
        ensures
            final(self).wf(),
            final(self).root_view() == old(self).root_view(),
            final(self).selection() == old(self).selection(),
            match tab_position(old(self).tabs(), note_id@) {
                None => r matches Err(WorkspaceError::NotFound(m)) && m@ == tab_not_found(note_id@)
                    && final(self).tabs() == old(self).tabs() && final(self).active() == old(self).active(),
                Some(k) => r is Ok && if k + 1 == old(self).tabs().len() {
                    final(self).tabs() == old(self).tabs() && final(self).active() == old(self).active()
                } else {
                    &&& final(self).tabs() == old(self).tabs().remove(k as int).push(old(self).tabs()[k as int])
                    &&& final(self).active() == restored_index(
                        final(self).tabs(),
                        match old(self).active_note_spec() { Some(t) => Some(t.note.id@), None => None },
                    )
                },
            },
    {
        proof {
            lemma_tab_position(self.open_tabs@, note_id@);
        }
        let index = match self.tab_index_of(&note_id) {
            Some(index) => index,
            None => return Err(not_found("tab not found: ", note_id.as_str())),
        };
        if index == self.open_tabs.len() - 1 {
            return Ok(());
        }
        let active_note_id = match self.active_note() {
            Some(opened) => Some(copy_string(&opened.note.id)),
            None => None,
        };
        let ghost before = self.open_tabs@;
        let tab = self.open_tabs.remove(index);
        self.open_tabs.push(tab);
        proof {
            let after = self.open_tabs@;
            let dest = (before.len() - 1) as int;
            assert(before.remove(index as int).insert(dest, before[index as int]) =~= before.remove(index as int).push(before[index as int]));
            lemma_permuted_tabs_distinct(before, index as int, dest);
            law_move_keeps_active_note(before, self.active_tab_index, index as int, dest);
        }
        self.restore_active_tab(active_note_id);
        Ok(())
    }

    /// The note shown in the active tab.
    pub fn active_note(&self) -> (r: Option<&OpenedNote>)
        ensures
            match r {
                Some(t) => self.active_note_spec() == Some(*t),
                None => self.active_note_spec() is None,
            },
    {
        match self.active_tab_index {
            Some(index) => {
                if index < self.open_tabs.len() {
                    Some(&self.open_tabs[index])
                } else {
                    None
                }
            },
            None => None,
        }
    }

    /// The index of the active tab.
    pub fn active_tab_index(&self) -> (r: Option<usize>)
        ensures
            r == self.active(),
    {
        self.active_tab_index
    }

    /// The open tabs, in order.
    pub fn open_tabs(&self) -> (r: &[OpenedNote])
        ensures
            r@ == self.tabs(),
    {
        self.open_tabs.as_slice()
    }

    /// The rows that draw the tree.
    pub fn tree_rows(&self) -> (r: Vec<TreeRow>)
        requires
            height(self.root_view()) <= usize::MAX,
        ensures
            r@.map_values(|row: TreeRow| row_view(row)) == rows(self.root_view(), 0, self.selection()),
    {
        let mut out: Vec<TreeRow> = Vec::new();
        self.root.append_rows(0, &self.selected, &mut out);
        assert(Seq::<TreeRow>::empty().map_values(|row: TreeRow| row_view(row)) =~= Seq::<RowView>::empty());
        assert(out@.map_values(|row: TreeRow| row_view(row)) =~= rows(self.root@, 0, self.selected));
        out
    }

    /// The names of the directories from the root down to the directory of
    /// the active note; empty when no note is active or its directory is
    /// not in the tree.
    pub fn opened_note_directory_path(&self) -> (r: Vec<String>)
        ensures
            r@.map_values(|s: String| s@) == match self.active_note_spec() {
                None => Seq::empty(),
                Some(t) => dir_path_or_empty(self.root_view(), t.note.directory_id@),
            },
    {
        let opened = match self.active_note() {
            Some(opened) => opened,
            None => {
                let v: Vec<String> = Vec::new();
                assert(v@.map_values(|s: String| s@) =~= Seq::<Seq<char>>::empty());
                return v;
            },
        };
        match self.root.directory_path(&opened.note.directory_id) {
            Some(p) => p,
            None => {
                let v: Vec<String> = Vec::new();
                assert(v@.map_values(|s: String| s@) =~= Seq::<Seq<char>>::empty());
                v
            },
        }
    }

    /// A plain-text picture of the workspace: the selection, the tree, the
    /// tabs and the active note's content.
    pub fn snapshot_workspace(&self) -> (r: String)
        requires
            height(self.root_view()) <= usize::MAX,
        ensures
            r@ == join_spec(snapshot_lines(*self)),
    {
        let mut out: Vec<String> = Vec::new();
        let first = match &self.selected {
            TreeSelection::Directory(id) => {
                let mut line = String::from_str("selected: directory:");
                match self.root.find_directory(id) {
                    Some(node) => append(&mut line, node.directory.name.as_str()),
                    None => append(&mut line, "<missing>"),
                }
                line
            },
            TreeSelection::Note(id) => {
                let mut line = String::from_str("selected: note:");
                match self.root.find_note(id) {
                    Some(note) => append(&mut line, note.name.as_str()),
                    None => append(&mut line, "<missing>"),
                }
                line
            },
        };
        out.push(first);
        out.push(String::from_str("tree:"));
        let ghost head = seq![selected_line(self.root_view(), self.selection()), "tree:"@];
        assert(out@.map_values(|l: String| l@) =~= head);
        let rows_v = self.tree_rows();
        let ghost row_views = rows_v@.map_values(|row: TreeRow| row_view(row));
        let nr = rows_v.len();
        for i in 0..nr
            invariant
                nr == rows_v@.len(),
                row_views == rows_v@.map_values(|row: TreeRow| row_view(row)),
                out@.map_values(|l: String| l@) == head + row_views.take(i as int).map_values(|r: RowView| row_line(r)),
        {
            let ghost before = out@.map_values(|l: String| l@);
            let line = row_line_of(&rows_v[i]);
            let ghost line_v = line@;
            assert(line_v == row_line(row_views[i as int]));
            out.push(line);
            assert(out@.map_values(|l: String| l@) =~= before.push(line_v));
            assert(row_views.take(i + 1).map_values(|r: RowView| row_line(r))
                =~= row_views.take(i as int).map_values(|r: RowView| row_line(r)).push(row_line(row_views[i as int])));
            assert(out@.map_values(|l: String| l@) =~= head + row_views.take(i + 1).map_values(|r: RowView| row_line(r)));
        }
        assert(row_views.take(nr as int) =~= row_views);
        out.push(String::from_str("tabs:"));
        let ghost head2 = head + row_views.map_values(|r: RowView| row_line(r)) + seq!["tabs:"@];
        assert(out@.map_values(|l: String| l@) =~= head2);
        let nt = self.open_tabs.len();
        if nt == 0 {
            out.push(String::from_str("  <empty>"));
            assert(out@.map_values(|l: String| l@) =~= head2 + tab_lines(self.tabs(), self.active()));
        } else {
            for i in 0..nt
                invariant
                    nt == self.open_tabs@.len(),
                    nt > 0,
                    out@.map_values(|l: String| l@) == head2 + tab_lines(self.tabs(), self.active()).take(i as int),
            {
                let mut line = String::from_str("  ");
                let is_active = match self.active_tab_index {
                    Some(a) => a == i,
                    None => false,
                };
                append(&mut line, if is_active { "*" } else { " " });
                append(&mut line, " ");
                append(&mut line, self.open_tabs[i].note.name.as_str());
                let ghost before = out@.map_values(|l: String| l@);
                let ghost line_v = line@;
                assert(line_v == tab_line(self.tabs()[i as int], i as int, self.active()));
                out.push(line);
                assert(out@.map_values(|l: String| l@) =~= before.push(line_v));
                assert(tab_lines(self.tabs(), self.active()).take(i + 1)
                    =~= tab_lines(self.tabs(), self.active()).take(i as int).push(tab_line(self.tabs()[i as int], i as int, self.active())));
                assert(out@.map_values(|l: String| l@) =~= head2 + tab_lines(self.tabs(), self.active()).take(i + 1));
            }
            assert(tab_lines(self.tabs(), self.active()).take(nt as int) =~= tab_lines(self.tabs(), self.active()));
        }
        out.push(String::from_str("viewer:"));
        let ghost head3 = head2 + tab_lines(self.tabs(), self.active()) + seq!["viewer:"@];
        assert(out@.map_values(|l: String| l@) =~= head3);
        match self.active_note() {
            Some(opened) => {
                let mut line = String::from_str("  note: ");
                append(&mut line, opened.note.name.as_str());
                out.push(line);
                out.push(String::from_str("  content:"));
                let ghost head4 = head3 + seq!["  note: "@ + opened.note.name@, "  content:"@];
                assert(out@.map_values(|l: String| l@) =~= head4);
                let content_lines = lines(opened.content.as_str());
                let ghost cl = lines_spec(opened.content@);
                let nc = content_lines.len();
                for j in 0..nc
                    invariant
                        nc == content_lines@.len(),
                        content_lines@.map_values(|l: String| l@) == cl,
                        out@.map_values(|l: String| l@) == head4 + cl.take(j as int).map_values(|l: Seq<char>| "    "@ + l),
                {
                    let mut line = String::from_str("    ");
                    append(&mut line, content_lines[j].as_str());
                    assert(cl[j as int] == content_lines@[j as int]@);
                    let ghost before = out@.map_values(|l: String| l@);
                    let ghost line_v = line@;
                    out.push(line);
                    assert(out@.map_values(|l: String| l@) =~= before.push(line_v));
                    assert(cl.take(j + 1).map_values(|l: Seq<char>| "    "@ + l)
                        =~= cl.take(j as int).map_values(|l: Seq<char>| "    "@ + l).push("    "@ + cl[j as int]));
                    assert(out@.map_values(|l: String| l@) =~= head4 + cl.take(j + 1).map_values(|l: Seq<char>| "    "@ + l));
                }
                assert(cl.take(nc as int) =~= cl);
                assert(out@.map_values(|l: String| l@) =~= snapshot_lines(*self));
            },
            None => {
                out.push(String::from_str("  <empty>"));
                assert(out@.map_values(|l: String| l@) =~= snapshot_lines(*self));
            },
        }
        join_lines(&out)
    }
}

/// The tree marker of a row: `v` for a shown directory, `>` for a hidden
/// one, `-` for a note.
pub open spec fn row_marker(r: RowView) -> Seq<char> {
    match r.kind {
        TreeRowKind::Directory => if r.expanded { "v"@ } else { ">"@ },
        TreeRowKind::Note => "-"@,
    }
}

/// The snapshot line of a tree row.
pub open spec fn row_line(r: RowView) -> Seq<char> {
    repeat_spec("  "@, r.depth as nat) + (if r.selected { "*"@ } else { " "@ }) + " "@ + row_marker(r) + " "@ + r.name
}

/// The snapshot line naming the selection.
pub open spec fn selected_line(root: TreeView, selected: TreeSelection) -> Seq<char> {
    match selected {
        TreeSelection::Directory(id) => "selected: directory:"@ + match find_dir(root, id@) {
            Some(n) => n.directory.name@,
            None => "<missing>"@,
        },
        TreeSelection::Note(id) => "selected: note:"@ + match find_note(root, id@) {
            Some(n) => n.name@,
            None => "<missing>"@,
        },
    }
}

/// The snapshot line of tab `i`.
pub open spec fn tab_line(t: OpenedNote, i: int, active: Option<usize>) -> Seq<char> {
    "  "@ + (if active == Some(i as usize) { "*"@ } else { " "@ }) + " "@ + t.note.name@
}

/// The snapshot lines of the tabs.
pub open spec fn tab_lines(tabs: Seq<OpenedNote>, active: Option<usize>) -> Seq<Seq<char>> {
    if tabs.len() == 0 {
        seq!["  <empty>"@]
    } else {
        Seq::new(tabs.len(), |i: int| tab_line(tabs[i], i, active))
    }
}

/// The snapshot lines of the viewer.
pub open spec fn viewer_lines(active: Option<OpenedNote>) -> Seq<Seq<char>> {
    match active {
        None => seq!["  <empty>"@],
        Some(t) => seq!["  note: "@ + t.note.name@, "  content:"@]
            + lines_spec(t.content@).map_values(|l: Seq<char>| "    "@ + l),
    }
}

/// The lines of a workspace snapshot.
pub open spec fn snapshot_lines(w: WorkspaceModel) -> Seq<Seq<char>> {
    seq![selected_line(w.root_view(), w.selection()), "tree:"@]
        + rows(w.root_view(), 0, w.selection()).map_values(|r: RowView| row_line(r))
        + seq!["tabs:"@]
        + tab_lines(w.tabs(), w.active())
        + seq!["viewer:"@]
        + viewer_lines(w.active_note_spec())
}

fn row_line_of(row: &TreeRow) -> (r: String)
    ensures
        r@ == row_line(row_view(*row)),
{
    let mut line = repeat("  ", row.depth);
    append(&mut line, if row.selected { "*" } else { " " });
    append(&mut line, " ");
    let marker = match row.kind {
        TreeRowKind::Directory => if row.expanded { "v" } else { ">" },
        TreeRowKind::Note => "-",
    };
    append(&mut line, marker);
    append(&mut line, " ");
    append(&mut line, row.name.as_str());
    line
}

/// The tabs after moving tab `k` to position `dest`.
pub open spec fn moved_tabs(tabs: Seq<OpenedNote>, k: int, dest: int) -> Seq<OpenedNote> {
    tabs.remove(k).insert(dest, tabs[k])
}

/// Moving a tab keeps every tab, only in another order, and keeps the
/// tabs' notes distinct.
pub proof fn law_move_is_a_permutation(tabs: Seq<OpenedNote>, k: int, dest: int)
    requires
        0 <= k < tabs.len(),
        0 <= dest < tabs.len(),
        tab_ids(tabs).no_duplicates(),
    ensures
        moved_tabs(tabs, k, dest).to_multiset() == tabs.to_multiset(),
        tab_ids(moved_tabs(tabs, k, dest)).no_duplicates(),
{
    lemma_permuted_tabs_distinct(tabs, k, dest);
}

/// Moving a tab keeps the same note active, and keeps no tab active when
/// none was.
pub proof fn law_move_keeps_active_note(tabs: Seq<OpenedNote>, active: Option<usize>, k: int, dest: int)
    requires
        0 <= k < tabs.len(),
        0 <= dest < tabs.len(),
        tab_ids(tabs).no_duplicates(),
        tabs.len() <= usize::MAX,
        active matches Some(a) ==> a < tabs.len(),
    ensures
        ({
            let after = moved_tabs(tabs, k, dest);
            let id = match active { Some(a) => Some(tabs[a as int].note.id@), None => None };
            match restored_index(after, id) {
                Some(i) => active is Some && i < after.len() && after[i as int].note.id@ == tabs[active->0 as int].note.id@,
                None => active is None,
            }
        }),
{
    let after = moved_tabs(tabs, k, dest);
    if let Some(a) = active {
        let id = tabs[a as int].note.id@;
        let src = |i: int| if i == dest { k } else {
            let r = if i < dest { i } else { i - 1 };
            if r < k { r } else { r + 1 }
        };
        let p = if a == k { dest } else {
            let r = if (a as int) < k { a as int } else { a - 1 };
            if r < dest { r } else { r + 1 }
        };
        assert(after[p] == tabs[src(p)]);
        assert(src(p) == a);
        lemma_tab_position(after, id);
    }
}

/// Moving one tab elsewhere keeps tab notes distinct.
proof fn lemma_permuted_tabs_distinct(before: Seq<OpenedNote>, index: int, dest: int)
    requires
        0 <= index < before.len(),
        0 <= dest < before.len(),
        tab_ids(before).no_duplicates(),
    ensures
        tab_ids(before.remove(index).insert(dest, before[index])).no_duplicates(),
        before.remove(index).insert(dest, before[index]).len() == before.len(),
        before.remove(index).insert(dest, before[index]).to_multiset() == before.to_multiset(),
{
    let after = before.remove(index).insert(dest, before[index]);
    let src = |i: int| if i == dest { index } else {
        let r = if i < dest { i } else { i - 1 };
        if r < index { r } else { r + 1 }
    };
    assert forall|i: int| 0 <= i < after.len() implies #[trigger] after[i] == before[src(i)] by {}
    assert forall|i: int, j: int| 0 <= i < j < tab_ids(after).len() implies tab_ids(after)[i] != tab_ids(after)[j] by {
        assert(after[i] == before[src(i)]);
        assert(after[j] == before[src(j)]);
        assert(src(i) != src(j));
        if src(i) < src(j) {
            assert(tab_ids(before)[src(i)] != tab_ids(before)[src(j)]);
        } else {
            assert(tab_ids(before)[src(j)] != tab_ids(before)[src(i)]);
        }
    }
    broadcast use vstd::seq_lib::group_to_multiset_ensures;
    assert(before.remove(index).to_multiset() == before.to_multiset().remove(before[index]));
    assert(after.to_multiset() == before.remove(index).to_multiset().insert(before[index]));
}

/// Opening a note in a new tab and then closing that note's tab gives back
/// the tabs as they were: the new tab is the last one, and closing it
/// removes exactly it.
pub proof fn law_open_then_close_restores_tabs(tabs: Seq<OpenedNote>, opened: OpenedNote)
    requires
        tab_position(tabs, opened.note.id@) is None,
    ensures
        tab_position(tabs.push(opened), opened.note.id@) == Some(tabs.len()),
        tabs.push(opened).remove(tabs.len() as int) == tabs,
{
    let pushed = tabs.push(opened);
    lemma_tab_position(tabs, opened.note.id@);
    lemma_tab_position(pushed, opened.note.id@);
    assert(pushed[tabs.len() as int] == opened);
    assert forall|j: int| 0 <= j < tabs.len() implies #[trigger] pushed[j] == tabs[j] by {}
    assert(pushed.remove(tabs.len() as int) =~= tabs);
}

} // verus!
