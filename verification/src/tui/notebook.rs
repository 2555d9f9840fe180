//! The notebook screen: the note tree, the note and directory dialogs, and
//! the editor.
use vstd::prelude::*;
use crate::data::{copy_string, Directory, Note};
use crate::tui::{
    confirm, dialog_ready_at, is_confirm, is_prompt, is_quit_confirm, next_index, previous_index, quit_confirm, simple_prompt, Action,
    EditorFollow, EditorMode, Event, KeyCode, ListSelection, NotebookEvent, TuiAction,
};

verus! {

/// A directory of the note store's tree as the notebook shows it: opened
/// directories carry their child directories and notes.
#[derive(Debug)]
pub struct DirectoryItem {
    pub directory: Directory,
    pub opened: bool,
    pub directories: Vec<DirectoryItem>,
    pub notes: Vec<Note>,
}

/// One line of the note tree.
#[derive(Clone, Debug, PartialEq, Eq)]
pub enum TreeItem {
    Note { value: Note, depth: usize },
    Directory { value: Directory, depth: usize, opened: bool },
}

/// The id of a tree line's directory or note.
pub open spec fn item_id(item: TreeItem) -> Seq<char> {
    match item {
        TreeItem::Note { value, .. } => value.id@,
        TreeItem::Directory { value, .. } => value.id@,
    }
}

/// How many levels of opened directories the item shows.
pub open spec fn item_height(item: DirectoryItem) -> nat
    decreases item, 1nat, 0nat,
{
    1 + item_height_from(item, 0)
}

/// The greatest height among the child directories from the `i`-th on.
pub open spec fn item_height_from(item: DirectoryItem, i: nat) -> nat
    decreases item, 0nat, item.directories@.len() - i,
{
    if i >= item.directories@.len() {
        0
    } else {
        let h = item_height(item.directories@[i as int]);
        let rest = item_height_from(item, i + 1);
        if h > rest { h } else { rest }
    }
}

proof fn lemma_item_height_from(item: DirectoryItem, i: nat)
    requires
        i <= item.directories@.len(),
    ensures
        forall|k: int| i <= k < item.directories@.len() ==> item_height(#[trigger] item.directories@[k]) <= item_height_from(item, i),
    decreases item.directories@.len() - i,
{
    if i < item.directories@.len() {
        lemma_item_height_from(item, i + 1);
    }
}

/// The lines of the note tree that show `item` at `depth`: the directory,
/// then, when it is opened, its child directories and then its notes.
pub open spec fn flatten_spec(item: DirectoryItem, depth: int) -> Seq<TreeItem>
    decreases item, 1nat, 0nat,
{
    let own = seq![TreeItem::Directory { value: item.directory, depth: depth as usize, opened: item.opened }];
    if item.opened {
        own + flatten_from(item, 0, depth + 1) + item.notes@.map_values(|n: Note| TreeItem::Note { value: n, depth: (depth + 1) as usize })
    } else {
        own
    }
}

/// The lines of the child directories of `item` from the `i`-th on.
pub open spec fn flatten_from(item: DirectoryItem, i: nat, depth: int) -> Seq<TreeItem>
    decreases item, 0nat, item.directories@.len() - i,
{
    if i >= item.directories@.len() {
        Seq::empty()
    } else {
        flatten_spec(item.directories@[i as int], depth) + flatten_from(item, i + 1, depth)
    }
}

/// The lines of the note tree for `item` at `depth`.
pub fn flatten(item: &DirectoryItem, depth: usize) -> (r: Vec<TreeItem>)
    requires
        depth + item_height(*item) <= usize::MAX,
    ensures
        r@ == flatten_spec(*item, depth as int),
    decreases item,
{
    let mut items: Vec<TreeItem> = Vec::new();
    items.push(TreeItem::Directory { value: item.directory.copy(), depth, opened: item.opened });
    if !item.opened {
        return items;
    }
    let ghost own = items@;
    proof {
        lemma_item_height_from(*item, 0);
    }
    let n = item.directories.len();
    for i in 0..n
        invariant
            n == item.directories@.len(),
            item.opened,
            depth + item_height(*item) <= usize::MAX,
            forall|k: int| 0 <= k < n ==> item_height(#[trigger] item.directories@[k]) <= item_height_from(*item, 0),
            items@ + flatten_from(*item, i as nat, depth + 1) == own + flatten_from(*item, 0, depth + 1),
    {
        let ghost before = items@;
        let mut sub = flatten(&item.directories[i], depth + 1);
        items.append(&mut sub);
        assert(flatten_from(*item, i as nat, depth + 1) =~= flatten_spec(item.directories@[i as int], depth + 1)
            + flatten_from(*item, (i + 1) as nat, depth + 1));
        assert(items@ + flatten_from(*item, (i + 1) as nat, depth + 1) =~= before + flatten_from(*item, i as nat, depth + 1));
    }
    assert(flatten_from(*item, n as nat, depth + 1) =~= Seq::<TreeItem>::empty());
    let ghost mid = items@;
    let ghost notes_v = item.notes@.map_values(|x: Note| TreeItem::Note { value: x, depth: (depth + 1) as usize });
    let m = item.notes.len();
    for j in 0..m
        invariant
            m == item.notes@.len(),
            depth + item_height(*item) <= usize::MAX,
            item_height(*item) >= 1,
            notes_v == item.notes@.map_values(|x: Note| TreeItem::Note { value: x, depth: (depth + 1) as usize }),
            items@ == mid + notes_v.take(j as int),
    {
        items.push(TreeItem::Note { value: item.notes[j].copy(), depth: depth + 1 });
        assert(notes_v.take(j + 1) =~= notes_v.take(j as int).push(notes_v[j as int]));
    }
    assert(notes_v.take(m as int) =~= notes_v);
    items
}

/// The note dialog's entries.
pub const REMOVE_NOTE: &'static str = "Remove note";
pub const RENAME_NOTE: &'static str = "Rename note";
/// The directory dialog's entries.
pub const ADD_NOTE: &'static str = "Add note";
pub const ADD_DIRECTORY: &'static str = "Add directory";
pub const RENAME_DIRECTORY: &'static str = "Rename directory";
pub const REMOVE_DIRECTORY: &'static str = "Remove directory";
/// The entry that closes a dialog.
pub const CLOSE: &'static str = "Close";

/// The note dialog's entries, in order.
pub const NOTE_ACTIONS: [&'static str; 3] = [RENAME_NOTE, REMOVE_NOTE, CLOSE];
/// The directory dialog's entries, in order.
pub const DIRECTORY_ACTIONS: [&'static str; 5] = [ADD_NOTE, ADD_DIRECTORY, RENAME_DIRECTORY, REMOVE_DIRECTORY, CLOSE];

/// What the notebook screen shows.
#[derive(Clone, Copy, Debug, PartialEq, Eq, Structural)]
pub enum ContextState {
    NoteTreeBrowsing,
    NoteActionsDialog,
    DirectoryActionsDialog,
    EditorViewMode,
    EditorEditMode,
}

/// The notebook screen's state.
#[derive(Debug)]
pub struct NotebookContext {
    pub state: ContextState,
    pub tree_state: ListSelection,
    pub tree_items: Vec<TreeItem>,
    pub note_actions_state: ListSelection,
    pub directory_actions_state: ListSelection,
    pub editor_mode: EditorMode,
    pub opened_note: Option<Note>,
}

/// The action that selects a tree line's directory or note.
pub open spec fn select_action(item: TreeItem) -> Action {
    match item {
        TreeItem::Directory { value, .. } => Action::Dispatch(Event::Notebook(NotebookEvent::SelectDirectory(value))),
        TreeItem::Note { value, .. } => Action::Dispatch(Event::Notebook(NotebookEvent::SelectNote(value))),
    }
}

/// Whether the tree's selection is on a line, as it is once the tree was
/// drawn with at least one line.
pub open spec fn tree_ready(c: NotebookContext) -> bool {
    c.tree_state.selected matches Some(i) && i < c.tree_items@.len()
}

fn select_item_action(item: &TreeItem) -> (a: Action)
    ensures
        a == select_action(*item),
{
    match item {
        TreeItem::Directory { value, .. } => Action::Dispatch(Event::Notebook(NotebookEvent::SelectDirectory(value.copy()))),
        TreeItem::Note { value, .. } => Action::Dispatch(Event::Notebook(NotebookEvent::SelectNote(value.copy()))),
    }
}

/// The editor key that `consume_on_editor` hands on when the editor's mode
/// changed from `before` to `after`.
pub open spec fn mode_change_action(before: EditorMode, after: EditorMode) -> Action {
    if before == after {
        Action::Nothing
    } else {
        match after {
            EditorMode::Normal => Action::Dispatch(Event::Notebook(NotebookEvent::ViewNote)),
            EditorMode::Insert => Action::Dispatch(Event::Notebook(NotebookEvent::EditNote)),
            _ => Action::Nothing,
        }
    }
}

/// The screen state after the editor's mode changed from `before` to
/// `after`.
pub open spec fn mode_change_state(state: ContextState, before: EditorMode, after: EditorMode) -> ContextState {
    if before == after {
        state
    } else {
        match after {
            EditorMode::Normal => ContextState::EditorViewMode,
            EditorMode::Insert => ContextState::EditorEditMode,
            _ => state,
        }
    }
}

impl NotebookContext {
    /// The notebook screen before any tree was loaded.
    pub fn new() -> (c: NotebookContext)
        ensures
            c.state == ContextState::NoteTreeBrowsing,
            c.tree_state.selected == Some(0usize),
            c.tree_items@.len() == 0,
            c.note_actions_state.selected is None,
            c.directory_actions_state.selected is None,
            c.editor_mode == EditorMode::Normal,
            c.opened_note is None,
    {
        NotebookContext {
            state: ContextState::NoteTreeBrowsing,
            tree_state: ListSelection::first(),
            tree_items: Vec::new(),
            note_actions_state: ListSelection::empty(),
            directory_actions_state: ListSelection::empty(),
            editor_mode: EditorMode::Normal,
            opened_note: None,
        }
    }

    /// Shows the note tree rooted at `root`.
    pub fn update_items(&mut self, root: &DirectoryItem)
        requires
            item_height(*root) <= usize::MAX,
        ensures
            final(self).tree_items@ == flatten_spec(*root, 0),
            final(self).state == old(self).state,
            final(self).tree_state == old(self).tree_state,
            final(self).note_actions_state == old(self).note_actions_state,
            final(self).directory_actions_state == old(self).directory_actions_state,
            final(self).editor_mode == old(self).editor_mode,
            final(self).opened_note == old(self).opened_note,
    {
        self.tree_items = flatten(root, 0);
    }

    /// Selects the first tree line of directory or note `id`, if there is one.
    pub fn select_item(&mut self, id: &String)
        ensures
            final(self).tree_items == old(self).tree_items,
            final(self).state == old(self).state,
            final(self).note_actions_state == old(self).note_actions_state,
            final(self).directory_actions_state == old(self).directory_actions_state,
            final(self).editor_mode == old(self).editor_mode,
            final(self).opened_note == old(self).opened_note,
            match first_item_with_id(old(self).tree_items@, id@, 0) {
                Some(i) => final(self).tree_state.selected == Some(i as usize),
                None => final(self).tree_state == old(self).tree_state,
            },
    {
        let n = self.tree_items.len();
        for i in 0..n
            invariant
                n == self.tree_items@.len(),
                self.tree_items == old(self).tree_items,
                self.tree_state == old(self).tree_state,
                self.state == old(self).state,
                self.note_actions_state == old(self).note_actions_state,
                self.directory_actions_state == old(self).directory_actions_state,
                self.editor_mode == old(self).editor_mode,
                self.opened_note == old(self).opened_note,
                first_item_with_id(old(self).tree_items@, id@, 0) == first_item_with_id(old(self).tree_items@, id@, i as nat),
        {
            let matches = match &self.tree_items[i] {
                TreeItem::Directory { value, .. } => value.id.eq(id),
                TreeItem::Note { value, .. } => value.id.eq(id),
            };
            if matches {
                self.tree_state.select(Some(i));
                return;
            }
        }
    }

    /// Shows a note in the editor, in view mode.
    pub fn open_note(&mut self, note: Note)
        ensures
            final(self).state == ContextState::EditorViewMode,
            final(self).opened_note == Some(note),
            final(self).editor_mode == EditorMode::Normal,
            final(self).tree_items == old(self).tree_items,
            final(self).tree_state == old(self).tree_state,
            final(self).note_actions_state == old(self).note_actions_state,
            final(self).directory_actions_state == old(self).directory_actions_state,
    {
        self.state = ContextState::EditorViewMode;
        self.opened_note = Some(note);
        self.editor_mode = EditorMode::Normal;
    }

    /// Brings the tree's selection into range, as drawing the tree does.
    pub fn clamp_tree_selection(&mut self)
        ensures
            final(self).tree_items == old(self).tree_items,
            final(self).state == old(self).state,
            final(self).note_actions_state == old(self).note_actions_state,
            final(self).directory_actions_state == old(self).directory_actions_state,
            final(self).editor_mode == old(self).editor_mode,
            final(self).opened_note == old(self).opened_note,
            old(self).tree_items@.len() > 0 && old(self).tree_state.selected is Some ==> tree_ready(*final(self)),
            old(self).tree_items@.len() == 0 ==> final(self).tree_state.selected is None,
            tree_ready(*old(self)) ==> final(self).tree_state == old(self).tree_state,
    {
        let n = self.tree_items.len();
        self.tree_state.clamp(n);
    }

    /// What a key does on the notebook screen.
    pub fn consume(&mut self, code: KeyCode) -> (a: Action)
        requires
            consume_allowed(*old(self), code),
        ensures
            consume_result(*old(self), *final(self), code, a),
    {
        match self.state {
            ContextState::NoteTreeBrowsing => self.consume_on_note_tree(code),
            ContextState::EditorViewMode | ContextState::EditorEditMode => self.consume_on_editor(code),
            ContextState::NoteActionsDialog => self.consume_on_note_actions(code),
            ContextState::DirectoryActionsDialog => self.consume_on_directory_actions(code),
        }
    }

    /// What a key does in the note tree.
    pub fn consume_on_note_tree(&mut self, code: KeyCode) -> (a: Action)
        requires
            note_tree_allowed(*old(self), code),
        ensures
            note_tree_result(*old(self), *final(self), code, a),
    {
        match code {
            KeyCode::Char('j') | KeyCode::Down => {
                self.tree_state.select_next();
                let idx = self.tree_state.selected().unwrap();
                if idx < self.tree_items.len() {
                    select_item_action(&self.tree_items[idx])
                } else {
                    self.tree_state.select_last();
                    Action::Nothing
                }
            },
            KeyCode::Char('k') | KeyCode::Up => {
                self.tree_state.select_previous();
                let idx = self.tree_state.selected().unwrap();
                select_item_action(&self.tree_items[idx])
            },
            KeyCode::Char('l') => {
                let idx = self.tree_state.selected().unwrap();
                match &self.tree_items[idx] {
                    TreeItem::Directory { value, opened, .. } => {
                        let directory_id = value.id.clone();
                        let event = if *opened {
                            NotebookEvent::CloseDirectory(directory_id)
                        } else {
                            NotebookEvent::OpenDirectory(directory_id)
                        };
                        Action::Dispatch(Event::Notebook(event))
                    },
                    TreeItem::Note { .. } => Action::Nothing,
                }
            },
            KeyCode::Char('m') => {
                let idx = self.tree_state.selected().unwrap();
                let is_directory = match &self.tree_items[idx] {
                    TreeItem::Directory { .. } => true,
                    TreeItem::Note { .. } => false,
                };
                if is_directory {
                    self.state = ContextState::DirectoryActionsDialog;
                    self.directory_actions_state.select_first();
                } else {
                    self.state = ContextState::NoteActionsDialog;
                    self.note_actions_state.select_first();
                }
                Action::PassThrough
            },
            KeyCode::Char('o') | KeyCode::Char('b') | KeyCode::Char('e') | KeyCode::Char('h') => Action::PassThrough,
            KeyCode::Esc => quit_confirm(),
            _ => Action::Nothing,
        }
    }

    /// What a key does in the editor, with the editor in mode
    /// `self.editor_mode`. Keys the editor takes come back as
    /// `Action::EditorInput`.
    pub fn consume_on_editor(&mut self, code: KeyCode) -> (a: Action)
        ensures
            editor_result(*old(self), *final(self), code, a),
    {
        let mode = self.editor_mode;
        let normal = mode == EditorMode::Normal;
        if (code == KeyCode::Char('/') || code == KeyCode::Char('v')) && normal {
            Action::Nothing
        } else if code == KeyCode::Char('b') && normal {
            self.state = ContextState::NoteTreeBrowsing;
            self.opened_note = None;
            Action::Dispatch(Event::Notebook(NotebookEvent::BrowseNoteTree))
        } else if code == KeyCode::Esc && mode == EditorMode::Insert {
            self.state = ContextState::EditorViewMode;
            Action::EditorInput {
                follow: EditorFollow::Then(Box::new(Action::Dispatch(Event::Notebook(NotebookEvent::ViewNote)))),
            }
        } else if code == KeyCode::Esc {
            quit_confirm()
        } else {
            Action::EditorInput { follow: EditorFollow::CompareModes { before: mode } }
        }
    }

    /// What follows a key the editor took, once its mode went from `before`
    /// to `after`.
    pub fn after_editor_input(&mut self, before: EditorMode, after: EditorMode) -> (a: Action)
        ensures
            a == mode_change_action(before, after),
            final(self).state == mode_change_state(old(self).state, before, after),
            final(self).editor_mode == after,
            final(self).tree_items == old(self).tree_items,
            final(self).tree_state == old(self).tree_state,
            final(self).note_actions_state == old(self).note_actions_state,
            final(self).directory_actions_state == old(self).directory_actions_state,
            final(self).opened_note == old(self).opened_note,
    {
        self.editor_mode = after;
        if before != after {
            match after {
                EditorMode::Normal => {
                    self.state = ContextState::EditorViewMode;
                    Action::Dispatch(Event::Notebook(NotebookEvent::ViewNote))
                },
                EditorMode::Insert => {
                    self.state = ContextState::EditorEditMode;
                    Action::Dispatch(Event::Notebook(NotebookEvent::EditNote))
                },
                _ => Action::Nothing,
            }
        } else {
            Action::Nothing
        }
    }

    /// What a key does in the note dialog.
    pub fn consume_on_note_actions(&mut self, code: KeyCode) -> (a: Action)
        requires
            code == KeyCode::Enter ==> dialog_ready_at(old(self).note_actions_state, 3),
        ensures
            note_actions_result(*old(self), *final(self), code, a),
    {
        match code {
            KeyCode::Char('j') => {
                self.note_actions_state.select_next();
                Action::Nothing
            },
            KeyCode::Char('k') => {
                self.note_actions_state.select_previous();
                Action::Nothing
            },
            KeyCode::Esc => {
                self.state = ContextState::NoteTreeBrowsing;
                Action::Dispatch(Event::Notebook(NotebookEvent::CloseNoteActionsDialog))
            },
            KeyCode::Enter => {
                let idx = self.note_actions_state.selected().unwrap();
                if idx == 0 {
                    simple_prompt("Enter new note name:", Action::Tui(TuiAction::RenameNote))
                } else if idx == 1 {
                    confirm("Confirm to remove note?", Action::Tui(TuiAction::RemoveNote))
                } else {
                    self.state = ContextState::NoteTreeBrowsing;
                    Action::Dispatch(Event::Notebook(NotebookEvent::CloseNoteActionsDialog))
                }
            },
            _ => Action::Nothing,
        }
    }

    /// What a key does in the directory dialog.
    pub fn consume_on_directory_actions(&mut self, code: KeyCode) -> (a: Action)
        requires
            code == KeyCode::Enter ==> dialog_ready_at(old(self).directory_actions_state, 5),
        ensures
            directory_actions_result(*old(self), *final(self), code, a),
    {
        match code {
            KeyCode::Char('j') => {
                self.directory_actions_state.select_next();
                Action::Nothing
            },
            KeyCode::Char('k') => {
                self.directory_actions_state.select_previous();
                Action::Nothing
            },
            KeyCode::Enter => {
                let idx = self.directory_actions_state.selected().unwrap();
                if idx == 0 {
                    simple_prompt("Enter note name:", Action::Tui(TuiAction::AddNote))
                } else if idx == 1 {
                    simple_prompt("Enter directory name:", Action::Tui(TuiAction::AddDirectory))
                } else if idx == 2 {
                    simple_prompt("Enter new directory name:", Action::Tui(TuiAction::RenameDirectory))
                } else if idx == 3 {
                    confirm("Confirm to remove directory?", Action::Tui(TuiAction::RemoveDirectory))
                } else {
                    self.state = ContextState::NoteTreeBrowsing;
                    Action::Dispatch(Event::Notebook(NotebookEvent::CloseDirectoryActionsDialog))
                }
            },
            KeyCode::Esc => {
                self.state = ContextState::NoteTreeBrowsing;
                Action::Dispatch(Event::Notebook(NotebookEvent::CloseDirectoryActionsDialog))
            },
            _ => Action::Nothing,
        }
    }
}

/// The first tree line, from the `i`-th on, of directory or note `id`.
pub open spec fn first_item_with_id(items: Seq<TreeItem>, id: Seq<char>, i: nat) -> Option<nat>
    decreases items.len() - i,
{
    if i >= items.len() {
        None
    } else if item_id(items[i as int]) == id {
        Some(i)
    } else {
        first_item_with_id(items, id, i + 1)
    }
}

/// Whether `n` is `c` with only the tree selection changed.
pub open spec fn only_tree_state_changed(c: NotebookContext, n: NotebookContext) -> bool {
    &&& n.state == c.state
    &&& n.tree_items == c.tree_items
    &&& n.note_actions_state == c.note_actions_state
    &&& n.directory_actions_state == c.directory_actions_state
    &&& n.editor_mode == c.editor_mode
    &&& n.opened_note == c.opened_note
}

/// Whether the note tree can take `code`: keys that act on the selected
/// line need the selection on a line; moving up needs a line above the
/// selection, which may be one past the last line.
pub open spec fn note_tree_allowed(c: NotebookContext, code: KeyCode) -> bool {
    match code {
        KeyCode::Char('k') | KeyCode::Up => c.tree_state.selected matches Some(i) && i <= c.tree_items@.len()
            && c.tree_items@.len() > 0,
        KeyCode::Char('l') | KeyCode::Char('m') => tree_ready(c),
        _ => true,
    }
}

/// What a key does in the note tree.
pub open spec fn note_tree_result(c: NotebookContext, n: NotebookContext, code: KeyCode, a: Action) -> bool {
    match code {
        KeyCode::Char('j') | KeyCode::Down => {
            let s = next_index(c.tree_state.selected);
            only_tree_state_changed(c, n) && if s < c.tree_items@.len() {
                n.tree_state.selected == Some(s) && a == select_action(c.tree_items@[s as int])
            } else {
                n.tree_state.selected == Some(usize::MAX) && a == Action::Nothing
            }
        },
        KeyCode::Char('k') | KeyCode::Up => {
            let s = previous_index(c.tree_state.selected);
            only_tree_state_changed(c, n) && n.tree_state.selected == Some(s) && a == select_action(c.tree_items@[s as int])
        },
        KeyCode::Char('l') => n == c && match c.tree_items@[c.tree_state.selected->0 as int] {
            TreeItem::Directory { value, opened, .. } => a == Action::Dispatch(Event::Notebook(
                if opened { NotebookEvent::CloseDirectory(value.id) } else { NotebookEvent::OpenDirectory(value.id) },
            )),
            TreeItem::Note { .. } => a == Action::Nothing,
        },
        KeyCode::Char('m') => a == Action::PassThrough && match c.tree_items@[c.tree_state.selected->0 as int] {
            TreeItem::Directory { .. } => n == NotebookContext {
                state: ContextState::DirectoryActionsDialog,
                directory_actions_state: ListSelection { selected: Some(0) },
                ..c
            },
            TreeItem::Note { .. } => n == NotebookContext {
                state: ContextState::NoteActionsDialog,
                note_actions_state: ListSelection { selected: Some(0) },
                ..c
            },
        },
        KeyCode::Char('o') | KeyCode::Char('b') | KeyCode::Char('e') | KeyCode::Char('h') => n == c && a == Action::PassThrough,
        KeyCode::Esc => n == c && is_quit_confirm(a),
        _ => n == c && a == Action::Nothing,
    }
}

/// What a key does in the editor.
pub open spec fn editor_result(c: NotebookContext, n: NotebookContext, code: KeyCode, a: Action) -> bool {
    let mode = c.editor_mode;
    if (code == KeyCode::Char('/') || code == KeyCode::Char('v')) && mode == EditorMode::Normal {
        n == c && a == Action::Nothing
    } else if code == KeyCode::Char('b') && mode == EditorMode::Normal {
        n == NotebookContext { state: ContextState::NoteTreeBrowsing, opened_note: None, ..c }
            && a == Action::Dispatch(Event::Notebook(NotebookEvent::BrowseNoteTree))
    } else if code == KeyCode::Esc && mode == EditorMode::Insert {
        n == NotebookContext { state: ContextState::EditorViewMode, ..c }
            && a == (Action::EditorInput {
                follow: EditorFollow::Then(Box::new(Action::Dispatch(Event::Notebook(NotebookEvent::ViewNote)))),
            })
    } else if code == KeyCode::Esc {
        n == c && is_quit_confirm(a)
    } else {
        n == c && a == (Action::EditorInput { follow: EditorFollow::CompareModes { before: mode } })
    }
}

/// What a key does in the note dialog.
pub open spec fn note_actions_result(c: NotebookContext, n: NotebookContext, code: KeyCode, a: Action) -> bool {
    match code {
        KeyCode::Char('j') => n == NotebookContext {
            note_actions_state: ListSelection { selected: Some(next_index(c.note_actions_state.selected)) },
            ..c
        } && a == Action::Nothing,
        KeyCode::Char('k') => n == NotebookContext {
            note_actions_state: ListSelection { selected: Some(previous_index(c.note_actions_state.selected)) },
            ..c
        } && a == Action::Nothing,
        KeyCode::Esc => n == NotebookContext { state: ContextState::NoteTreeBrowsing, ..c }
            && a == Action::Dispatch(Event::Notebook(NotebookEvent::CloseNoteActionsDialog)),
        KeyCode::Enter => {
            let idx = c.note_actions_state.selected->0;
            if idx == 0 {
                n == c && is_prompt(a, seq![("Enter new note name:"@, false)], Action::Tui(TuiAction::RenameNote), None)
            } else if idx == 1 {
                n == c && is_confirm(a, "Confirm to remove note?"@, Action::Tui(TuiAction::RemoveNote))
            } else {
                n == NotebookContext { state: ContextState::NoteTreeBrowsing, ..c }
                    && a == Action::Dispatch(Event::Notebook(NotebookEvent::CloseNoteActionsDialog))
            }
        },
        _ => n == c && a == Action::Nothing,
    }
}

/// What a key does in the directory dialog.
pub open spec fn directory_actions_result(c: NotebookContext, n: NotebookContext, code: KeyCode, a: Action) -> bool {
    match code {
        KeyCode::Char('j') => n == NotebookContext {
            directory_actions_state: ListSelection { selected: Some(next_index(c.directory_actions_state.selected)) },
            ..c
        } && a == Action::Nothing,
        KeyCode::Char('k') => n == NotebookContext {
            directory_actions_state: ListSelection { selected: Some(previous_index(c.directory_actions_state.selected)) },
            ..c
        } && a == Action::Nothing,
        KeyCode::Enter => {
            let idx = c.directory_actions_state.selected->0;
            if idx == 0 {
                n == c && is_prompt(a, seq![("Enter note name:"@, false)], Action::Tui(TuiAction::AddNote), None)
            } else if idx == 1 {
                n == c && is_prompt(a, seq![("Enter directory name:"@, false)], Action::Tui(TuiAction::AddDirectory), None)
            } else if idx == 2 {
                n == c && is_prompt(a, seq![("Enter new directory name:"@, false)], Action::Tui(TuiAction::RenameDirectory), None)
            } else if idx == 3 {
                n == c && is_confirm(a, "Confirm to remove directory?"@, Action::Tui(TuiAction::RemoveDirectory))
            } else {
                n == NotebookContext { state: ContextState::NoteTreeBrowsing, ..c }
                    && a == Action::Dispatch(Event::Notebook(NotebookEvent::CloseDirectoryActionsDialog))
            }
        },
        KeyCode::Esc => n == NotebookContext { state: ContextState::NoteTreeBrowsing, ..c }
            && a == Action::Dispatch(Event::Notebook(NotebookEvent::CloseDirectoryActionsDialog)),
        _ => n == c && a == Action::Nothing,
    }
}

/// Whether the notebook screen can take `code` without failing.
pub open spec fn consume_allowed(c: NotebookContext, code: KeyCode) -> bool {
    match c.state {
        ContextState::NoteTreeBrowsing => note_tree_allowed(c, code),
        ContextState::NoteActionsDialog => code == KeyCode::Enter ==> dialog_ready_at(c.note_actions_state, 3),
        ContextState::DirectoryActionsDialog => code == KeyCode::Enter ==> dialog_ready_at(c.directory_actions_state, 5),
        _ => true,
    }
}

/// What a key does on the notebook screen.
pub open spec fn consume_result(c: NotebookContext, n: NotebookContext, code: KeyCode, a: Action) -> bool {
    match c.state {
        ContextState::NoteTreeBrowsing => note_tree_result(c, n, code, a),
        ContextState::NoteActionsDialog => note_actions_result(c, n, code, a),
        ContextState::DirectoryActionsDialog => directory_actions_result(c, n, code, a),
        _ => editor_result(c, n, code, a),
    }
}

/// In the note tree, moving down to a line and back up returns to the line
/// it started on and selects its directory or note again; nothing else of
/// the screen changes.
pub proof fn law_down_then_up_returns(
    c: NotebookContext,
    down: NotebookContext,
    up: NotebookContext,
    a1: Action,
    a2: Action,
)
    requires
        c.tree_items@.len() <= usize::MAX,
        c.tree_state.selected matches Some(i) && i + 1 < c.tree_items@.len(),
        note_tree_result(c, down, KeyCode::Char('j'), a1),
        note_tree_result(down, up, KeyCode::Char('k'), a2),
    ensures
        up.tree_state == c.tree_state,
        only_tree_state_changed(c, up),
        a2 == select_action(c.tree_items@[c.tree_state.selected->0 as int]),
{
}

/// In the note tree, `l` on a directory line opens that directory when the
/// line is closed and closes it when the line is open, and changes nothing
/// on the screen itself.
pub proof fn law_l_toggles_the_selected_directory(
    c: NotebookContext,
    n: NotebookContext,
    a: Action,
    value: Directory,
    depth: usize,
    opened: bool,
)
    requires
        tree_ready(c),
        c.tree_items@[c.tree_state.selected->0 as int] == (TreeItem::Directory { value, depth, opened }),
        note_tree_result(c, n, KeyCode::Char('l'), a),
    ensures
        n == c,
        !opened ==> a == Action::Dispatch(Event::Notebook(NotebookEvent::OpenDirectory(value.id))),
        opened ==> a == Action::Dispatch(Event::Notebook(NotebookEvent::CloseDirectory(value.id))),
{
}

} // verus!
