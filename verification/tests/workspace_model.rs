use glues::data::{Directory, Note};
use glues::tree::TreeNode;
use glues::workspace::{OpenNoteStep, ToggleStep, WorkspaceError, WorkspaceModel};

/// A small note store kept in memory: directories, notes and contents.
struct Store {
    directories: Vec<Directory>,
    notes: Vec<(Note, String)>,
}

impl Store {
    fn new() -> Store {
        Store {
            directories: vec![Directory { id: "root".to_string(), parent_id: "root".to_string(), name: "Notes".to_string() }],
            notes: Vec::new(),
        }
    }

    fn add_directory(&mut self, parent: &str, id: &str, name: &str) {
        self.directories.push(Directory { id: id.to_string(), parent_id: parent.to_string(), name: name.to_string() });
    }

    fn add_note(&mut self, directory: &str, id: &str, name: &str, content: &str) {
        self.notes.push((
            Note { id: id.to_string(), directory_id: directory.to_string(), name: name.to_string() },
            content.to_string(),
        ));
    }

    fn root(&self) -> Directory {
        self.directories[0].clone()
    }

    fn notes_in(&self, directory: &str) -> Vec<Note> {
        self.notes.iter().filter(|(n, _)| n.directory_id == directory).map(|(n, _)| n.clone()).collect()
    }

    fn directories_in(&self, directory: &str) -> Vec<Directory> {
        self.directories.iter().skip(1).filter(|d| d.parent_id == directory).cloned().collect()
    }

    fn content(&self, note_id: &str) -> String {
        self.notes.iter().find(|(n, _)| n.id == note_id).map(|(_, c)| c.clone()).expect("note content")
    }

    fn open(&self) -> WorkspaceModel {
        WorkspaceModel::from_listing(self.root(), self.notes_in("root"), self.directories_in("root"))
    }

    fn toggle(&self, workspace: &mut WorkspaceModel, directory_id: &str) -> Result<(), WorkspaceError> {
        match workspace.toggle_directory(directory_id.to_string())? {
            ToggleStep::Done => Ok(()),
            ToggleStep::FetchListing => workspace.finish_toggle_directory(
                directory_id.to_string(),
                self.notes_in(directory_id),
                self.directories_in(directory_id),
            ),
        }
    }

    fn open_note(&self, workspace: &mut WorkspaceModel, note_id: &str) -> Result<(), WorkspaceError> {
        match workspace.open_note(note_id.to_string())? {
            OpenNoteStep::Done => Ok(()),
            OpenNoteStep::FetchContent(note) => {
                let content = self.content(&note.id);
                workspace.finish_open_note(note, content);
                Ok(())
            }
        }
    }
}

const OVERVIEW: &str = "# GPUI migration overview\n\nCurrent milestone: read-only GUI over real backends.\n\nBackend selection happens inside the GUI.\n\nThe old core state machine is not used by this frontend.";

fn demo_store() -> Store {
    let mut store = Store::new();
    store.add_directory("root", "gui", "Glues GUI");
    store.add_directory("root", "testing", "Testing");
    store.add_note("root", "overview", "GPUI migration overview", OVERVIEW);
    store.add_note(
        "gui",
        "backend",
        "Backend opening",
        "Keep GUI backend opening local to the frontend while using core backend implementations.",
    );
    store.add_note(
        "testing",
        "visual",
        "Visual review",
        "Local macOS screenshots are review artifacts, not committed baselines.",
    );
    store
}

fn demo(store: &Store) -> WorkspaceModel {
    let mut workspace = store.open();
    store.open_note(&mut workspace, "overview").expect("demo workspace should open");
    workspace
}

fn directory_id_by_name(workspace: &WorkspaceModel, name: &str) -> String {
    workspace
        .root()
        .directories
        .iter()
        .find(|node| node.directory.name == name)
        .expect("directory should exist")
        .directory
        .id
        .clone()
}

fn find_note_by_name(node: &TreeNode, name: &str) -> Option<Note> {
    node.notes
        .iter()
        .find(|note| note.name == name)
        .cloned()
        .or_else(|| node.directories.iter().find_map(|child| find_note_by_name(child, name)))
}

fn workspace_with_three_open_tabs(store: &Store) -> WorkspaceModel {
    let mut workspace = demo(store);
    for directory_name in ["Glues GUI", "Testing"] {
        let id = directory_id_by_name(&workspace, directory_name);
        store.toggle(&mut workspace, &id).expect("directory should expand");
    }
    for note_name in ["Backend opening", "Visual review"] {
        let note = find_note_by_name(workspace.root(), note_name).expect("note should exist");
        store.open_note(&mut workspace, &note.id).expect("note should open");
    }
    workspace
}

fn tab_names(workspace: &WorkspaceModel) -> Vec<String> {
    workspace.open_tabs().iter().map(|tab| tab.note.name.clone()).collect()
}

#[test]
fn demo_workspace_snapshot_covers_tree_and_note_content() {
    let store = demo_store();
    let workspace = demo(&store);
    let expected = [
        "selected: note:GPUI migration overview",
        "tree:",
        "  v Notes",
        "    > Glues GUI",
        "    > Testing",
        "  * - GPUI migration overview",
        "tabs:",
        "  * GPUI migration overview",
        "viewer:",
        "  note: GPUI migration overview",
        "  content:",
        "    # GPUI migration overview",
        "    ",
        "    Current milestone: read-only GUI over real backends.",
        "    ",
        "    Backend selection happens inside the GUI.",
        "    ",
        "    The old core state machine is not used by this frontend.",
    ]
    .join("\n");
    assert_eq!(workspace.snapshot_workspace(), expected);
}

#[test]
fn expanding_directory_loads_children_lazily() {
    let store = demo_store();
    let mut workspace = demo(&store);
    let gui_id = directory_id_by_name(&workspace, "Glues GUI");
    assert!(!workspace.snapshot_workspace().contains("- Backend opening"));
    assert_eq!(workspace.toggle_directory(gui_id.clone()), Ok(ToggleStep::FetchListing));
    store.toggle(&mut workspace, &gui_id).expect("directory should expand");
    assert!(workspace.snapshot_workspace().contains("- Backend opening"));
}

#[test]
fn opened_note_directory_path_tracks_parent_directories() {
    let store = demo_store();
    let mut workspace = demo(&store);
    let gui_id = directory_id_by_name(&workspace, "Glues GUI");
    store.toggle(&mut workspace, &gui_id).expect("directory should expand");
    let note = find_note_by_name(workspace.root(), "Backend opening").expect("backend note should exist");
    store.open_note(&mut workspace, &note.id).expect("note should open");
    assert_eq!(workspace.opened_note_directory_path(), vec!["Notes".to_owned(), "Glues GUI".to_owned()]);
}

#[test]
fn opening_existing_note_reuses_tab() {
    let store = demo_store();
    let mut workspace = demo(&store);
    let overview_id = workspace.active_note().expect("overview should be active").note.id.clone();
    assert_eq!(workspace.open_note(overview_id), Ok(OpenNoteStep::Done));
    assert_eq!(workspace.open_tabs().len(), 1);
    assert_eq!(workspace.active_tab_index(), Some(0));
}

#[test]
fn close_active_tab_selects_next_available_tab() {
    let store = demo_store();
    let mut workspace = demo(&store);
    let overview_id = workspace.active_note().expect("overview should be active").note.id.clone();
    let gui_id = directory_id_by_name(&workspace, "Glues GUI");
    store.toggle(&mut workspace, &gui_id).expect("directory should expand");
    let backend = find_note_by_name(workspace.root(), "Backend opening").expect("backend note should exist");
    store.open_note(&mut workspace, &backend.id).expect("backend note should open");
    workspace.close_note_tab(backend.id.clone()).expect("active backend tab should close");
    assert_eq!(workspace.open_tabs().len(), 1);
    assert_eq!(workspace.active_tab_index(), Some(0));
    assert_eq!(workspace.active_note().expect("overview should remain active").note.id, overview_id);
}

#[test]
fn closing_last_tab_leaves_empty_viewer() {
    let store = demo_store();
    let mut workspace = demo(&store);
    let overview_id = workspace.active_note().expect("overview should be active").note.id.clone();
    workspace.close_note_tab(overview_id).expect("last tab should close");
    assert!(workspace.open_tabs().is_empty());
    assert_eq!(workspace.active_tab_index(), None);
    assert!(workspace.active_note().is_none());
}

#[test]
fn moving_tab_before_target_reorders_without_changing_active_note() {
    let store = demo_store();
    let mut workspace = workspace_with_three_open_tabs(&store);
    let active_note_id = workspace.active_note().expect("visual review should be active").note.id.clone();
    let backend_note_id = workspace.open_tabs()[1].note.id.clone();
    workspace.move_note_tab_before(backend_note_id, 0).expect("tab should move before first tab");
    assert_eq!(tab_names(&workspace), vec!["Backend opening", "GPUI migration overview", "Visual review"]);
    assert_eq!(workspace.active_note().expect("active note should remain selected").note.id, active_note_id);
}

#[test]
fn moving_tab_to_end_reorders_without_changing_active_note() {
    let store = demo_store();
    let mut workspace = workspace_with_three_open_tabs(&store);
    let active_note_id = workspace.active_note().expect("visual review should be active").note.id.clone();
    let overview_note_id = workspace.open_tabs()[0].note.id.clone();
    workspace.move_note_tab_to_end(overview_note_id).expect("tab should move to end");
    assert_eq!(tab_names(&workspace), vec!["Backend opening", "Visual review", "GPUI migration overview"]);
    assert_eq!(workspace.active_note().expect("active note should remain selected").note.id, active_note_id);
}

#[test]
fn unknown_ids_are_reported_as_not_found() {
    let store = demo_store();
    let mut workspace = demo(&store);
    assert_eq!(
        workspace.toggle_directory("missing".to_string()),
        Err(WorkspaceError::NotFound("directory not found: missing".to_string()))
    );
    assert_eq!(
        workspace.open_note("missing".to_string()),
        Err(WorkspaceError::NotFound("note not found: missing".to_string()))
    );
    assert_eq!(workspace.select_tab(3), Err(WorkspaceError::NotFound("tab not found: 3".to_string())));
    assert!(workspace.close_note_tab("missing".to_string()).is_err());
    assert!(workspace.move_note_tab_to_end("missing".to_string()).is_err());
}

#[test]
fn collapsing_directory_hides_its_rows_and_selects_it() {
    let store = demo_store();
    let mut workspace = demo(&store);
    let gui_id = directory_id_by_name(&workspace, "Glues GUI");
    store.toggle(&mut workspace, &gui_id).expect("directory should expand");
    let rows = workspace.tree_rows();
    assert_eq!(rows.len(), 5);
    assert_eq!(rows[2].name, "Backend opening");
    assert_eq!(rows[2].depth, 2);
    assert_eq!(workspace.toggle_directory(gui_id.clone()), Ok(ToggleStep::Done));
    let rows = workspace.tree_rows();
    assert_eq!(rows.len(), 4);
    assert!(rows[1].selected);
    assert!(!rows[1].expanded);
}

#[test]
fn selecting_tab_activates_its_note() {
    let store = demo_store();
    let mut workspace = workspace_with_three_open_tabs(&store);
    assert_eq!(workspace.active_tab_index(), Some(2));
    workspace.select_tab(0).expect("tab should exist");
    assert_eq!(workspace.active_note().expect("a tab is active").note.name, "GPUI migration overview");
    assert!(workspace.snapshot_workspace().starts_with("selected: note:GPUI migration overview"));
}

#[test]
fn toggling_loaded_directory_twice_restores_tree() {
    let store = demo_store();
    let mut workspace = demo(&store);
    let gui_id = directory_id_by_name(&workspace, "Glues GUI");
    store.toggle(&mut workspace, &gui_id).expect("directory should expand");
    let before = workspace.tree_rows();
    assert_eq!(workspace.toggle_directory(gui_id.clone()), Ok(ToggleStep::Done));
    assert_eq!(workspace.toggle_directory(gui_id.clone()), Ok(ToggleStep::Done));
    assert_eq!(workspace.tree_rows(), before);
}
