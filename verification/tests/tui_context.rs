use glues::data::{Directory, Note};
use glues::tui::entry::EntryDefaults;
use glues::tui::view::{confirm_text, editor_focused, editor_title, shown_dialog, tree_item_line, Dialog};
use glues::tui::notebook::{flatten, ContextState as NotebookState, DirectoryItem, TreeItem};
use glues::tui::{
    transition_followup, transition_prelude, Action, LoopStep, Context, ContextState, EntryEvent, EntryTransition, Event, Input, KeyCode, KeyEvent,
    NotebookEvent, NotebookTransition, Transition, TuiAction,
};

fn defaults() -> EntryDefaults {
    EntryDefaults { last_csv_path: Some("/tmp/notes.csv".to_string()), last_json_path: None, last_file_path: None }
}

fn key(c: char) -> Input {
    Input::Key(KeyCode::Char(c))
}

fn directory(id: &str, parent: &str, name: &str) -> Directory {
    Directory { id: id.to_string(), parent_id: parent.to_string(), name: name.to_string() }
}

fn note(id: &str, directory: &str, name: &str) -> Note {
    Note { id: id.to_string(), directory_id: directory.to_string(), name: name.to_string() }
}

fn sample_root() -> DirectoryItem {
    DirectoryItem {
        directory: directory("root", "root", "Notes"),
        opened: true,
        directories: vec![DirectoryItem {
            directory: directory("work", "root", "Work"),
            opened: true,
            directories: vec![],
            notes: vec![note("plan", "work", "Plan")],
        }],
        notes: vec![note("readme", "root", "Readme")],
    }
}

fn notebook_context() -> Context {
    let mut context = Context::new();
    context.handle_transition(Transition::Entry(EntryTransition::OpenNotebook), &sample_root());
    context
}

#[test]
fn quit_key_on_entry_menu_quits() {
    let mut context = Context::new();
    assert_eq!(context.consume(&key('q'), &defaults()), Action::Tui(TuiAction::Quit));
}

#[test]
fn instant_entry_opens_memory_storage() {
    let mut context = Context::new();
    let action = context.consume(&Input::Key(KeyCode::Enter), &defaults());
    assert_eq!(action, Action::Dispatch(Event::Entry(EntryEvent::OpenMemory)));
    assert_eq!(context.apply_action(action, &Input::Key(KeyCode::Enter)), Some(Event::Entry(EntryEvent::OpenMemory)));
}

#[test]
fn csv_entry_prompts_with_last_path_and_opens_it() {
    let mut context = Context::new();
    let action = context.consume(&key('2'), &defaults());
    match &action {
        Action::Tui(TuiAction::Prompt { message, action, default }) => {
            assert_eq!(message.len(), 2);
            assert_eq!(message[0].text, "Enter the path:");
            assert!(!message[0].dim);
            assert_eq!(message[1].text, "If path not exists, it will be created.");
            assert!(message[1].dim);
            assert_eq!(**action, Action::Tui(TuiAction::OpenCsv));
            assert_eq!(default, &Some("/tmp/notes.csv".to_string()));
        }
        other => panic!("expected a prompt, got {other:?}"),
    }
    assert_eq!(context.apply_action(action, &key('2')), None);
    assert_eq!(context.prompt.as_ref().map(|p| p.input.clone()), Some("/tmp/notes.csv".to_string()));
    assert_eq!(context.consume(&key('x'), &defaults()), Action::PromptInput);
    let enter = Input::Key(KeyCode::Enter);
    let action = context.consume(&enter, &defaults());
    assert_eq!(action, Action::Tui(TuiAction::OpenCsv));
    assert_eq!(
        context.apply_action(action, &enter),
        Some(Event::Entry(EntryEvent::OpenCsv("/tmp/notes.csv".to_string())))
    );
    assert!(context.prompt.is_none());
}

#[test]
fn escape_closes_prompt_without_action() {
    let mut context = Context::new();
    let action = context.consume(&key('3'), &defaults());
    context.apply_action(action, &key('3'));
    assert!(context.prompt.is_some());
    assert_eq!(context.consume(&Input::Key(KeyCode::Esc), &defaults()), Action::Nothing);
    assert!(context.prompt.is_none());
}

#[test]
fn moving_down_the_menu_selects_git_which_alerts() {
    let mut context = Context::new();
    for _ in 0..4 {
        assert_eq!(context.consume(&key('j'), &defaults()), Action::Nothing);
    }
    assert_eq!(context.entry.list_state.selected, Some(4));
    let action = context.consume(&Input::Key(KeyCode::Enter), &defaults());
    assert_eq!(action, Action::Tui(TuiAction::Alert("Not implemented yet.".to_string())));
    assert_eq!(context.apply_action(action, &Input::Other), None);
    assert_eq!(context.alert, Some("Not implemented yet.".to_string()));
    assert_eq!(context.consume(&key('q'), &defaults()), Action::Nothing);
    assert!(context.alert.is_none());
}

#[test]
fn confirm_answered_yes_gives_its_action() {
    let mut context = Context::new();
    let ask = Action::Tui(TuiAction::Confirm {
        message: "Do you want to quit?".to_string(),
        action: Box::new(Action::Tui(TuiAction::Quit)),
    });
    context.apply_action(ask, &Input::Other);
    assert_eq!(context.consume(&key('x'), &defaults()), Action::Nothing);
    assert!(context.confirm.is_some());
    assert_eq!(context.consume(&key('y'), &defaults()), Action::Tui(TuiAction::Quit));
    assert!(context.confirm.is_none());
}

#[test]
fn confirm_answered_no_does_nothing() {
    let mut context = Context::new();
    let ask = Action::Tui(TuiAction::Confirm {
        message: "Confirm to remove note?".to_string(),
        action: Box::new(Action::Tui(TuiAction::RemoveNote)),
    });
    context.apply_action(ask, &Input::Other);
    assert_eq!(context.consume(&key('n'), &defaults()), Action::Nothing);
    assert!(context.confirm.is_none());
}

#[test]
fn help_closes_on_any_key() {
    let mut context = Context::new();
    context.help = true;
    assert_eq!(context.consume(&key('q'), &defaults()), Action::Nothing);
    assert!(!context.help);
    assert_eq!(context.state, ContextState::Entry);
}

#[test]
fn flatten_lists_opened_directories_depth_first() {
    let items = flatten(&sample_root(), 0);
    assert_eq!(items.len(), 4);
    assert_eq!(items[0], TreeItem::Directory { value: directory("root", "root", "Notes"), depth: 0, opened: true });
    assert_eq!(items[1], TreeItem::Directory { value: directory("work", "root", "Work"), depth: 1, opened: true });
    assert_eq!(items[2], TreeItem::Note { value: note("plan", "work", "Plan"), depth: 2 });
    assert_eq!(items[3], TreeItem::Note { value: note("readme", "root", "Readme"), depth: 1 });
}

#[test]
fn opening_notebook_shows_the_tree() {
    let context = notebook_context();
    assert_eq!(context.state, ContextState::Notebook);
    assert_eq!(context.notebook.tree_items.len(), 4);
    assert_eq!(context.notebook.tree_state.selected, Some(0));
}

#[test]
fn moving_in_tree_selects_items() {
    let mut context = notebook_context();
    let action = context.consume(&key('j'), &defaults());
    assert_eq!(
        action,
        Action::Dispatch(Event::Notebook(NotebookEvent::SelectDirectory(directory("work", "root", "Work"))))
    );
    let action = context.consume(&Input::Key(KeyCode::Down), &defaults());
    assert_eq!(action, Action::Dispatch(Event::Notebook(NotebookEvent::SelectNote(note("plan", "work", "Plan")))));
    context.consume(&key('j'), &defaults());
    assert_eq!(context.consume(&key('j'), &defaults()), Action::Nothing);
    assert_eq!(context.notebook.tree_state.selected, Some(usize::MAX));
    context.notebook.clamp_tree_selection();
    assert_eq!(context.notebook.tree_state.selected, Some(3));
    let action = context.consume(&key('k'), &defaults());
    assert_eq!(action, Action::Dispatch(Event::Notebook(NotebookEvent::SelectNote(note("plan", "work", "Plan")))));
}

#[test]
fn l_key_opens_or_closes_directories() {
    let mut context = notebook_context();
    assert_eq!(
        context.consume(&key('l'), &defaults()),
        Action::Dispatch(Event::Notebook(NotebookEvent::CloseDirectory("root".to_string())))
    );
    context.consume(&key('j'), &defaults());
    context.consume(&key('j'), &defaults());
    assert_eq!(context.consume(&key('l'), &defaults()), Action::Nothing);
}

#[test]
fn note_dialog_rename_with_empty_name_alerts() {
    let mut context = notebook_context();
    context.consume(&key('j'), &defaults());
    context.consume(&key('j'), &defaults());
    assert_eq!(context.consume(&key('m'), &defaults()), Action::PassThrough);
    assert_eq!(context.notebook.state, NotebookState::NoteActionsDialog);
    let enter = Input::Key(KeyCode::Enter);
    let action = context.consume(&enter, &defaults());
    match &action {
        Action::Tui(TuiAction::Prompt { message, action, default }) => {
            assert_eq!(message[0].text, "Enter new note name:");
            assert_eq!(**action, Action::Tui(TuiAction::RenameNote));
            assert_eq!(default, &None);
        }
        other => panic!("expected a prompt, got {other:?}"),
    }
    context.apply_action(action, &enter);
    let action = context.consume(&enter, &defaults());
    assert_eq!(context.apply_action(action, &enter), None);
    assert_eq!(context.alert, Some("Note name cannot be empty".to_string()));
}

#[test]
fn directory_dialog_adds_note_with_given_name() {
    let mut context = notebook_context();
    context.consume(&key('m'), &defaults());
    assert_eq!(context.notebook.state, NotebookState::DirectoryActionsDialog);
    let enter = Input::Key(KeyCode::Enter);
    let action = context.consume(&enter, &defaults());
    context.apply_action(action, &enter);
    context.prompt.as_mut().expect("prompt is open").input = "Ideas".to_string();
    let action = context.consume(&enter, &defaults());
    assert_eq!(action, Action::Tui(TuiAction::AddNote));
    assert_eq!(
        context.apply_action(action, &enter),
        Some(Event::Notebook(NotebookEvent::AddNote("Ideas".to_string())))
    );
}

#[test]
fn directory_dialog_removal_asks_to_confirm() {
    let mut context = notebook_context();
    context.consume(&key('m'), &defaults());
    for _ in 0..3 {
        context.consume(&key('j'), &defaults());
    }
    let action = context.consume(&Input::Key(KeyCode::Enter), &defaults());
    assert_eq!(
        action,
        Action::Tui(TuiAction::Confirm {
            message: "Confirm to remove directory?".to_string(),
            action: Box::new(Action::Tui(TuiAction::RemoveDirectory)),
        })
    );
    context.apply_action(action, &Input::Other);
    let action = context.consume(&key('y'), &defaults());
    assert_eq!(
        context.apply_action(action, &key('y')),
        Some(Event::Notebook(NotebookEvent::RemoveDirectory))
    );
}

#[test]
fn pass_through_keys_become_key_events() {
    let mut context = notebook_context();
    let action = context.consume(&key('o'), &defaults());
    assert_eq!(action, Action::PassThrough);
    assert_eq!(context.apply_action(action, &key('o')), Some(Event::Key(KeyEvent::O)));
}

#[test]
fn escape_in_tree_asks_to_quit() {
    let mut context = notebook_context();
    let action = context.consume(&Input::Key(KeyCode::Esc), &defaults());
    assert_eq!(
        action,
        Action::Tui(TuiAction::Confirm {
            message: "Do you want to quit?".to_string(),
            action: Box::new(Action::Tui(TuiAction::Quit)),
        })
    );
}

#[test]
fn opened_note_goes_to_view_mode_and_back() {
    let mut context = notebook_context();
    context.handle_transition(
        Transition::Notebook(NotebookTransition::OpenNote { note: note("plan", "work", "Plan"), content: String::new() }),
        &sample_root(),
    );
    assert_eq!(context.notebook.state, NotebookState::EditorViewMode);
    assert_eq!(context.notebook.opened_note, Some(note("plan", "work", "Plan")));
    let action = context.consume(&key('b'), &defaults());
    assert_eq!(action, Action::Dispatch(Event::Notebook(NotebookEvent::BrowseNoteTree)));
    assert_eq!(context.notebook.state, NotebookState::NoteTreeBrowsing);
    assert!(context.notebook.opened_note.is_none());
}

#[test]
fn added_note_opens_parent_and_is_selected() {
    let mut context = notebook_context();
    let added = note("idea", "work", "Idea");
    let transition = Transition::Notebook(NotebookTransition::AddNote(added.clone()));
    assert_eq!(
        transition_prelude(&transition),
        Some(Event::Notebook(NotebookEvent::OpenDirectory("work".to_string())))
    );
    let mut root = sample_root();
    root.directories[0].notes.push(added);
    context.handle_transition(transition, &root);
    assert_eq!(context.notebook.tree_items.len(), 5);
    assert_eq!(context.notebook.tree_state.selected, Some(3));
    assert_eq!(context.notebook.state, NotebookState::NoteTreeBrowsing);
}

#[test]
fn error_transition_shows_alert() {
    let mut context = notebook_context();
    context.handle_transition(Transition::Error("boom".to_string()), &sample_root());
    assert_eq!(context.alert, Some("boom".to_string()));
}

#[test]
fn views_show_tree_lines_titles_and_dialogs() {
    let items = flatten(&sample_root(), 0);
    let lines: Vec<String> = items.iter().map(tree_item_line).collect();
    assert_eq!(lines, vec!["▼ Notes", "  ▼ Work", "      Plan", "    Readme"]);
    let closed = TreeItem::Directory { value: directory("x", "root", "Archive"), depth: 1, opened: false };
    assert_eq!(tree_item_line(&closed), "  ▶ Archive");
    assert_eq!(editor_title(&None), "[Editor]");
    assert_eq!(editor_title(&Some(note("plan", "work", "Plan"))), "[Editor: Plan]");
    assert!(editor_focused(NotebookState::EditorEditMode));
    assert!(!editor_focused(NotebookState::NoteTreeBrowsing));
    assert_eq!(confirm_text("Remove?"), "Remove?\n\n[Y] Confirm\n[N] Cancel");

    let mut context = notebook_context();
    assert_eq!(shown_dialog(&context), Dialog::Nothing);
    context.consume(&key('m'), &defaults());
    assert_eq!(shown_dialog(&context), Dialog::DirectoryActions);
    context.confirm = Some(("Sure?".to_string(), Action::Nothing));
    assert_eq!(shown_dialog(&context), Dialog::Confirm);
    context.alert = Some("oops".to_string());
    assert_eq!(shown_dialog(&context), Dialog::Alert);
}

#[test]
fn leaving_edit_mode_saves_the_editor_text() {
    let view = Transition::Notebook(NotebookTransition::ViewMode(note("plan", "work", "Plan")));
    assert_eq!(
        transition_followup(&view, "new text".to_string()),
        Some(Event::Notebook(NotebookEvent::UpdateNoteContent("new text".to_string())))
    );
    assert_eq!(transition_followup(&Transition::Notebook(NotebookTransition::EditMode), String::new()), None);
}

#[test]
fn loop_quits_on_ctrl_c_or_quit_action() {
    let mut context = Context::new();
    assert_eq!(context.on_key_press(&key('c'), true, &defaults()), LoopStep::Quit);
    assert_eq!(context.on_key_press(&key('q'), false, &defaults()), LoopStep::Quit);
    assert_eq!(context.on_key_press(&key('j'), false, &defaults()), LoopStep::Carry(Action::Nothing));
    assert_eq!(context.entry.list_state.selected, Some(1));
}

#[test]
fn moving_up_from_past_the_end_selects_the_last_line() {
    let mut context = notebook_context();
    context.notebook.tree_state.selected = Some(4);
    let action = context.consume(&key('k'), &defaults());
    assert_eq!(action, Action::Dispatch(Event::Notebook(NotebookEvent::SelectNote(note("readme", "root", "Readme")))));
    assert_eq!(context.notebook.tree_state.selected, Some(3));
}
