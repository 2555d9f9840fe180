//! The terminal front end's input handling: what each key does on the entry
//! menu, in the note tree, in the editor and in the dialogs, and how the
//! answers of the note store update the screen.
use vstd::prelude::*;
use crate::data::{copy_string, Directory, Note};
use crate::tui::entry::{entry_result, EntryContext, EntryDefaults};
use crate::tui::notebook::{
    consume_allowed, consume_result, first_item_with_id, flatten_spec, item_height, DirectoryItem, NotebookContext, TreeItem,
};

pub mod entry;
pub mod notebook;
pub mod view;

verus! {

/// A key, as the front end reads it.
#[derive(Clone, Copy, Debug, PartialEq, Eq, Structural)]
pub enum KeyCode {
    Char(char),
    Enter,
    Esc,
    Up,
    Down,
    Left,
    Right,
    Backspace,
    Tab,
    Other,
}

/// A terminal input: a key press, or anything else.
#[derive(Clone, Copy, Debug, PartialEq, Eq, Structural)]
pub enum Input {
    Key(KeyCode),
    Other,
}

/// A key event the note store's state machine understands.
#[derive(Clone, Copy, Debug, PartialEq, Eq, Structural)]
pub enum KeyEvent {
    B,
    E,
    H,
    J,
    K,
    L,
    M,
    O,
    Left,
    Right,
    Esc,
}

/// An event for the entry menu.
#[derive(Clone, Debug, PartialEq, Eq)]
pub enum EntryEvent {
    OpenMemory,
    OpenCsv(String),
    OpenJson(String),
    OpenFile(String),
}

/// An event for the notebook.
#[derive(Clone, Debug, PartialEq, Eq)]
pub enum NotebookEvent {
    SelectNote(Note),
    SelectDirectory(Directory),
    OpenDirectory(String),
    CloseDirectory(String),
    CloseNoteActionsDialog,
    CloseDirectoryActionsDialog,
    BrowseNoteTree,
    ViewNote,
    EditNote,
    RenameNote(String),
    RemoveNote,
    AddNote(String),
    AddDirectory(String),
    RenameDirectory(String),
    RemoveDirectory,
    UpdateNoteContent(String),
}

/// An event sent to the note store's state machine.
#[derive(Clone, Debug, PartialEq, Eq)]
pub enum Event {
    Entry(EntryEvent),
    Notebook(NotebookEvent),
    Key(KeyEvent),
}

/// One line of a prompt's message; `dim` lines are shown faint.
#[derive(Clone, Debug, PartialEq, Eq)]
pub struct PromptLine {
    pub text: String,
    pub dim: bool,
}

/// The editor's modes.
#[derive(Clone, Copy, Debug, PartialEq, Eq, Structural)]
pub enum EditorMode {
    Normal,
    Insert,
    Visual,
    Search,
}

/// What the editor does after it handled a key.
#[derive(Debug, PartialEq, Eq)]
pub enum EditorFollow {
    /// Carry out this action.
    Then(Box<Action>),
    /// Compare the editor's mode with the one it had before the key, and
    /// pass both to `NotebookContext::after_editor_input`.
    CompareModes { before: EditorMode },
}

/// What the front end does with an input.
#[derive(Debug, PartialEq, Eq)]
pub enum Action {
    Tui(TuiAction),
    Dispatch(Event),
    PassThrough,
    Nothing,
    /// The open prompt's text field takes the input.
    PromptInput,
    /// The editor takes the key, then `follow` says what comes next.
    EditorInput { follow: EditorFollow },
}

/// An action of the terminal front end itself.
#[derive(Debug, PartialEq, Eq)]
pub enum TuiAction {
    Confirm { message: String, action: Box<Action> },
    Prompt { message: Vec<PromptLine>, action: Box<Action>, default: Option<String> },
    Alert(String),
    Quit,
    OpenCsv,
    OpenJson,
    OpenFile,
    RenameNote,
    RemoveNote,
    AddNote,
    AddDirectory,
    RenameDirectory,
    RemoveDirectory,
}

/// The selection of a list widget. Moving past either end is allowed; the
/// drawn list brings the selection back into range, as `clamp` does.
#[derive(Clone, Copy, Debug, PartialEq, Eq, Structural)]
pub struct ListSelection {
    pub selected: Option<usize>,
}

/// Whether a list's selection is on one of its `n` entries.
pub open spec fn dialog_ready_at(s: ListSelection, n: usize) -> bool {
    s.selected matches Some(i) && i < n
}

/// The selection after moving down.
pub open spec fn next_index(selected: Option<usize>) -> usize {
    match selected {
        None => 0,
        Some(i) => if i == usize::MAX { i } else { (i + 1) as usize },
    }
}

/// The selection after moving up.
pub open spec fn previous_index(selected: Option<usize>) -> usize {
    match selected {
        None => usize::MAX,
        Some(i) => if i == 0 { 0 } else { (i - 1) as usize },
    }
}

impl ListSelection {
    /// A selection of the first item.
    pub fn first() -> (s: ListSelection)
        ensures
            s.selected == Some(0usize),
    {
        ListSelection { selected: Some(0) }
    }

    /// A selection of nothing.
    pub fn empty() -> (s: ListSelection)
        ensures
            s.selected is None,
    {
        ListSelection { selected: None }
    }

    /// The selected position.
    pub fn selected(&self) -> (r: Option<usize>)
        ensures
            r == self.selected,
    {
        self.selected
    }

    /// Selects a position, or nothing.
    pub fn select(&mut self, index: Option<usize>)
        ensures
            final(self).selected == index,
    {
        self.selected = index;
    }

    /// Selects the next item, or the first when nothing is selected.
    pub fn select_next(&mut self)
        ensures
            final(self).selected == Some(next_index(old(self).selected)),
    {
        let next = match self.selected {
            None => 0,
            Some(i) => i.saturating_add(1),
        };
        self.selected = Some(next);
    }

    /// Selects the previous item, or the last when nothing is selected.
    pub fn select_previous(&mut self)
        ensures
            final(self).selected == Some(previous_index(old(self).selected)),
    {
        let previous = match self.selected {
            None => usize::MAX,
            Some(i) => i.saturating_sub(1),
        };
        self.selected = Some(previous);
    }

    /// Selects the first item.
    pub fn select_first(&mut self)
        ensures
            final(self).selected == Some(0usize),
    {
        self.selected = Some(0);
    }

    /// Selects the last item, whatever the list's length.
    pub fn select_last(&mut self)
        ensures
            final(self).selected == Some(usize::MAX),
    {
        self.selected = Some(usize::MAX);
    }

    /// Brings the selection into a list of `len` items, as drawing the list
    /// does: nothing for an empty list, the last item past the end.
    pub fn clamp(&mut self, len: usize)
        ensures
            len == 0 ==> final(self).selected is None,
            len > 0 ==> final(self).selected == match old(self).selected {
                Some(s) => if s >= len { Some((len - 1) as usize) } else { Some(s) },
                None => None,
            },
    {
        if len == 0 {
            self.selected = None;
        } else {
            match self.selected {
                Some(s) => if s >= len {
                    self.selected = Some(len - 1);
                },
                None => {},
            }
        }
    }
}

/// The prompt lines as text and dimness.
pub open spec fn lines_view(lines: Seq<PromptLine>) -> Seq<(Seq<char>, bool)> {
    lines.map_values(|l: PromptLine| (l.text@, l.dim))
}

/// Whether two actions are the same once strings and lists are compared
/// by their contents.
pub open spec fn same_action(a: Action, b: Action) -> bool
    decreases a,
{
    match (a, b) {
        (Action::Tui(x), Action::Tui(y)) => match (x, y) {
            (TuiAction::Confirm { message: m1, action: a1 }, TuiAction::Confirm { message: m2, action: a2 }) =>
                m1@ == m2@ && same_action(*a1, *a2),
            (
                TuiAction::Prompt { message: m1, action: a1, default: d1 },
                TuiAction::Prompt { message: m2, action: a2, default: d2 },
            ) => lines_view(m1@) == lines_view(m2@) && same_action(*a1, *a2) && match (d1, d2) {
                (Some(s1), Some(s2)) => s1@ == s2@,
                (None, None) => true,
                _ => false,
            },
            (TuiAction::Alert(m1), TuiAction::Alert(m2)) => m1@ == m2@,
            (TuiAction::Quit, TuiAction::Quit) => true,
            (TuiAction::OpenCsv, TuiAction::OpenCsv) => true,
            (TuiAction::OpenJson, TuiAction::OpenJson) => true,
            (TuiAction::OpenFile, TuiAction::OpenFile) => true,
            (TuiAction::RenameNote, TuiAction::RenameNote) => true,
            (TuiAction::RemoveNote, TuiAction::RemoveNote) => true,
            (TuiAction::AddNote, TuiAction::AddNote) => true,
            (TuiAction::AddDirectory, TuiAction::AddDirectory) => true,
            (TuiAction::RenameDirectory, TuiAction::RenameDirectory) => true,
            (TuiAction::RemoveDirectory, TuiAction::RemoveDirectory) => true,
            _ => false,
        },
        (Action::Dispatch(e1), Action::Dispatch(e2)) => e1 == e2,
        (Action::PassThrough, Action::PassThrough) => true,
        (Action::Nothing, Action::Nothing) => true,
        (Action::PromptInput, Action::PromptInput) => true,
        (Action::EditorInput { follow: f1 }, Action::EditorInput { follow: f2 }) => match (f1, f2) {
            (EditorFollow::Then(a1), EditorFollow::Then(a2)) => same_action(*a1, *a2),
            (EditorFollow::CompareModes { before: b1 }, EditorFollow::CompareModes { before: b2 }) => b1 == b2,
            _ => false,
        },
        _ => false,
    }
}

/// Whether `a` asks to confirm `message` before carrying out `inner`.
pub open spec fn is_confirm(a: Action, message: Seq<char>, inner: Action) -> bool {
    a matches Action::Tui(TuiAction::Confirm { message: m, action }) && m@ == message && *action == inner
}

/// Whether `a` asks to confirm quitting.
pub open spec fn is_quit_confirm(a: Action) -> bool {
    is_confirm(a, "Do you want to quit?"@, Action::Tui(TuiAction::Quit))
}

/// Whether `a` prompts with `lines` (text, dim) for `inner`, with `default`
/// as the text field's initial value.
pub open spec fn is_prompt(a: Action, lines: Seq<(Seq<char>, bool)>, inner: Action, default: Option<Seq<char>>) -> bool {
    a matches Action::Tui(TuiAction::Prompt { message, action, default: d }) && lines_view(message@) == lines
        && *action == inner && match (d, default) {
        (Some(x), Some(y)) => x@ == y,
        (None, None) => true,
        _ => false,
    }
}

/// The action that asks to confirm quitting.
pub fn quit_confirm() -> (a: Action)
    ensures
        is_quit_confirm(a),
{
    Action::Tui(TuiAction::Confirm {
        message: String::from_str("Do you want to quit?"),
        action: Box::new(Action::Tui(TuiAction::Quit)),
    })
}

/// A prompt with one plain line.
pub fn simple_prompt(message: &str, inner: Action) -> (a: Action)
    ensures
        is_prompt(a, seq![(message@, false)], inner, None),
{
    let mut lines: Vec<PromptLine> = Vec::new();
    lines.push(PromptLine { text: String::from_str(message), dim: false });
    assert(lines_view(lines@) =~= seq![(message@, false)]);
    Action::Tui(TuiAction::Prompt { message: lines, action: Box::new(inner), default: None })
}

/// A confirmation of `message` before `inner`.
pub fn confirm(message: &str, inner: Action) -> (a: Action)
    ensures
        is_confirm(a, message@, inner),
{
    Action::Tui(TuiAction::Confirm { message: String::from_str(message), action: Box::new(inner) })
}

/// A copy of a list of prompt lines.
pub fn copy_lines(lines: &Vec<PromptLine>) -> (r: Vec<PromptLine>)
    ensures
        lines_view(r@) == lines_view(lines@),
{
    let mut out: Vec<PromptLine> = Vec::new();
    for i in 0..lines.len()
        invariant
            lines_view(out@) == lines_view(lines@.take(i as int)),
    {
        let ghost before = out@;
        out.push(PromptLine { text: copy_string(&lines[i].text), dim: lines[i].dim });
        assert(lines_view(out@) =~= lines_view(before).push((lines@[i as int].text@, lines@[i as int].dim)));
        assert(lines@.take(i + 1) =~= lines@.take(i as int).push(lines@[i as int]));
        assert(lines_view(lines@.take(i + 1)) =~= lines_view(lines@.take(i as int)).push((lines@[i as int].text@, lines@[i as int].dim)));
    }
    assert(lines@.take(lines@.len() as int) =~= lines@);
    out
}

/// A copy of an event.
pub fn copy_event(e: &Event) -> (r: Event)
    ensures
        r == *e,
{
    match e {
        Event::Entry(EntryEvent::OpenMemory) => Event::Entry(EntryEvent::OpenMemory),
        Event::Entry(EntryEvent::OpenCsv(p)) => Event::Entry(EntryEvent::OpenCsv(p.clone())),
        Event::Entry(EntryEvent::OpenJson(p)) => Event::Entry(EntryEvent::OpenJson(p.clone())),
        Event::Entry(EntryEvent::OpenFile(p)) => Event::Entry(EntryEvent::OpenFile(p.clone())),
        Event::Key(k) => Event::Key(*k),
        Event::Notebook(n) => Event::Notebook(match n {
            NotebookEvent::SelectNote(x) => NotebookEvent::SelectNote(x.copy()),
            NotebookEvent::SelectDirectory(x) => NotebookEvent::SelectDirectory(x.copy()),
            NotebookEvent::OpenDirectory(x) => NotebookEvent::OpenDirectory(x.clone()),
            NotebookEvent::CloseDirectory(x) => NotebookEvent::CloseDirectory(x.clone()),
            NotebookEvent::CloseNoteActionsDialog => NotebookEvent::CloseNoteActionsDialog,
            NotebookEvent::CloseDirectoryActionsDialog => NotebookEvent::CloseDirectoryActionsDialog,
            NotebookEvent::BrowseNoteTree => NotebookEvent::BrowseNoteTree,
            NotebookEvent::ViewNote => NotebookEvent::ViewNote,
            NotebookEvent::EditNote => NotebookEvent::EditNote,
            NotebookEvent::RenameNote(x) => NotebookEvent::RenameNote(x.clone()),
            NotebookEvent::RemoveNote => NotebookEvent::RemoveNote,
            NotebookEvent::AddNote(x) => NotebookEvent::AddNote(x.clone()),
            NotebookEvent::AddDirectory(x) => NotebookEvent::AddDirectory(x.clone()),
            NotebookEvent::RenameDirectory(x) => NotebookEvent::RenameDirectory(x.clone()),
            NotebookEvent::RemoveDirectory => NotebookEvent::RemoveDirectory,
            NotebookEvent::UpdateNoteContent(x) => NotebookEvent::UpdateNoteContent(x.clone()),
        }),
    }
}

/// A copy of an action.
pub fn copy_action(a: &Action) -> (r: Action)
    ensures
        same_action(r, *a),
    decreases a,
{
    match a {
        Action::Tui(t) => Action::Tui(match t {
            TuiAction::Confirm { message, action } => TuiAction::Confirm {
                message: copy_string(message),
                action: Box::new(copy_action(action)),
            },
            TuiAction::Prompt { message, action, default } => TuiAction::Prompt {
                message: copy_lines(message),
                action: Box::new(copy_action(action)),
                default: match default {
                    Some(d) => Some(copy_string(d)),
                    None => None,
                },
            },
            TuiAction::Alert(m) => TuiAction::Alert(copy_string(m)),
            TuiAction::Quit => TuiAction::Quit,
            TuiAction::OpenCsv => TuiAction::OpenCsv,
            TuiAction::OpenJson => TuiAction::OpenJson,
            TuiAction::OpenFile => TuiAction::OpenFile,
            TuiAction::RenameNote => TuiAction::RenameNote,
            TuiAction::RemoveNote => TuiAction::RemoveNote,
            TuiAction::AddNote => TuiAction::AddNote,
            TuiAction::AddDirectory => TuiAction::AddDirectory,
            TuiAction::RenameDirectory => TuiAction::RenameDirectory,
            TuiAction::RemoveDirectory => TuiAction::RemoveDirectory,
        }),
        Action::Dispatch(e) => Action::Dispatch(copy_event(e)),
        Action::PassThrough => Action::PassThrough,
        Action::Nothing => Action::Nothing,
        Action::PromptInput => Action::PromptInput,
        Action::EditorInput { follow } => Action::EditorInput {
            follow: match follow {
                EditorFollow::Then(inner) => EditorFollow::Then(Box::new(copy_action(inner))),
                EditorFollow::CompareModes { before } => EditorFollow::CompareModes { before: *before },
            },
        },
    }
}

/// Which screen is shown.
#[derive(Clone, Copy, Debug, PartialEq, Eq, Structural)]
pub enum ContextState {
    Entry,
    Notebook,
}

/// An open prompt: its message, the action it leads to, and the text
/// entered so far (the first line of its text field).
#[derive(Debug)]
pub struct ContextPrompt {
    pub message: Vec<PromptLine>,
    pub action: Action,
    pub input: String,
}

impl ContextPrompt {
    /// A prompt whose text field starts with `default`, or empty.
    pub fn new(message: Vec<PromptLine>, action: Action, default: Option<String>) -> (p: ContextPrompt)
        ensures
            p.message == message,
            p.action == action,
            p.input@ == match default { Some(d) => d@, None => Seq::<char>::empty() },
    {
        let input = match default {
            Some(d) => d,
            None => String::new(),
        };
        ContextPrompt { message, action, input }
    }
}

/// The terminal front end's screen state.
#[derive(Debug)]
pub struct Context {
    pub entry: EntryContext,
    pub notebook: NotebookContext,
    pub state: ContextState,
    pub confirm: Option<(String, Action)>,
    pub alert: Option<String>,
    pub prompt: Option<ContextPrompt>,
    pub help: bool,
}

/// Whether the screen can take `input` without failing.
pub open spec fn context_allowed(c: Context, input: Input) -> bool {
    !c.help && c.alert is None && c.confirm is None && c.prompt is None ==> match input {
        Input::Key(code) => match c.state {
            ContextState::Entry => code == KeyCode::Enter ==> dialog_ready_at(c.entry.list_state, 6),
            ContextState::Notebook => consume_allowed(c.notebook, code),
        },
        Input::Other => true,
    }
}

/// Whether `n` is `c` with only the dialogs' fields possibly changed.
pub open spec fn screens_unchanged(c: Context, n: Context) -> bool {
    &&& n.entry == c.entry
    &&& n.notebook == c.notebook
    &&& n.state == c.state
}

/// What an input does: a help screen or an alert closes on any input; a
/// confirmation takes `y` or `n`; a prompt takes Enter, Esc or text; any
/// other key goes to the screen shown.
pub open spec fn context_result(c: Context, n: Context, input: Input, defaults: EntryDefaults, a: Action) -> bool {
    if c.help {
        n == Context { help: false, ..c } && a == Action::Nothing
    } else if c.alert is Some {
        n == Context { alert: None, ..c } && a == Action::Nothing
    } else if c.confirm is Some {
        match input {
            Input::Key(KeyCode::Char('y')) => n == Context { confirm: None, ..c } && match c.confirm {
                Some((_, act)) => a == act,
                None => false,
            },
            Input::Key(KeyCode::Char('n')) => n == Context { confirm: None, ..c } && a == Action::Nothing,
            _ => n == c && a == Action::Nothing,
        }
    } else if c.prompt is Some {
        match input {
            Input::Key(KeyCode::Enter) => n == c && same_action(a, c.prompt->0.action),
            Input::Key(KeyCode::Esc) => n == Context { prompt: None, ..c } && a == Action::Nothing,
            _ => n == c && a == Action::PromptInput,
        }
    } else {
        match input {
            Input::Key(code) => n.help == c.help && n.alert == c.alert && n.confirm == c.confirm && n.prompt == c.prompt
                && match c.state {
                ContextState::Entry => n.notebook == c.notebook && n.state == c.state
                    && entry_result(c.entry, n.entry, code, defaults, a),
                ContextState::Notebook => n.entry == c.entry && n.state == c.state
                    && consume_result(c.notebook, n.notebook, code, a),
            },
            Input::Other => n == c && a == Action::Nothing,
        }
    }
}

impl Context {
    /// The entry menu, with nothing open.
    pub fn new() -> (c: Context)
        ensures
            c.state == ContextState::Entry,
            c.confirm is None,
            c.alert is None,
            c.prompt is None,
            !c.help,
            c.entry.list_state.selected == Some(0usize),
    {
        Context {
            entry: EntryContext::new(),
            notebook: NotebookContext::new(),
            state: ContextState::Entry,
            confirm: None,
            alert: None,
            prompt: None,
            help: false,
        }
    }

    /// Closes the prompt and gives the text entered, if a prompt was open.
    pub fn take_prompt_input(&mut self) -> (r: Option<String>)
        ensures
            final(self).prompt is None,
            final(self).entry == old(self).entry,
            final(self).notebook == old(self).notebook,
            final(self).state == old(self).state,
            final(self).confirm == old(self).confirm,
            final(self).alert == old(self).alert,
            final(self).help == old(self).help,
            match old(self).prompt {
                Some(p) => r == Some(p.input),
                None => r is None,
            },
    {
        match self.prompt.take() {
            Some(p) => Some(p.input),
            None => None,
        }
    }

    /// What an input does on the screen.
    pub fn consume(&mut self, input: &Input, defaults: &EntryDefaults) -> (a: Action)
        requires
            context_allowed(*old(self), *input),
        ensures
            context_result(*old(self), *final(self), *input, *defaults, a),
    {
        if self.help {
            self.help = false;
            return Action::Nothing;
        } else if self.alert.is_some() {
            self.alert = None;
            return Action::Nothing;
        } else if self.confirm.is_some() {
            let code = match input {
                Input::Key(code) => *code,
                Input::Other => return Action::Nothing,
            };
            if code == KeyCode::Char('y') {
                let (_, action) = self.confirm.take().unwrap();
                return action;
            } else if code == KeyCode::Char('n') {
                self.confirm = None;
                return Action::Nothing;
            } else {
                return Action::Nothing;
            }
        } else if self.prompt.is_some() {
            match input {
                Input::Key(KeyCode::Enter) => {
                    let prompt = self.prompt.as_ref().unwrap();
                    return copy_action(&prompt.action);
                },
                Input::Key(KeyCode::Esc) => {
                    self.prompt = None;
                    return Action::Nothing;
                },
                _ => {
                    return Action::PromptInput;
                },
            }
        }
        let code = match input {
            Input::Key(code) => *code,
            Input::Other => return Action::Nothing,
        };
        match self.state {
            ContextState::Entry => self.entry.consume(code, defaults),
            ContextState::Notebook => self.notebook.consume(code),
        }
    }
}

/// What the front end's loop does next.
#[derive(Debug, PartialEq, Eq)]
pub enum LoopStep {
    /// Leave the loop.
    Quit,
    /// Carry out the action with `apply_action`.
    Carry(Action),
}

impl Context {
    /// The loop's decision on a key press: Ctrl+C quits at once; any other
    /// press goes to the screen, and quitting ends the loop while any other
    /// action is to be carried out.
    pub fn on_key_press(&mut self, input: &Input, ctrl_c: bool, defaults: &EntryDefaults) -> (s: LoopStep)
        requires
            ctrl_c || context_allowed(*old(self), *input),
        ensures
            ctrl_c ==> s == LoopStep::Quit && *final(self) == *old(self),
            !ctrl_c ==> match s {
                LoopStep::Quit => context_result(*old(self), *final(self), *input, *defaults, Action::Tui(TuiAction::Quit)),
                LoopStep::Carry(a) => context_result(*old(self), *final(self), *input, *defaults, a)
                    && a != Action::Tui(TuiAction::Quit),
            },
    {
        if ctrl_c {
            return LoopStep::Quit;
        }
        match self.consume(input, defaults) {
            Action::Tui(TuiAction::Quit) => LoopStep::Quit,
            action => LoopStep::Carry(action),
        }
    }
}

/// The key event a passed-through key stands for, if any.
pub open spec fn key_event_of(input: Input) -> Option<KeyEvent> {
    match input {
        Input::Key(KeyCode::Char('b')) => Some(KeyEvent::B),
        Input::Key(KeyCode::Char('e')) => Some(KeyEvent::E),
        Input::Key(KeyCode::Char('h')) => Some(KeyEvent::H),
        Input::Key(KeyCode::Char('j')) => Some(KeyEvent::J),
        Input::Key(KeyCode::Char('k')) => Some(KeyEvent::K),
        Input::Key(KeyCode::Char('l')) => Some(KeyEvent::L),
        Input::Key(KeyCode::Char('m')) => Some(KeyEvent::M),
        Input::Key(KeyCode::Char('o')) => Some(KeyEvent::O),
        Input::Key(KeyCode::Left) => Some(KeyEvent::Left),
        Input::Key(KeyCode::Right) => Some(KeyEvent::Right),
        Input::Key(KeyCode::Esc) => Some(KeyEvent::Esc),
        _ => None,
    }
}

/// The key event a passed-through key stands for, if any.
pub fn to_event(input: &Input) -> (r: Option<KeyEvent>)
    ensures
        r == key_event_of(*input),
{
    let code = match input {
        Input::Key(code) => *code,
        Input::Other => return None,
    };
    match code {
        KeyCode::Char('b') => Some(KeyEvent::B),
        KeyCode::Char('e') => Some(KeyEvent::E),
        KeyCode::Char('h') => Some(KeyEvent::H),
        KeyCode::Char('j') => Some(KeyEvent::J),
        KeyCode::Char('k') => Some(KeyEvent::K),
        KeyCode::Char('l') => Some(KeyEvent::L),
        KeyCode::Char('m') => Some(KeyEvent::M),
        KeyCode::Char('o') => Some(KeyEvent::O),
        KeyCode::Left => Some(KeyEvent::Left),
        KeyCode::Right => Some(KeyEvent::Right),
        KeyCode::Esc => Some(KeyEvent::Esc),
        _ => None,
    }
}

/// Whether the action needs the prompt's text, and so an open prompt.
pub open spec fn takes_prompt_input(a: Action) -> bool {
    match a {
        Action::Tui(TuiAction::RenameNote) => true,
        Action::Tui(TuiAction::AddNote) => true,
        Action::Tui(TuiAction::AddDirectory) => true,
        Action::Tui(TuiAction::RenameDirectory) => true,
        Action::Tui(TuiAction::OpenCsv) => true,
        Action::Tui(TuiAction::OpenJson) => true,
        Action::Tui(TuiAction::OpenFile) => true,
        _ => false,
    }
}

/// The alert shown when a name prompt was left empty.
pub open spec fn empty_name_alert(a: Action) -> Seq<char> {
    match a {
        Action::Tui(TuiAction::RenameNote) => "Note name cannot be empty"@,
        Action::Tui(TuiAction::AddNote) => "Note name cannot be empty"@,
        _ => "Directory name cannot be empty"@,
    }
}

/// The event an action sends with the prompt's text `name`.
pub open spec fn named_event(a: Action, name: String) -> Event {
    match a {
        Action::Tui(TuiAction::RenameNote) => Event::Notebook(NotebookEvent::RenameNote(name)),
        Action::Tui(TuiAction::AddNote) => Event::Notebook(NotebookEvent::AddNote(name)),
        Action::Tui(TuiAction::AddDirectory) => Event::Notebook(NotebookEvent::AddDirectory(name)),
        Action::Tui(TuiAction::RenameDirectory) => Event::Notebook(NotebookEvent::RenameDirectory(name)),
        Action::Tui(TuiAction::OpenCsv) => Event::Entry(EntryEvent::OpenCsv(name)),
        Action::Tui(TuiAction::OpenJson) => Event::Entry(EntryEvent::OpenJson(name)),
        _ => Event::Entry(EntryEvent::OpenFile(name)),
    }
}

/// Whether an action of the name kind needs a name that is not empty.
pub open spec fn needs_name(a: Action) -> bool {
    takes_prompt_input(a) && !(a matches Action::Tui(TuiAction::OpenCsv))
        && !(a matches Action::Tui(TuiAction::OpenJson)) && !(a matches Action::Tui(TuiAction::OpenFile))
}

/// What carrying out `a` does to the screen, and the event it sends to the
/// note store, if any.
pub open spec fn action_result(c: Context, n: Context, a: Action, input: Input, r: Option<Event>) -> bool {
    if takes_prompt_input(a) {
        let name = c.prompt->0.input;
        if needs_name(a) && name@.len() == 0 {
            &&& n == Context { prompt: None, alert: n.alert, ..c }
            &&& n.alert matches Some(m) && m@ == empty_name_alert(a)
            &&& r is None
        } else {
            n == Context { prompt: None, ..c } && r == Some(named_event(a, name))
        }
    } else {
        match a {
            Action::Tui(TuiAction::Confirm { message, action }) => n == Context { confirm: Some((message, *action)), ..c }
                && r is None,
            Action::Tui(TuiAction::Prompt { message, action, default }) => {
                &&& n == Context { prompt: n.prompt, ..c }
                &&& n.prompt matches Some(p) && p.message == message && p.action == *action
                    && p.input@ == match default { Some(d) => d@, None => Seq::<char>::empty() }
                &&& r is None
            },
            Action::Tui(TuiAction::Alert(message)) => n == Context { alert: Some(message), ..c } && r is None,
            Action::Tui(TuiAction::RemoveNote) => n == c && r == Some(Event::Notebook(NotebookEvent::RemoveNote)),
            Action::Tui(TuiAction::RemoveDirectory) => n == c && r == Some(Event::Notebook(NotebookEvent::RemoveDirectory)),
            Action::Dispatch(event) => n == c && r == Some(event),
            Action::PassThrough => n == c && r == match key_event_of(input) {
                Some(k) => Some(Event::Key(k)),
                None => None,
            },
            _ => n == c && r is None,
        }
    }
}

impl Context {
    /// Carries out an action on the screen; the result is the event to send
    /// to the note store, if any. Quitting and the widget inputs are the
    /// caller's part.
    pub fn apply_action(&mut self, action: Action, input: &Input) -> (r: Option<Event>)
        requires
            takes_prompt_input(action) ==> old(self).prompt is Some,
        ensures
            action_result(*old(self), *final(self), action, *input, r),
    {
        match action {
            Action::Tui(TuiAction::Confirm { message, action }) => {
                self.confirm = Some((message, *action));
                None
            },
            Action::Tui(TuiAction::Prompt { message, action, default }) => {
                self.prompt = Some(ContextPrompt::new(message, *action, default));
                None
            },
            Action::Tui(TuiAction::Alert(message)) => {
                self.alert = Some(message);
                None
            },
            Action::Tui(TuiAction::RemoveNote) => Some(Event::Notebook(NotebookEvent::RemoveNote)),
            Action::Tui(TuiAction::RemoveDirectory) => Some(Event::Notebook(NotebookEvent::RemoveDirectory)),
            Action::Tui(TuiAction::RenameNote) => self.named(NameKind::RenameNote),
            Action::Tui(TuiAction::AddNote) => self.named(NameKind::AddNote),
            Action::Tui(TuiAction::AddDirectory) => self.named(NameKind::AddDirectory),
            Action::Tui(TuiAction::RenameDirectory) => self.named(NameKind::RenameDirectory),
            Action::Tui(TuiAction::OpenCsv) => self.named(NameKind::OpenCsv),
            Action::Tui(TuiAction::OpenJson) => self.named(NameKind::OpenJson),
            Action::Tui(TuiAction::OpenFile) => self.named(NameKind::OpenFile),
            Action::Dispatch(event) => Some(event),
            Action::PassThrough => match to_event(input) {
                Some(k) => Some(Event::Key(k)),
                None => None,
            },
            _ => None,
        }
    }

    fn named(&mut self, kind: NameKind) -> (r: Option<Event>)
        requires
            old(self).prompt is Some,
        ensures
            action_result(*old(self), *final(self), action_of_kind(kind), Input::Other, r),
    {
        let name = self.take_prompt_input().unwrap();
        let empty = name.as_str().unicode_len() == 0;
        match kind {
            NameKind::RenameNote | NameKind::AddNote => {
                if empty {
                    self.alert = Some(String::from_str("Note name cannot be empty"));
                    return None;
                }
            },
            NameKind::AddDirectory | NameKind::RenameDirectory => {
                if empty {
                    self.alert = Some(String::from_str("Directory name cannot be empty"));
                    return None;
                }
            },
            _ => {},
        }
        Some(match kind {
            NameKind::RenameNote => Event::Notebook(NotebookEvent::RenameNote(name)),
            NameKind::AddNote => Event::Notebook(NotebookEvent::AddNote(name)),
            NameKind::AddDirectory => Event::Notebook(NotebookEvent::AddDirectory(name)),
            NameKind::RenameDirectory => Event::Notebook(NotebookEvent::RenameDirectory(name)),
            NameKind::OpenCsv => Event::Entry(EntryEvent::OpenCsv(name)),
            NameKind::OpenJson => Event::Entry(EntryEvent::OpenJson(name)),
            NameKind::OpenFile => Event::Entry(EntryEvent::OpenFile(name)),
        })
    }
}

/// The actions that take the prompt's text.
#[derive(Clone, Copy, Debug, PartialEq, Eq, Structural)]
pub enum NameKind {
    RenameNote,
    AddNote,
    AddDirectory,
    RenameDirectory,
    OpenCsv,
    OpenJson,
    OpenFile,
}

/// The action of a kind that takes the prompt's text.
pub open spec fn action_of_kind(k: NameKind) -> Action {
    match k {
        NameKind::RenameNote => Action::Tui(TuiAction::RenameNote),
        NameKind::AddNote => Action::Tui(TuiAction::AddNote),
        NameKind::AddDirectory => Action::Tui(TuiAction::AddDirectory),
        NameKind::RenameDirectory => Action::Tui(TuiAction::RenameDirectory),
        NameKind::OpenCsv => Action::Tui(TuiAction::OpenCsv),
        NameKind::OpenJson => Action::Tui(TuiAction::OpenJson),
        NameKind::OpenFile => Action::Tui(TuiAction::OpenFile),
    }
}

/// What the entry menu's state machine answered.
#[derive(Debug, PartialEq, Eq)]
pub enum EntryTransition {
    OpenNotebook,
    Inedible(Event),
    Nothing,
}

/// What the notebook's state machine answered.
#[derive(Debug, PartialEq, Eq)]
pub enum NotebookTransition {
    OpenDirectory { id: String },
    CloseDirectory(String),
    OpenNote { note: Note, content: String },
    ViewMode(Note),
    EditMode,
    RemoveNote { selected_directory: Directory },
    RemoveDirectory { selected_directory: Directory },
    RenameNote(Note),
    RenameDirectory(Directory),
    AddNote(Note),
    AddDirectory(Directory),
    Other,
}

/// What the note store's state machine answered an event.
#[derive(Debug, PartialEq, Eq)]
pub enum Transition {
    Entry(EntryTransition),
    Notebook(NotebookTransition),
    Log(String),
    Error(String),
}

/// The event to send before a transition is shown: a new note or
/// directory opens its parent first.
pub open spec fn prelude_event(t: Transition) -> Option<Event> {
    match t {
        Transition::Notebook(NotebookTransition::AddNote(n)) =>
            Some(Event::Notebook(NotebookEvent::OpenDirectory(n.directory_id))),
        Transition::Notebook(NotebookTransition::AddDirectory(d)) =>
            Some(Event::Notebook(NotebookEvent::OpenDirectory(d.parent_id))),
        _ => None,
    }
}

/// The event to send before `t` is shown, if any.
pub fn transition_prelude(t: &Transition) -> (r: Option<Event>)
    ensures
        r == prelude_event(*t),
{
    match t {
        Transition::Notebook(NotebookTransition::AddNote(n)) =>
            Some(Event::Notebook(NotebookEvent::OpenDirectory(n.directory_id.clone()))),
        Transition::Notebook(NotebookTransition::AddDirectory(d)) =>
            Some(Event::Notebook(NotebookEvent::OpenDirectory(d.parent_id.clone()))),
        _ => None,
    }
}

/// The event to send after a transition is shown: leaving the editor's
/// edit mode saves the editor's text `content`.
pub open spec fn followup_event(t: Transition, content: String) -> Option<Event> {
    match t {
        Transition::Notebook(NotebookTransition::ViewMode(_)) =>
            Some(Event::Notebook(NotebookEvent::UpdateNoteContent(content))),
        _ => None,
    }
}

/// The event to send after `t` is shown, if any, with `editor_content` the
/// editor's text.
pub fn transition_followup(t: &Transition, editor_content: String) -> (r: Option<Event>)
    ensures
        r == followup_event(*t, editor_content),
{
    match t {
        Transition::Notebook(NotebookTransition::ViewMode(_)) =>
            Some(Event::Notebook(NotebookEvent::UpdateNoteContent(editor_content))),
        _ => None,
    }
}

/// The tree selection after selecting `id` in `items`.
pub open spec fn selection_after(items: Seq<TreeItem>, id: Seq<char>, s: ListSelection) -> ListSelection {
    match first_item_with_id(items, id, 0) {
        Some(i) => ListSelection { selected: Some(i as usize) },
        None => s,
    }
}

/// Whether `n` shows the tree `root` over the notebook of `c` in state
/// `state` with tree selection `selection`, everything else as in `c`.
pub open spec fn notebook_shows(c: Context, n: Context, root: DirectoryItem, state: notebook::ContextState, selection: ListSelection) -> bool {
    &&& n.entry == c.entry
    &&& n.confirm == c.confirm
    &&& n.alert == c.alert
    &&& n.prompt == c.prompt
    &&& n.help == c.help
    &&& n.notebook.tree_items@ == flatten_spec(root, 0)
    &&& n.notebook.state == state
    &&& n.notebook.tree_state == selection
    &&& n.notebook.note_actions_state == c.notebook.note_actions_state
    &&& n.notebook.directory_actions_state == c.notebook.directory_actions_state
    &&& n.notebook.editor_mode == c.notebook.editor_mode
    &&& n.notebook.opened_note == c.notebook.opened_note
}

/// What showing transition `t` does to the screen, with `root` the note
/// tree after it.
pub open spec fn transition_result(c: Context, n: Context, t: Transition, root: DirectoryItem) -> bool {
    match t {
        Transition::Entry(EntryTransition::OpenNotebook) => n.state == ContextState::Notebook
            && notebook_shows(c, n, root, c.notebook.state, c.notebook.tree_state),
        Transition::Error(message) => n == Context { alert: Some(message), ..c },
        Transition::Notebook(nt) => match nt {
            NotebookTransition::OpenDirectory { .. } => n.state == c.state
                && notebook_shows(c, n, root, c.notebook.state, c.notebook.tree_state),
            NotebookTransition::CloseDirectory(id) => n.state == c.state
                && notebook_shows(c, n, root, c.notebook.state,
                    selection_after(flatten_spec(root, 0), id@, c.notebook.tree_state)),
            NotebookTransition::OpenNote { note, .. } => n.entry == c.entry && n.state == c.state
                && n.confirm == c.confirm && n.alert == c.alert && n.prompt == c.prompt && n.help == c.help
                && n.notebook == NotebookContext {
                    state: notebook::ContextState::EditorViewMode,
                    opened_note: Some(note),
                    editor_mode: EditorMode::Normal,
                    ..c.notebook
                },
            NotebookTransition::RemoveNote { selected_directory } => n.state == c.state
                && notebook_shows(c, n, root, notebook::ContextState::NoteTreeBrowsing,
                    selection_after(c.notebook.tree_items@, selected_directory.id@, c.notebook.tree_state)),
            NotebookTransition::RemoveDirectory { selected_directory } => n.state == c.state
                && notebook_shows(c, n, root, notebook::ContextState::NoteTreeBrowsing,
                    selection_after(c.notebook.tree_items@, selected_directory.id@, c.notebook.tree_state)),
            NotebookTransition::RenameNote(_) => n.state == c.state
                && notebook_shows(c, n, root, notebook::ContextState::NoteTreeBrowsing, c.notebook.tree_state),
            NotebookTransition::RenameDirectory(_) => n.state == c.state
                && notebook_shows(c, n, root, notebook::ContextState::NoteTreeBrowsing, c.notebook.tree_state),
            NotebookTransition::AddNote(note) => n.state == c.state
                && notebook_shows(c, n, root, notebook::ContextState::NoteTreeBrowsing,
                    selection_after(flatten_spec(root, 0), note.id@, c.notebook.tree_state)),
            NotebookTransition::AddDirectory(d) => n.state == c.state
                && notebook_shows(c, n, root, notebook::ContextState::NoteTreeBrowsing,
                    selection_after(flatten_spec(root, 0), d.id@, c.notebook.tree_state)),
            _ => n == c,
        },
        _ => n == c,
    }
}

impl Context {
    /// Shows what the note store's state machine answered; `root` is its
    /// note tree after the answer (and after the event of
    /// `transition_prelude`). Logging is the caller's part, and so is sending
    /// the event of `transition_followup`.
    pub fn handle_transition(&mut self, t: Transition, root: &DirectoryItem)
        requires
            item_height(*root) <= usize::MAX,
        ensures
            transition_result(*old(self), *final(self), t, *root),
    {
        match t {
            Transition::Entry(EntryTransition::OpenNotebook) => {
                self.state = ContextState::Notebook;
                self.notebook.update_items(root);
            },
            Transition::Entry(_) => {},
            Transition::Log(_) => {},
            Transition::Error(message) => {
                self.alert = Some(message);
            },
            Transition::Notebook(nt) => match nt {
                NotebookTransition::OpenDirectory { .. } => {
                    self.notebook.update_items(root);
                },
                NotebookTransition::CloseDirectory(id) => {
                    self.notebook.update_items(root);
                    self.notebook.select_item(&id);
                },
                NotebookTransition::OpenNote { note, .. } => {
                    self.notebook.open_note(note);
                },
                NotebookTransition::RemoveNote { selected_directory } | NotebookTransition::RemoveDirectory {
                    selected_directory,
                } => {
                    self.notebook.select_item(&selected_directory.id);
                    self.notebook.state = notebook::ContextState::NoteTreeBrowsing;
                    self.notebook.update_items(root);
                },
                NotebookTransition::RenameNote(_) | NotebookTransition::RenameDirectory(_) => {
                    self.notebook.state = notebook::ContextState::NoteTreeBrowsing;
                    self.notebook.update_items(root);
                },
                NotebookTransition::AddNote(note) => {
                    self.notebook.state = notebook::ContextState::NoteTreeBrowsing;
                    self.notebook.update_items(root);
                    self.notebook.select_item(&note.id);
                },
                NotebookTransition::AddDirectory(directory) => {
                    self.notebook.state = notebook::ContextState::NoteTreeBrowsing;
                    self.notebook.update_items(root);
                    self.notebook.select_item(&directory.id);
                },
                _ => {},
            },
        }
    }
}

/// Asking to confirm and then answering `y` carries out the confirmed
/// action and leaves the screen as it was before the question; answering
/// `n` carries out nothing and leaves it as it was too.
pub proof fn law_confirm_answers(
    c: Context,
    asked: Context,
    answered: Context,
    message: String,
    inner: Action,
    input: Input,
    answer: char,
    defaults: EntryDefaults,
    r: Option<Event>,
    a: Action,
)
    requires
        !c.help,
        c.alert is None,
        answer == 'y' || answer == 'n',
        action_result(c, asked, Action::Tui(TuiAction::Confirm { message, action: Box::new(inner) }), input, r),
        context_result(asked, answered, Input::Key(KeyCode::Char(answer)), defaults, a),
    ensures
        r is None,
        answered == (Context { confirm: None, ..c }),
        answer == 'y' ==> a == inner,
        answer == 'n' ==> a == Action::Nothing,
{
}

/// Opening a prompt and then pressing Esc carries out nothing and leaves the
/// screen as it was before, with no prompt open; pressing Enter instead
/// keeps the prompt, with its text, for the action it leads to, and gives
/// that action.
pub proof fn law_prompt_answers(
    c: Context,
    asked: Context,
    answered: Context,
    message: Vec<PromptLine>,
    inner: Action,
    default: Option<String>,
    input: Input,
    key: KeyCode,
    defaults: EntryDefaults,
    r: Option<Event>,
    a: Action,
)
    requires
        !c.help,
        c.alert is None,
        c.confirm is None,
        key == KeyCode::Esc || key == KeyCode::Enter,
        action_result(c, asked, Action::Tui(TuiAction::Prompt { message, action: Box::new(inner), default }), input, r),
        context_result(asked, answered, Input::Key(key), defaults, a),
    ensures
        r is None,
        key == KeyCode::Esc ==> answered == (Context { prompt: None, ..c }) && a == Action::Nothing,
        key == KeyCode::Enter ==> answered == asked && same_action(a, inner),
        key == KeyCode::Enter ==> (answered.prompt matches Some(p) && p.input@ == match default {
            Some(d) => d@,
            None => Seq::<char>::empty(),
        }),
{
}

/// A help screen or an alert closes on whatever input comes next, and that
/// input does nothing else.
pub proof fn law_overlay_closes_on_any_input(c: Context, n: Context, input: Input, defaults: EntryDefaults, a: Action)
    requires
        c.help || c.alert is Some,
        context_result(c, n, input, defaults, a),
    ensures
        a == Action::Nothing,
        screens_unchanged(c, n),
        n.confirm == c.confirm,
        n.prompt == c.prompt,
        !n.help,
        !c.help ==> n.alert is None,
{
}

proof fn lemma_first_item_with_id(items: Seq<TreeItem>, id: Seq<char>, i: nat)
    ensures
        match first_item_with_id(items, id, i) {
            Some(k) => i <= k < items.len() && notebook::item_id(items[k as int]) == id
                && forall|j: int| i <= j < k ==> notebook::item_id(#[trigger] items[j]) != id,
            None => forall|j: int| i <= j < items.len() ==> notebook::item_id(#[trigger] items[j]) != id,
        },
    decreases items.len() - i,
{
    if i < items.len() {
        lemma_first_item_with_id(items, id, i + 1);
    }
}

/// After a directory or a note was added, the tree shows the new tree and
/// its selection is on the first line of the new item, if the new tree
/// shows it, and stays where it was otherwise; the notebook is back to
/// browsing the tree.
pub proof fn law_added_item_is_selected(c: Context, n: Context, t: Transition, root: DirectoryItem)
    requires
        t matches Transition::Notebook(nt) && (nt is AddNote || nt is AddDirectory),
        transition_result(c, n, t, root),
        n.notebook.tree_items@.len() <= usize::MAX,
    ensures
        n.notebook.tree_items@ == flatten_spec(root, 0),
        n.notebook.state == notebook::ContextState::NoteTreeBrowsing,
        ({
            let id = match t {
                Transition::Notebook(NotebookTransition::AddNote(note)) => note.id@,
                Transition::Notebook(NotebookTransition::AddDirectory(d)) => d.id@,
                _ => Seq::empty(),
            };
            let items = n.notebook.tree_items@;
            &&& (exists|k: int| 0 <= k < items.len() && notebook::item_id(#[trigger] items[k]) == id) ==> (
                n.notebook.tree_state.selected matches Some(k) && k < items.len()
                && notebook::item_id(items[k as int]) == id
                && forall|j: int| 0 <= j < k ==> notebook::item_id(#[trigger] items[j]) != id)
            &&& (forall|k: int| 0 <= k < items.len() ==> notebook::item_id(#[trigger] items[k]) != id)
                ==> n.notebook.tree_state == c.notebook.tree_state
        }),
{
    let id = match t {
        Transition::Notebook(NotebookTransition::AddNote(note)) => note.id@,
        Transition::Notebook(NotebookTransition::AddDirectory(d)) => d.id@,
        _ => Seq::empty(),
    };
    let items = flatten_spec(root, 0);
    lemma_first_item_with_id(items, id, 0);
    match first_item_with_id(items, id, 0) {
        Some(k) => {
            assert(selection_after(items, id, c.notebook.tree_state) == ListSelection { selected: Some(k as usize) });
        },
        None => {
            assert(selection_after(items, id, c.notebook.tree_state) == c.notebook.tree_state);
        },
    }
}

} // verus!
