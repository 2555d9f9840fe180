//! The entry menu, where a storage is chosen.
use vstd::prelude::*;
use crate::data::copy_string;
use crate::tui::{dialog_ready_at, is_prompt, next_index, previous_index, Action, EntryEvent, Event, KeyCode, ListSelection,
    PromptLine, TuiAction};

verus! {

/// The menu's entries.
pub const INSTANT: &'static str = "[1] Instant";
pub const CSV: &'static str = "[2] CSV";
pub const JSON: &'static str = "[3] JSON";
pub const FILE: &'static str = "[4] File";
pub const GIT: &'static str = "[5] Git";
pub const QUIT: &'static str = "[q] Quit";

/// The menu's entries, in order.
pub const MENU_ITEMS: [&'static str; 6] = [INSTANT, CSV, JSON, FILE, GIT, QUIT];

/// The paths last used for each storage, offered as defaults.
#[derive(Clone, Debug, PartialEq, Eq)]
pub struct EntryDefaults {
    pub last_csv_path: Option<String>,
    pub last_json_path: Option<String>,
    pub last_file_path: Option<String>,
}

/// The entry menu's state.
#[derive(Clone, Copy, Debug, PartialEq, Eq, Structural)]
pub struct EntryContext {
    pub list_state: ListSelection,
}

/// The prompt's lines for a storage path.
pub open spec fn path_prompt_lines() -> Seq<(Seq<char>, bool)> {
    seq![("Enter the path:"@, false), ("If path not exists, it will be created."@, true)]
}

/// Whether `a` prompts for a storage path, then `inner`, with `default`.
pub open spec fn is_path_prompt(a: Action, inner: Action, default: Option<String>) -> bool {
    is_prompt(a, path_prompt_lines(), inner, match default { Some(d) => Some(d@), None => None })
}

fn path_prompt(inner: Action, default: &Option<String>) -> (a: Action)
    ensures
        is_path_prompt(a, inner, *default),
{
    let mut lines: Vec<PromptLine> = Vec::new();
    lines.push(PromptLine { text: String::from_str("Enter the path:"), dim: false });
    lines.push(PromptLine { text: String::from_str("If path not exists, it will be created."), dim: true });
    assert(crate::tui::lines_view(lines@) =~= path_prompt_lines());
    let default = match default {
        Some(d) => Some(copy_string(d)),
        None => None,
    };
    Action::Tui(TuiAction::Prompt { message: lines, action: Box::new(inner), default })
}

/// What the menu entry at `i` does.
pub open spec fn menu_entry_result(i: usize, defaults: EntryDefaults, a: Action) -> bool {
    if i == 0 {
        a == Action::Dispatch(Event::Entry(EntryEvent::OpenMemory))
    } else if i == 1 {
        is_path_prompt(a, Action::Tui(TuiAction::OpenCsv), defaults.last_csv_path)
    } else if i == 2 {
        is_path_prompt(a, Action::Tui(TuiAction::OpenJson), defaults.last_json_path)
    } else if i == 3 {
        is_path_prompt(a, Action::Tui(TuiAction::OpenFile), defaults.last_file_path)
    } else if i == 4 {
        a matches Action::Tui(TuiAction::Alert(m)) && m@ == "Not implemented yet."@
    } else {
        a == Action::Tui(TuiAction::Quit)
    }
}

/// What a key does on the entry menu.
pub open spec fn entry_result(c: EntryContext, n: EntryContext, code: KeyCode, defaults: EntryDefaults, a: Action) -> bool {
    match code {
        KeyCode::Char('q') => n == c && a == Action::Tui(TuiAction::Quit),
        KeyCode::Char('j') | KeyCode::Down => n.list_state.selected == Some(next_index(c.list_state.selected))
            && a == Action::Nothing,
        KeyCode::Char('k') | KeyCode::Up => n.list_state.selected == Some(previous_index(c.list_state.selected))
            && a == Action::Nothing,
        KeyCode::Char('1') => n == c && menu_entry_result(0, defaults, a),
        KeyCode::Char('2') => n == c && menu_entry_result(1, defaults, a),
        KeyCode::Char('3') => n == c && menu_entry_result(2, defaults, a),
        KeyCode::Char('4') => n == c && menu_entry_result(3, defaults, a),
        KeyCode::Enter => n == c && menu_entry_result(c.list_state.selected->0, defaults, a),
        _ => n == c && a == Action::Nothing,
    }
}

impl EntryContext {
    /// The menu with its first entry selected.
    pub fn new() -> (c: EntryContext)
        ensures
            c.list_state.selected == Some(0usize),
    {
        EntryContext { list_state: ListSelection::first() }
    }

    fn menu_entry(&self, i: usize, defaults: &EntryDefaults) -> (a: Action)
        ensures
            menu_entry_result(i, *defaults, a),
    {
        if i == 0 {
            Action::Dispatch(Event::Entry(EntryEvent::OpenMemory))
        } else if i == 1 {
            path_prompt(Action::Tui(TuiAction::OpenCsv), &defaults.last_csv_path)
        } else if i == 2 {
            path_prompt(Action::Tui(TuiAction::OpenJson), &defaults.last_json_path)
        } else if i == 3 {
            path_prompt(Action::Tui(TuiAction::OpenFile), &defaults.last_file_path)
        } else if i == 4 {
            Action::Tui(TuiAction::Alert(String::from_str("Not implemented yet.")))
        } else {
            Action::Tui(TuiAction::Quit)
        }
    }

    /// What a key does on the entry menu; `defaults` holds the paths last
    /// used, which the path prompts offer.
    pub fn consume(&mut self, code: KeyCode, defaults: &EntryDefaults) -> (a: Action)
        requires
            code == KeyCode::Enter ==> dialog_ready_at(old(self).list_state, 6),
        ensures
            entry_result(*old(self), *final(self), code, *defaults, a),
    {
        match code {
            KeyCode::Char('q') => Action::Tui(TuiAction::Quit),
            KeyCode::Char('j') | KeyCode::Down => {
                self.list_state.select_next();
                Action::Nothing
            },
            KeyCode::Char('k') | KeyCode::Up => {
                self.list_state.select_previous();
                Action::Nothing
            },
            KeyCode::Char('1') => self.menu_entry(0, defaults),
            KeyCode::Char('2') => self.menu_entry(1, defaults),
            KeyCode::Char('3') => self.menu_entry(2, defaults),
            KeyCode::Char('4') => self.menu_entry(3, defaults),
            KeyCode::Enter => {
                let i = self.list_state.selected().unwrap();
                self.menu_entry(i, defaults)
            },
            _ => Action::Nothing,
        }
    }
}

} // verus!
