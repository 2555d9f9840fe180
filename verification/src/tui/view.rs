//! What the terminal front end shows, as text: the lines of the note tree,
//! the editor's title, the confirmation's text, and which dialog is on top.
use vstd::prelude::*;
use crate::data::Note;
use crate::text::{append, repeat, repeat_spec};
use crate::tui::notebook::{ContextState as NotebookState, TreeItem};
use crate::tui::Context;

verus! {

/// The marker of an opened directory.
pub const OPEN_SYMBOL: &'static str = "▼ ";
/// The marker of a closed directory.
pub const CLOSED_SYMBOL: &'static str = "▶ ";

/// The line of a tree item: two spaces per level, then a directory's
/// marker or, for a note, two more spaces, then the name.
pub open spec fn tree_line(item: TreeItem) -> Seq<char> {
    match item {
        TreeItem::Note { value, depth } => repeat_spec("  "@, depth as nat) + "  "@ + value.name@,
        TreeItem::Directory { value, depth, opened } => repeat_spec("  "@, depth as nat)
            + (if opened { OPEN_SYMBOL@ } else { CLOSED_SYMBOL@ }) + value.name@,
    }
}

/// The line that shows a tree item.
pub fn tree_item_line(item: &TreeItem) -> (r: String)
    ensures
        r@ == tree_line(*item),
{
    match item {
        TreeItem::Note { value, depth } => {
            let mut line = repeat("  ", *depth);
            append(&mut line, "  ");
            append(&mut line, value.name.as_str());
            line
        },
        TreeItem::Directory { value, depth, opened } => {
            let mut line = repeat("  ", *depth);
            append(&mut line, if *opened { OPEN_SYMBOL } else { CLOSED_SYMBOL });
            append(&mut line, value.name.as_str());
            line
        },
    }
}

/// The editor's title: the open note's name, if a note is open.
pub fn editor_title(opened_note: &Option<Note>) -> (r: String)
    ensures
        r@ == match opened_note {
            Some(n) => "[Editor: "@ + n.name@ + "]"@,
            None => "[Editor]"@,
        },
{
    match opened_note {
        Some(note) => {
            let mut title = String::from_str("[Editor: ");
            append(&mut title, note.name.as_str());
            append(&mut title, "]");
            title
        },
        None => String::from_str("[Editor]"),
    }
}

/// Whether the editor's title is highlighted: while the editor has the
/// keys.
pub fn editor_focused(state: NotebookState) -> (r: bool)
    ensures
        r == (state == NotebookState::EditorViewMode || state == NotebookState::EditorEditMode),
{
    match state {
        NotebookState::EditorViewMode | NotebookState::EditorEditMode => true,
        _ => false,
    }
}

/// The text of a confirmation: the question, then the two answers.
pub fn confirm_text(message: &str) -> (r: String)
    ensures
        r@ == message@ + "\n\n[Y] Confirm\n[N] Cancel"@,
{
    let mut text = String::from_str(message);
    append(&mut text, "\n\n[Y] Confirm\n[N] Cancel");
    text
}

/// The dialog drawn over the screen.
#[derive(Clone, Copy, Debug, PartialEq, Eq, Structural)]
pub enum Dialog {
    Alert,
    Confirm,
    NoteActions,
    DirectoryActions,
    Nothing,
}

/// Which dialog is on top: an alert first, then a confirmation, then the
/// notebook's action dialogs.
pub open spec fn dialog_of(c: Context) -> Dialog {
    if c.alert is Some {
        Dialog::Alert
    } else if c.confirm is Some {
        Dialog::Confirm
    } else {
        match c.notebook.state {
            NotebookState::NoteActionsDialog => Dialog::NoteActions,
            NotebookState::DirectoryActionsDialog => Dialog::DirectoryActions,
            _ => Dialog::Nothing,
        }
    }
}

/// The dialog drawn over the screen.
pub fn shown_dialog(c: &Context) -> (d: Dialog)
    ensures
        d == dialog_of(*c),
{
    if c.alert.is_some() {
        Dialog::Alert
    } else if c.confirm.is_some() {
        Dialog::Confirm
    } else {
        match c.notebook.state {
            NotebookState::NoteActionsDialog => Dialog::NoteActions,
            NotebookState::DirectoryActionsDialog => Dialog::DirectoryActions,
            _ => Dialog::Nothing,
        }
    }
}

} // verus!
