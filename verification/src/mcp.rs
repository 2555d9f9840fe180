//! The tools that the MCP server offers: their inputs, and the store
//! request each one makes.
use vstd::prelude::*;
use crate::data::copy_string;
use crate::proxy::ProxyRequest;

verus! {

/// List the notes of a directory.
#[derive(Clone, Debug, PartialEq, Eq)]
pub struct ListNotes {
    pub directory_id: String,
}

/// Fetch a note's content.
#[derive(Clone, Debug, PartialEq, Eq)]
pub struct GetNote {
    pub note_id: String,
}

/// Create a note in a directory.
#[derive(Clone, Debug, PartialEq, Eq)]
pub struct AddNote {
    pub directory_id: String,
    pub name: String,
}

impl ListNotes {
    /// The tool's name.
    pub fn name() -> (s: &'static str)
        ensures
            s@ == "list_notes"@,
    {
        "list_notes"
    }

    /// The tool's description.
    pub fn description() -> (s: &'static str)
        ensures
            s@ == "List notes in a directory"@,
    {
        "List notes in a directory"
    }

    /// The store request the tool makes.
    pub fn request(&self) -> (r: ProxyRequest)
        ensures
            r matches ProxyRequest::FetchNotes { directory_id } && directory_id@ == self.directory_id@,
    {
        ProxyRequest::FetchNotes { directory_id: copy_string(&self.directory_id) }
    }
}

impl GetNote {
    /// The tool's name.
    pub fn name() -> (s: &'static str)
        ensures
            s@ == "get_note"@,
    {
        "get_note"
    }

    /// The tool's description.
    pub fn description() -> (s: &'static str)
        ensures
            s@ == "Fetch note content"@,
    {
        "Fetch note content"
    }

    /// The store request the tool makes.
    pub fn request(&self) -> (r: ProxyRequest)
        ensures
            r matches ProxyRequest::FetchNoteContent { note_id } && note_id@ == self.note_id@,
    {
        ProxyRequest::FetchNoteContent { note_id: copy_string(&self.note_id) }
    }
}

impl AddNote {
    /// The tool's name.
    pub fn name() -> (s: &'static str)
        ensures
            s@ == "add_note"@,
    {
        "add_note"
    }

    /// The tool's description.
    pub fn description() -> (s: &'static str)
        ensures
            s@ == "Create a new note"@,
    {
        "Create a new note"
    }

    /// The store request the tool makes.
    pub fn request(&self) -> (r: ProxyRequest)
        ensures
            r matches ProxyRequest::AddNote { directory_id, name } && directory_id@ == self.directory_id@
                && name@ == self.name@,
    {
        ProxyRequest::AddNote { directory_id: copy_string(&self.directory_id), name: copy_string(&self.name) }
    }
}

} // verus!
