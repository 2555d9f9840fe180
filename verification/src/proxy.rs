//! Requests a proxy client sends, and the answers it gets.
use vstd::prelude::*;
use crate::data::{Directory, Note};

verus! {

/// One operation on the note store, as sent to the proxy server.
#[derive(Clone, Debug, PartialEq, Eq)]
pub enum ProxyRequest {
    RootId,
    FetchDirectory { directory_id: String },
    FetchDirectories { parent_id: String },
    AddDirectory { parent_id: String, name: String },
    RemoveDirectory { directory_id: String },
    MoveDirectory { directory_id: String, parent_id: String },
    RenameDirectory { directory_id: String, name: String },
    FetchNotes { directory_id: String },
    FetchNoteContent { note_id: String },
    AddNote { directory_id: String, name: String },
    RemoveNote { note_id: String },
    RenameNote { note_id: String, name: String },
    UpdateNoteContent { note_id: String, content: String },
    MoveNote { note_id: String, directory_id: String },
    Log { category: String, message: String },
    Sync,
}

/// What a successful request returns.
#[derive(Clone, Debug, PartialEq, Eq)]
pub enum ResultPayload {
    Id(String),
    Directory(Directory),
    Directories(Vec<Directory>),
    Note(Note),
    Notes(Vec<Note>),
    Text(String),
    Unit,
}

/// The proxy's answer to one request.
#[derive(Clone, Debug, PartialEq, Eq)]
pub enum ProxyResponse {
    Success(ResultPayload),
    Failure(String),
}

} // verus!
