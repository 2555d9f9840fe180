//! Directories and notes as the front ends and the proxy see them.
use vstd::prelude::*;

verus! {

/// A directory of the note tree.
#[derive(Clone, Debug, PartialEq, Eq)]
pub struct Directory {
    pub id: String,
    pub parent_id: String,
    pub name: String,
}

/// A note stored in a directory.
#[derive(Clone, Debug, PartialEq, Eq)]
pub struct Note {
    pub id: String,
    pub directory_id: String,
    pub name: String,
}

/// Copies a string, keeping its characters.
pub fn copy_string(s: &String) -> (r: String)
    ensures
        r == *s,
{
    s.clone()
}

impl Directory {
    /// A copy of the directory with the same fields.
    pub fn copy(&self) -> (r: Directory)
        ensures
            r == *self,
    {
        Directory { id: self.id.clone(), parent_id: self.parent_id.clone(), name: self.name.clone() }
    }
}

impl Note {
    /// A copy of the note with the same fields.
    pub fn copy(&self) -> (r: Note)
        ensures
            r == *self,
    {
        Note { id: self.id.clone(), directory_id: self.directory_id.clone(), name: self.name.clone() }
    }
}

} // verus!
