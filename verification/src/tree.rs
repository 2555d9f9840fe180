//! The note tree that the GUI shows: directories whose children are loaded
//! on demand, lookups in it, and the rows it is drawn as.
use vstd::prelude::*;
use crate::data::{copy_string, Directory, Note};

verus! {

/// A directory of the tree with what is known of its contents.
#[derive(Debug)]
pub struct TreeNode {
    pub directory: Directory,
    pub directories: Vec<TreeNode>,
    pub notes: Vec<Note>,
    pub expanded: bool,
    pub loaded: bool,
}

/// What is selected in the tree.
#[derive(Clone, Debug, PartialEq, Eq)]
pub enum TreeSelection {
    Directory(String),
    Note(String),
}

/// Whether a row shows a directory or a note.
#[derive(Clone, Copy, Debug, PartialEq, Eq)]
pub enum TreeRowKind {
    Directory,
    Note,
}

/// One line of the drawn tree.
#[derive(Clone, Debug, PartialEq, Eq)]
pub struct TreeRow {
    pub id: String,
    pub depth: usize,
    pub kind: TreeRowKind,
    pub name: String,
    pub expanded: bool,
    pub selected: bool,
}

/// A tree node as a mathematical value.
#[verifier::ext_equal]
pub struct TreeView {
    pub directory: Directory,
    pub directories: Seq<TreeView>,
    pub notes: Seq<Note>,
    pub expanded: bool,
    pub loaded: bool,
}

/// A row as a mathematical value.
pub struct RowView {
    pub id: Seq<char>,
    pub depth: int,
    pub kind: TreeRowKind,
    pub name: Seq<char>,
    pub expanded: bool,
    pub selected: bool,
}

/// The value of a node.
pub open spec fn tree_view(node: TreeNode) -> TreeView
    decreases node, 1nat, 0nat,
{
    TreeView {
        directory: node.directory,
        directories: children_view(node, 0),
        notes: node.notes@,
        expanded: node.expanded,
        loaded: node.loaded,
    }
}

/// The values of the child directories of `parent`, from the `i`-th on.
pub open spec fn children_view(parent: TreeNode, i: nat) -> Seq<TreeView>
    decreases parent, 0nat, parent.directories@.len() - i,
{
    if i >= parent.directories@.len() {
        Seq::empty()
    } else {
        seq![tree_view(parent.directories@[i as int])] + children_view(parent, i + 1)
    }
}

impl View for TreeNode {
    type V = TreeView;

    open spec fn view(&self) -> TreeView {
        tree_view(*self)
    }
}

proof fn lemma_children_view_from(node: TreeNode, i: nat)
    requires
        i <= node.directories@.len(),
    ensures
        children_view(node, i).len() == node.directories@.len() - i,
        forall|k: int| 0 <= k < node.directories@.len() - i ==> #[trigger] children_view(node, i)[k] == tree_view(node.directories@[i + k]),
    decreases node.directories@.len() - i,
{
    if i < node.directories@.len() {
        lemma_children_view_from(node, i + 1);
        assert forall|k: int| 0 <= k < node.directories@.len() - i implies #[trigger] children_view(node, i)[k] == tree_view(node.directories@[i + k]) by {
            if k > 0 {
                assert(children_view(node, i)[k] == children_view(node, i + 1)[k - 1]);
            }
        }
    }
}

/// The children of a node's value are the values of its children.
pub proof fn lemma_children_view(node: TreeNode)
    ensures
        node@.directories.len() == node.directories@.len(),
        forall|k: int| 0 <= k < node.directories@.len() ==> #[trigger] node@.directories[k] == node.directories@[k]@,
{
    lemma_children_view_from(node, 0);
    assert forall|k: int| 0 <= k < node.directories@.len() implies #[trigger] node@.directories[k] == node.directories@[k]@ by {
        assert(children_view(node, 0)[k] == tree_view(node.directories@[0 + k]));
    }
}

/// A directory whose contents were not loaded yet.
pub open spec fn unloaded_view(directory: Directory) -> TreeView {
    TreeView { directory, directories: Seq::empty(), notes: Seq::empty(), expanded: false, loaded: false }
}

/// The first node, in pre-order, of directory `id`.
pub open spec fn find_dir(t: TreeView, id: Seq<char>) -> Option<TreeView>
    decreases t, 1nat, 0nat,
{
    if t.directory.id@ == id {
        Some(t)
    } else {
        find_dir_from(t, 0, id)
    }
}

/// The first node of directory `id` among the subtrees of the children of
/// `t` from the `i`-th on.
pub open spec fn find_dir_from(t: TreeView, i: nat, id: Seq<char>) -> Option<TreeView>
    decreases t, 0nat, t.directories.len() - i,
{
    if i >= t.directories.len() {
        None
    } else {
        match find_dir(t.directories[i as int], id) {
            Some(n) => Some(n),
            None => find_dir_from(t, i + 1, id),
        }
    }
}

/// The first note of `notes`, from the `i`-th on, with identifier `id`.
pub open spec fn first_note(notes: Seq<Note>, i: nat, id: Seq<char>) -> Option<Note>
    decreases notes.len() - i,
{
    if i >= notes.len() {
        None
    } else if notes[i as int].id@ == id {
        Some(notes[i as int])
    } else {
        first_note(notes, i + 1, id)
    }
}

/// The note `id`: first among the node's own notes, then in its child
/// directories in order.
pub open spec fn find_note(t: TreeView, id: Seq<char>) -> Option<Note>
    decreases t, 1nat, 0nat,
{
    match first_note(t.notes, 0, id) {
        Some(n) => Some(n),
        None => find_note_from(t, 0, id),
    }
}

/// The note `id` among the subtrees of the children of `t` from the `i`-th on.
pub open spec fn find_note_from(t: TreeView, i: nat, id: Seq<char>) -> Option<Note>
    decreases t, 0nat, t.directories.len() - i,
{
    if i >= t.directories.len() {
        None
    } else {
        match find_note(t.directories[i as int], id) {
            Some(n) => Some(n),
            None => find_note_from(t, i + 1, id),
        }
    }
}

/// The names of the directories from `t` down to directory `id`.
pub open spec fn dir_path(t: TreeView, id: Seq<char>) -> Option<Seq<Seq<char>>>
    decreases t, 1nat, 0nat,
{
    if t.directory.id@ == id {
        Some(seq![t.directory.name@])
    } else {
        match dir_path_from(t, 0, id) {
            Some(p) => Some(seq![t.directory.name@] + p),
            None => None,
        }
    }
}

/// The path to directory `id` through the children of `t` from the `i`-th on.
pub open spec fn dir_path_from(t: TreeView, i: nat, id: Seq<char>) -> Option<Seq<Seq<char>>>
    decreases t, 0nat, t.directories.len() - i,
{
    if i >= t.directories.len() {
        None
    } else {
        match dir_path(t.directories[i as int], id) {
            Some(p) => Some(p),
            None => dir_path_from(t, i + 1, id),
        }
    }
}

/// Whether the selection is directory `id`.
pub open spec fn selects_directory(selected: TreeSelection, id: Seq<char>) -> bool {
    selected matches TreeSelection::Directory(s) && s@ == id
}

/// Whether the selection is note `id`.
pub open spec fn selects_note(selected: TreeSelection, id: Seq<char>) -> bool {
    selected matches TreeSelection::Note(s) && s@ == id
}

/// The row of a note at `depth`.
pub open spec fn note_row(n: Note, depth: int, selected: TreeSelection) -> RowView {
    RowView {
        id: n.id@,
        depth,
        kind: TreeRowKind::Note,
        name: n.name@,
        expanded: false,
        selected: selects_note(selected, n.id@),
    }
}

/// The rows of `notes`, from the `i`-th on.
pub open spec fn note_rows(notes: Seq<Note>, i: nat, depth: int, selected: TreeSelection) -> Seq<RowView>
    decreases notes.len() - i,
{
    if i >= notes.len() {
        Seq::empty()
    } else {
        seq![note_row(notes[i as int], depth, selected)] + note_rows(notes, i + 1, depth, selected)
    }
}

/// The rows that draw `t` at `depth`: its own row, then, when it is
/// expanded, its child directories and then its notes one level deeper.
pub open spec fn rows(t: TreeView, depth: int, selected: TreeSelection) -> Seq<RowView>
    decreases t, 1nat, 0nat,
{
    let own = RowView {
        id: t.directory.id@,
        depth,
        kind: TreeRowKind::Directory,
        name: t.directory.name@,
        expanded: t.expanded,
        selected: selects_directory(selected, t.directory.id@),
    };
    if !t.expanded {
        seq![own]
    } else {
        seq![own] + rows_from(t, 0, depth + 1, selected) + note_rows(t.notes, 0, depth + 1, selected)
    }
}

/// The rows of the child directories of `t` from the `i`-th on.
pub open spec fn rows_from(t: TreeView, i: nat, depth: int, selected: TreeSelection) -> Seq<RowView>
    decreases t, 0nat, t.directories.len() - i,
{
    if i >= t.directories.len() {
        Seq::empty()
    } else {
        rows(t.directories[i as int], depth, selected) + rows_from(t, i + 1, depth, selected)
    }
}

/// How many levels of directories `t` has.
pub open spec fn height(t: TreeView) -> nat
    decreases t, 1nat, 0nat,
{
    1 + height_from(t, 0)
}

/// The greatest height among the children of `t` from the `i`-th on.
pub open spec fn height_from(t: TreeView, i: nat) -> nat
    decreases t, 0nat, t.directories.len() - i,
{
    if i >= t.directories.len() {
        0
    } else {
        let h = height(t.directories[i as int]);
        let rest = height_from(t, i + 1);
        if h > rest { h } else { rest }
    }
}

/// A change to one directory node.
#[derive(Debug)]
pub enum NodeUpdate {
    /// Show or hide its contents.
    Toggle,
    /// Fill in its contents, loaded from the store, and show them.
    Load { notes: Vec<Note>, directories: Vec<Directory> },
}

/// The node after `op`.
pub open spec fn apply_update(t: TreeView, op: NodeUpdate) -> TreeView {
    match op {
        NodeUpdate::Toggle => TreeView { expanded: !t.expanded, ..t },
        NodeUpdate::Load { notes, directories } => TreeView {
            directory: t.directory,
            directories: directories@.map_values(|d: Directory| unloaded_view(d)),
            notes: notes@,
            expanded: true,
            loaded: true,
        },
    }
}

/// `t` with `op` applied to the first node of directory `id`.
pub open spec fn updated(t: TreeView, id: Seq<char>, op: NodeUpdate) -> TreeView
    decreases t, 1nat, 0nat,
{
    if t.directory.id@ == id {
        apply_update(t, op)
    } else {
        TreeView { directories: updated_from(t, 0, id, op), ..t }
    }
}

/// The children of `t` from the `i`-th on, with `op` applied in the first
/// subtree that holds directory `id`.
pub open spec fn updated_from(t: TreeView, i: nat, id: Seq<char>, op: NodeUpdate) -> Seq<TreeView>
    decreases t, 0nat, t.directories.len() - i,
{
    if i >= t.directories.len() {
        Seq::empty()
    } else if find_dir(t.directories[i as int], id) is Some {
        seq![updated(t.directories[i as int], id, op)] + t.directories.skip(i + 1 as int)
    } else {
        seq![t.directories[i as int]] + updated_from(t, i + 1, id, op)
    }
}

impl TreeNode {
    /// A node for a directory whose contents were not loaded yet.
    pub fn unloaded(directory: Directory) -> (n: TreeNode)
        ensures
            n@ == unloaded_view(directory),
    {
        let n = TreeNode { directory, directories: Vec::new(), notes: Vec::new(), expanded: false, loaded: false };
        proof {
            lemma_children_view(n);
            assert(n@ =~= unloaded_view(directory));
        }
        n
    }

    /// The first node, in pre-order, of directory `directory_id`.
    pub fn find_directory(&self, directory_id: &String) -> (r: Option<&TreeNode>)
        ensures
            match r {
                Some(n) => find_dir(self@, directory_id@) == Some(n@),
                None => find_dir(self@, directory_id@) is None,
            },
        decreases self,
    {
        if self.directory.id.eq(directory_id) {
            return Some(self);
        }
        proof {
            lemma_children_view(*self);
        }
        let n = self.directories.len();
        for i in 0..n
            invariant
                n == self.directories@.len(),
                n == self@.directories.len(),
                self@.directory.id@ != directory_id@,
                forall|k: int| 0 <= k < n ==> #[trigger] self@.directories[k] == self.directories@[k]@,
                find_dir(self@, directory_id@) == find_dir_from(self@, i as nat, directory_id@),
        {
            let r = self.directories[i].find_directory(directory_id);
            if r.is_some() {
                return r;
            }
        }
        None
    }

    /// The note `note_id`: first among this node's notes, then in its child
    /// directories in order.
    pub fn find_note(&self, note_id: &String) -> (r: Option<&Note>)
        ensures
            match r {
                Some(n) => find_note(self@, note_id@) == Some(*n),
                None => find_note(self@, note_id@) is None,
            },
        decreases self,
    {
        let m = self.notes.len();
        for j in 0..m
            invariant
                m == self.notes@.len(),
                self@.notes == self.notes@,
                first_note(self@.notes, 0, note_id@) == first_note(self@.notes, j as nat, note_id@),
        {
            if self.notes[j].id.eq(note_id) {
                return Some(&self.notes[j]);
            }
        }
        proof {
            lemma_children_view(*self);
        }
        let n = self.directories.len();
        for i in 0..n
            invariant
                n == self.directories@.len(),
                n == self@.directories.len(),
                first_note(self@.notes, 0, note_id@) is None,
                forall|k: int| 0 <= k < n ==> #[trigger] self@.directories[k] == self.directories@[k]@,
                find_note(self@, note_id@) == find_note_from(self@, i as nat, note_id@),
        {
            let r = self.directories[i].find_note(note_id);
            if r.is_some() {
                return r;
            }
        }
        None
    }

    /// The names of the directories from this node down to directory
    /// `directory_id`, if it is in the tree.
    pub fn directory_path(&self, directory_id: &String) -> (r: Option<Vec<String>>)
        ensures
            match r {
                Some(p) => dir_path(self@, directory_id@) == Some(p@.map_values(|s: String| s@)),
                None => dir_path(self@, directory_id@) is None,
            },
        decreases self,
    {
        if self.directory.id.eq(directory_id) {
            let mut p: Vec<String> = Vec::new();
            p.push(copy_string(&self.directory.name));
            assert(p@.map_values(|s: String| s@) =~= seq![self.directory.name@]);
            return Some(p);
        }
        proof {
            lemma_children_view(*self);
        }
        let n = self.directories.len();
        for i in 0..n
            invariant
                n == self.directories@.len(),
                n == self@.directories.len(),
                self@.directory.id@ != directory_id@,
                forall|k: int| 0 <= k < n ==> #[trigger] self@.directories[k] == self.directories@[k]@,
                dir_path_from(self@, 0, directory_id@) == dir_path_from(self@, i as nat, directory_id@),
        {
            match self.directories[i].directory_path(directory_id) {
                Some(tail) => {
                    let mut p: Vec<String> = Vec::new();
                    p.push(copy_string(&self.directory.name));
                    let ghost head = p@;
                    let mut tail = tail;
                    p.append(&mut tail);
                    assert(p@.map_values(|s: String| s@) =~= seq![self.directory.name@] + dir_path(self@.directories[i as int], directory_id@)->0);
                    return Some(p);
                },
                None => {},
            }
        }
        None
    }

    /// Appends the rows that draw this node at `depth`.
    pub fn append_rows(&self, depth: usize, selected: &TreeSelection, rows_out: &mut Vec<TreeRow>)
        requires
            depth + height(self@) <= usize::MAX,
        ensures
            final(rows_out)@.map_values(|r: TreeRow| row_view(r)) == old(rows_out)@.map_values(|r: TreeRow| row_view(r))
                + rows(self@, depth as int, *selected),
        decreases self,
    {
        let ghost start = rows_out@.map_values(|r: TreeRow| row_view(r));
        let own = TreeRow {
            id: copy_string(&self.directory.id),
            depth,
            kind: TreeRowKind::Directory,
            name: copy_string(&self.directory.name),
            expanded: self.expanded,
            selected: match selected {
                TreeSelection::Directory(id) => id.eq(&self.directory.id),
                TreeSelection::Note(_) => false,
            },
        };
        rows_out.push(own);
        assert(rows_out@.map_values(|r: TreeRow| row_view(r)) =~= start + seq![row_view(own)]);
        if !self.expanded {
            return;
        }
        proof {
            lemma_children_view(*self);
            lemma_height_children(self@);
        }
        let n = self.directories.len();
        for i in 0..n
            invariant
                n == self.directories@.len(),
                n == self@.directories.len(),
                self.expanded,
                depth + height(self@) <= usize::MAX,
                forall|k: int| 0 <= k < n ==> #[trigger] self@.directories[k] == self.directories@[k]@,
                forall|k: int| 0 <= k < n ==> height(#[trigger] self@.directories[k]) < height(self@),
                rows_out@.map_values(|r: TreeRow| row_view(r)) + rows_from(self@, i as nat, depth + 1, *selected)
                    == start + seq![row_view(own)] + rows_from(self@, 0, depth + 1, *selected),
        {
            let ghost before = rows_out@.map_values(|r: TreeRow| row_view(r));
            self.directories[i].append_rows(depth + 1, selected, rows_out);
            assert(rows_from(self@, i as nat, depth + 1, *selected) =~= rows(self@.directories[i as int], depth + 1, *selected)
                + rows_from(self@, (i + 1) as nat, depth + 1, *selected));
            assert(rows_out@.map_values(|r: TreeRow| row_view(r)) + rows_from(self@, (i + 1) as nat, depth + 1, *selected)
                =~= before + rows_from(self@, i as nat, depth + 1, *selected));
        }
        assert(rows_from(self@, n as nat, depth + 1, *selected) =~= Seq::<RowView>::empty());
        assert(rows_out@.map_values(|r: TreeRow| row_view(r)) =~= start + seq![row_view(own)] + rows_from(self@, 0, depth + 1, *selected));
        let ghost mid = rows_out@.map_values(|r: TreeRow| row_view(r));
        let m = self.notes.len();
        for j in 0..m
            invariant
                m == self.notes@.len(),
                self@.notes == self.notes@,
                depth + height(self@) <= usize::MAX,
                height(self@) >= 1,
                rows_out@.map_values(|r: TreeRow| row_view(r)) + note_rows(self@.notes, j as nat, depth + 1, *selected)
                    == mid + note_rows(self@.notes, 0, depth + 1, *selected),
        {
            let note = &self.notes[j];
            let row = TreeRow {
                id: copy_string(&note.id),
                depth: depth + 1,
                kind: TreeRowKind::Note,
                name: copy_string(&note.name),
                expanded: false,
                selected: match selected {
                    TreeSelection::Note(id) => id.eq(&note.id),
                    TreeSelection::Directory(_) => false,
                },
            };
            let ghost before = rows_out@.map_values(|r: TreeRow| row_view(r));
            rows_out.push(row);
            assert(rows_out@.map_values(|r: TreeRow| row_view(r)) =~= before.push(row_view(row)));
            assert(row_view(row) == note_row(self@.notes[j as int], depth + 1, *selected));
            assert(note_rows(self@.notes, j as nat, depth + 1, *selected) =~= seq![row_view(row)]
                + note_rows(self@.notes, (j + 1) as nat, depth + 1, *selected));
            assert(rows_out@.map_values(|r: TreeRow| row_view(r)) + note_rows(self@.notes, (j + 1) as nat, depth + 1, *selected)
                =~= before + note_rows(self@.notes, j as nat, depth + 1, *selected));
        }
        assert(note_rows(self@.notes, m as nat, depth + 1, *selected) =~= Seq::<RowView>::empty());
        assert(rows_out@.map_values(|r: TreeRow| row_view(r)) =~= start + rows(self@, depth as int, *selected));
    }

    /// Applies `op` to the first node, in pre-order, of directory
    /// `directory_id`; the result says whether there was one.
    pub fn update_directory(&mut self, directory_id: &String, op: NodeUpdate) -> (found: bool)
        ensures
            found == (find_dir(old(self)@, directory_id@) is Some),
            final(self)@ == updated(old(self)@, directory_id@, op),
    {
        let placeholder = Directory { id: String::new(), parent_id: String::new(), name: String::new() };
        let mut node = TreeNode::unloaded(placeholder);
        std::mem::swap(self, &mut node);
        let (node, found) = TreeNode::update_owned(node, directory_id, op);
        *self = node;
        found
    }

    fn update_owned(input: TreeNode, directory_id: &String, op: NodeUpdate) -> (r: (TreeNode, bool))
        ensures
            r.1 == (find_dir(input@, directory_id@) is Some),
            r.0@ == updated(input@, directory_id@, op),
        decreases input,
    {
        let ghost op_v = op;
        let ghost old_node = input;
        proof {
            lemma_children_view(input);
        }
        let mut node = input;
        if node.directory.id.eq(directory_id) {
            match op {
                NodeUpdate::Toggle => {
                    node.expanded = !node.expanded;
                    proof {
                        lemma_children_view(node);
                        assert(node@.directories =~= old_node@.directories);
                        assert(node@ =~= apply_update(old_node@, op_v));
                    }
                },
                NodeUpdate::Load { notes, directories } => {
                    let mut children: Vec<TreeNode> = Vec::new();
                    let k = directories.len();
                    for i in 0..k
                        invariant
                            k == directories@.len(),
                            children@.len() == i,
                            forall|j: int| 0 <= j < i ==> #[trigger] children@[j]@ == unloaded_view(directories@[j]),
                    {
                        children.push(TreeNode::unloaded(directories[i].copy()));
                    }
                    node.notes = notes;
                    node.directories = children;
                    node.loaded = true;
                    node.expanded = true;
                    proof {
                        lemma_children_view(node);
                        assert(node@.directories =~= directories@.map_values(|d: Directory| unloaded_view(d)));
                        assert(node@ =~= apply_update(old_node@, op_v));
                    }
                },
            }
            return (node, true);
        }
        let n = node.directories.len();
        let mut i: usize = 0;
        while i < n
            invariant
                n == node.directories@.len(),
                n == node@.directories.len(),
                node == old_node,
                old_node == input,
                op_v == op,
                0 <= i <= n,
                node@.directory.id@ != directory_id@,
                forall|k: int| 0 <= k < n ==> #[trigger] node@.directories[k] == node.directories@[k]@,
                find_dir(node@, directory_id@) == find_dir_from(node@, i as nat, directory_id@),
                updated_from(node@, 0, directory_id@, op) == node@.directories.take(i as int) + updated_from(node@, i as nat, directory_id@, op),
            decreases n - i,
        {
            if node.directories[i].find_directory(directory_id).is_some() {
                let ghost before = node;
                let mut dirs = node.directories;
                let child = dirs.remove(i);
                assert(child == before.directories@[i as int]);
                let ghost child_before = child;
                proof {
                    assert(decreases_to!(old_node => old_node.directories));
                    assert(decreases_to!(old_node.directories => old_node.directories@));
                    assert(decreases_to!(old_node.directories@ => old_node.directories@[i as int]));
                    assert(decreases_to!(old_node => child_before));
                }
                let (child, _) = TreeNode::update_owned(child, directory_id, op);
                let ghost new_child = child;
                assert(new_child@ == updated(child_before@, directory_id@, op_v));
                dirs.insert(i, child);
                node.directories = dirs;
                proof {
                    assert(node.directories@ =~= before.directories@.update(i as int, new_child));
                    lemma_children_view(node);
                    lemma_children_view(before);
                    assert(node@.directories[i as int] == updated(before@.directories[i as int], directory_id@, op_v));
                    assert(node@.directories.skip(i + 1) =~= before@.directories.skip(i + 1));
                    assert(updated_from(before@, i as nat, directory_id@, op_v) =~= seq![node@.directories[i as int]]
                        + before@.directories.skip(i + 1));
                    assert(node@.directories =~= updated_from(before@, 0, directory_id@, op_v));
                    assert(node@ =~= updated(old_node@, directory_id@, op_v));
                }
                return (node, true);
            }
            assert(updated_from(node@, i as nat, directory_id@, op) =~= seq![node@.directories[i as int]]
                + updated_from(node@, (i + 1) as nat, directory_id@, op));
            assert(node@.directories.take(i + 1) =~= node@.directories.take(i as int).push(node@.directories[i as int]));
            i = i + 1;
        }
        proof {
            assert(updated_from(node@, n as nat, directory_id@, op) =~= Seq::<TreeView>::empty());
            assert(node@.directories.take(n as int) =~= node@.directories);
            assert(node@ =~= updated(old_node@, directory_id@, op_v));
        }
        (node, false)
    }
}

/// A row as a mathematical value.
pub open spec fn row_view(r: TreeRow) -> RowView {
    RowView { id: r.id@, depth: r.depth as int, kind: r.kind, name: r.name@, expanded: r.expanded, selected: r.selected }
}

proof fn lemma_height_from(t: TreeView, i: nat)
    requires
        i <= t.directories.len(),
    ensures
        forall|k: int| i <= k < t.directories.len() ==> height(#[trigger] t.directories[k]) <= height_from(t, i),
    decreases t.directories.len() - i,
{
    if i < t.directories.len() {
        lemma_height_from(t, i + 1);
    }
}

/// Every child of a node is lower than the node.
pub proof fn lemma_height_children(t: TreeView)
    ensures
        height(t) >= 1,
        forall|k: int| 0 <= k < t.directories.len() ==> height(#[trigger] t.directories[k]) < height(t),
{
    lemma_height_from(t, 0);
}

/// The first child of `t`, from the `i`-th on, whose subtree holds
/// directory `id`.
pub open spec fn first_holding(t: TreeView, i: nat, id: Seq<char>) -> Option<nat>
    decreases t.directories.len() - i,
{
    if i >= t.directories.len() {
        None
    } else if find_dir(t.directories[i as int], id) is Some {
        Some(i)
    } else {
        first_holding(t, i + 1, id)
    }
}

proof fn lemma_updated_from_shape(t: TreeView, i: nat, id: Seq<char>, op: NodeUpdate)
    requires
        i <= t.directories.len(),
    ensures
        match first_holding(t, i, id) {
            Some(k) => i <= k < t.directories.len() && find_dir(t.directories[k as int], id) is Some
                && (forall|j: int| i <= j < k ==> find_dir(#[trigger] t.directories[j], id) is None)
                && updated_from(t, i, id, op) == t.directories.skip(i as int).update(k - i, updated(t.directories[k as int], id, op)),
            None => (forall|j: int| i <= j < t.directories.len() ==> find_dir(#[trigger] t.directories[j], id) is None)
                && updated_from(t, i, id, op) == t.directories.skip(i as int),
        },
    decreases t.directories.len() - i,
{
    if i < t.directories.len() {
        lemma_updated_from_shape(t, i + 1, id, op);
        if find_dir(t.directories[i as int], id) is Some {
            assert(updated_from(t, i, id, op) =~= t.directories.skip(i as int).update(0, updated(t.directories[i as int], id, op)));
        } else {
            match first_holding(t, i + 1, id) {
                Some(k) => {
                    assert(updated_from(t, i, id, op) =~= t.directories.skip(i as int).update(k - i, updated(t.directories[k as int], id, op)));
                },
                None => {
                    assert(updated_from(t, i, id, op) =~= t.directories.skip(i as int));
                },
            }
        }
    } else {
        assert(t.directories.skip(i as int) =~= Seq::<TreeView>::empty());
    }
}

proof fn lemma_find_dir_from_some(t: TreeView, i: nat, x: Seq<char>)
    requires
        i <= t.directories.len(),
    ensures
        (find_dir_from(t, i, x) is Some) == (exists|j: int| i <= j < t.directories.len() && find_dir(#[trigger] t.directories[j], x) is Some),
        match find_dir_from(t, i, x) {
            Some(n) => exists|j: int| i <= j < t.directories.len() && find_dir(#[trigger] t.directories[j], x) == Some(n)
                && forall|l: int| i <= l < j ==> find_dir(#[trigger] t.directories[l], x) is None,
            None => true,
        },
    decreases t.directories.len() - i,
{
    if i < t.directories.len() {
        lemma_find_dir_from_some(t, i + 1, x);
        if find_dir(t.directories[i as int], x) is Some {
            assert(find_dir(t.directories[i as int], x) is Some);
        }
    }
}

/// Showing or hiding a directory keeps every directory of the tree in it.
proof fn lemma_updated_keeps_dirs(t: TreeView, id: Seq<char>, op: NodeUpdate, x: Seq<char>)
    requires
        op is Toggle,
    ensures
        (find_dir(updated(t, id, op), x) is Some) == (find_dir(t, x) is Some),
    decreases t, 1nat,
{
    let u = updated(t, id, op);
    lemma_find_dir_from_some(t, 0, x);
    lemma_updated_from_shape(t, 0, id, op);
    if t.directory.id@ == id {
        assert(u.directories == t.directories);
        lemma_find_dir_from_some(u, 0, x);
    } else {
        lemma_find_dir_from_some(u, 0, x);
        match first_holding(t, 0, id) {
            Some(k) => {
                assert(u.directories == t.directories.update(k as int, updated(t.directories[k as int], id, op)));
                lemma_updated_keeps_dirs(t.directories[k as int], id, op, x);
                if exists|j: int| 0 <= j < t.directories.len() && find_dir(#[trigger] t.directories[j], x) is Some {
                    let j = choose|j: int| 0 <= j < t.directories.len() && find_dir(#[trigger] t.directories[j], x) is Some;
                    assert(find_dir(u.directories[j], x) is Some);
                }
                if exists|j: int| 0 <= j < u.directories.len() && find_dir(#[trigger] u.directories[j], x) is Some {
                    let j = choose|j: int| 0 <= j < u.directories.len() && find_dir(#[trigger] u.directories[j], x) is Some;
                    assert(find_dir(t.directories[j], x) is Some);
                }
            },
            None => {
                assert(u.directories =~= t.directories);
            },
        }
    }
}

/// Showing or hiding a directory twice gives back the tree as it was.
pub proof fn law_toggle_twice_restores(t: TreeView, id: Seq<char>)
    ensures
        updated(updated(t, id, NodeUpdate::Toggle), id, NodeUpdate::Toggle) == t,
    decreases t,
{
    let op = NodeUpdate::Toggle;
    let u = updated(t, id, op);
    if t.directory.id@ == id {
        assert(updated(u, id, op) =~= t);
    } else {
        lemma_updated_from_shape(t, 0, id, op);
        lemma_updated_from_shape(u, 0, id, op);
        match first_holding(t, 0, id) {
            Some(k) => {
                let c = t.directories[k as int];
                assert(u.directories =~= t.directories.update(k as int, updated(c, id, op)));
                lemma_updated_keeps_dirs(c, id, op, id);
                law_toggle_twice_restores(c, id);
                assert forall|j: int| 0 <= j < k implies find_dir(#[trigger] u.directories[j], id) is None by {
                    assert(u.directories[j] == t.directories[j]);
                }
                assert(find_dir(u.directories[k as int], id) is Some);
                match first_holding(u, 0, id) {
                    Some(k2) => {
                        assert(k2 == k);
                        assert(updated(u, id, op).directories =~= t.directories);
                    },
                    None => {
                        assert(false);
                    },
                }
                assert(updated(u, id, op) =~= t);
            },
            None => {
                assert(u.directories =~= t.directories);
                assert(u =~= t);
            },
        }
    }
}

proof fn lemma_find_dir_from_first(t: TreeView, i: nat, x: Seq<char>)
    requires
        i <= t.directories.len(),
    ensures
        find_dir_from(t, i, x) == match first_holding(t, i, x) {
            Some(k) => find_dir(t.directories[k as int], x),
            None => None,
        },
    decreases t.directories.len() - i,
{
    if i < t.directories.len() {
        lemma_find_dir_from_first(t, i + 1, x);
    }
}

proof fn lemma_first_holding_at(t: TreeView, i: nat, x: Seq<char>, k: nat)
    requires
        i <= k < t.directories.len(),
        find_dir(t.directories[k as int], x) is Some,
        forall|j: int| i <= j < k ==> find_dir(#[trigger] t.directories[j], x) is None,
    ensures
        first_holding(t, i, x) == Some(k),
    decreases k - i,
{
    if i < k {
        lemma_first_holding_at(t, i + 1, x, k);
    }
}

/// After a change to directory `id`, looking the directory up finds it
/// changed: a directory filled in with its listing is found loaded and
/// shown, a toggled one with its contents shown or hidden.
pub proof fn law_updated_directory_is_found(t: TreeView, id: Seq<char>, op: NodeUpdate)
    requires
        find_dir(t, id) is Some,
    ensures
        find_dir(updated(t, id, op), id) == Some(apply_update(find_dir(t, id)->0, op)),
    decreases t,
{
    if t.directory.id@ != id {
        let u = updated(t, id, op);
        lemma_find_dir_from_first(t, 0, id);
        lemma_updated_from_shape(t, 0, id, op);
        let k = first_holding(t, 0, id)->0;
        let c = t.directories[k as int];
        law_updated_directory_is_found(c, id, op);
        assert(u.directories =~= t.directories.update(k as int, updated(c, id, op)));
        assert forall|j: int| 0 <= j < k implies find_dir(#[trigger] u.directories[j], id) is None by {
            assert(u.directories[j] == t.directories[j]);
        }
        lemma_first_holding_at(u, 0, id, k);
        lemma_find_dir_from_first(u, 0, id);
    }
}

/// Whether two nodes agree in everything of their own: the directory, its
/// notes, and whether it is shown and loaded.
pub open spec fn same_own_fields(a: TreeView, b: TreeView) -> bool {
    &&& a.directory == b.directory
    &&& a.notes == b.notes
    &&& a.expanded == b.expanded
    &&& a.loaded == b.loaded
}

proof fn lemma_first_holding_agree(t: TreeView, u: TreeView, i: nat, x: Seq<char>)
    requires
        t.directories.len() == u.directories.len(),
        forall|j: int| 0 <= j < t.directories.len() ==> (find_dir(#[trigger] t.directories[j], x) is Some)
            == (find_dir(u.directories[j], x) is Some),
    ensures
        first_holding(t, i, x) == first_holding(u, i, x),
    decreases t.directories.len() - i,
{
    if i < t.directories.len() {
        lemma_first_holding_agree(t, u, i + 1, x);
    }
}

/// Showing or hiding directory `id` changes nothing of any other
/// directory's own: looking up any other directory finds a node with the
/// same directory, notes, shown state and loaded state as before.
pub proof fn law_toggle_changes_only_that_directory(t: TreeView, id: Seq<char>, x: Seq<char>)
    requires
        x != id,
    ensures
        match (find_dir(t, x), find_dir(updated(t, id, NodeUpdate::Toggle), x)) {
            (Some(a), Some(b)) => same_own_fields(a, b),
            (None, None) => true,
            _ => false,
        },
    decreases t,
{
    let op = NodeUpdate::Toggle;
    let u = updated(t, id, op);
    if t.directory.id@ == id {
        assert(u.directories == t.directories);
        lemma_first_holding_agree(t, u, 0, x);
        lemma_find_dir_from_first(t, 0, x);
        lemma_find_dir_from_first(u, 0, x);
    } else if t.directory.id@ == x {
    } else {
        lemma_updated_from_shape(t, 0, id, op);
        match first_holding(t, 0, id) {
            Some(k) => {
                let c = t.directories[k as int];
                assert(u.directories =~= t.directories.update(k as int, updated(c, id, op)));
                lemma_updated_keeps_dirs(c, id, op, x);
                assert forall|j: int| 0 <= j < t.directories.len() implies (find_dir(#[trigger] t.directories[j], x) is Some)
                    == (find_dir(u.directories[j], x) is Some) by {
                    if j != k {
                        assert(u.directories[j] == t.directories[j]);
                    }
                }
                lemma_first_holding_agree(t, u, 0, x);
                lemma_find_dir_from_first(t, 0, x);
                lemma_find_dir_from_first(u, 0, x);
                lemma_updated_from_shape(t, 0, x, op);
                match first_holding(t, 0, x) {
                    Some(kx) => {
                        if kx == k {
                            law_toggle_changes_only_that_directory(c, id, x);
                        } else {
                            assert(u.directories[kx as int] == t.directories[kx as int]);
                        }
                    },
                    None => {},
                }
            },
            None => {
                assert(u.directories =~= t.directories);
                assert(u =~= t);
            },
        }
    }
}

/// The node reached from `t` by following child positions `path`, if each
/// position is a child.
pub open spec fn node_at(t: TreeView, path: Seq<int>) -> Option<TreeView>
    decreases path.len(),
{
    if path.len() == 0 {
        Some(t)
    } else if 0 <= path[0] < t.directories.len() {
        node_at(t.directories[path[0]], path.drop_first())
    } else {
        None
    }
}

proof fn lemma_first_note_finds(notes: Seq<Note>, i: nat, id: Seq<char>)
    ensures
        first_note(notes, i, id) matches Some(n) ==> n.id@ == id,
        (exists|k: int| i <= k < notes.len() && (#[trigger] notes[k]).id@ == id) ==> first_note(notes, i, id) is Some,
    decreases notes.len() - i,
{
    if i < notes.len() {
        lemma_first_note_finds(notes, i + 1, id);
        if exists|k: int| i <= k < notes.len() && (#[trigger] notes[k]).id@ == id {
            let k = choose|k: int| i <= k < notes.len() && (#[trigger] notes[k]).id@ == id;
            if k > i {
                assert(i + 1 <= k < notes.len() && notes[k].id@ == id);
            }
        }
    }
}

proof fn lemma_find_note_id(t: TreeView, id: Seq<char>)
    ensures
        find_note(t, id) matches Some(n) ==> n.id@ == id,
    decreases t, 1nat, 0nat,
{
    lemma_first_note_finds(t.notes, 0, id);
    lemma_find_note_from_id(t, 0, id);
}

proof fn lemma_find_note_from_id(t: TreeView, i: nat, id: Seq<char>)
    ensures
        find_note_from(t, i, id) matches Some(n) ==> n.id@ == id,
    decreases t, 0nat, t.directories.len() - i,
{
    if i < t.directories.len() {
        lemma_find_note_id(t.directories[i as int], id);
        lemma_find_note_from_id(t, i + 1, id);
    }
}

proof fn lemma_find_note_from_some(t: TreeView, i: nat, j: int, id: Seq<char>)
    requires
        i <= j < t.directories.len(),
        find_note(t.directories[j], id) is Some,
    ensures
        find_note_from(t, i, id) is Some,
    decreases j - i,
{
    if i < j {
        lemma_find_note_from_some(t, i + 1, j, id);
    }
}

/// A note is found wherever it lies in the tree: if any node reached from
/// the root, at any depth, lists a note with id `id`, looking `id` up gives
/// a note with that id.
pub proof fn law_find_note_reaches_every_depth(t: TreeView, path: Seq<int>, k: int, id: Seq<char>)
    requires
        node_at(t, path) matches Some(m) && 0 <= k < m.notes.len() && m.notes[k].id@ == id,
    ensures
        find_note(t, id) matches Some(n) && n.id@ == id,
    decreases path.len(),
{
    lemma_find_note_id(t, id);
    if path.len() == 0 {
        lemma_first_note_finds(t.notes, 0, id);
        assert(0 <= k < t.notes.len() && t.notes[k].id@ == id);
    } else {
        let c = t.directories[path[0]];
        law_find_note_reaches_every_depth(c, path.drop_first(), k, id);
        lemma_first_note_finds(t.notes, 0, id);
        if first_note(t.notes, 0, id) is None {
            lemma_find_note_from_some(t, 0, path[0], id);
        }
    }
}

} // verus!
